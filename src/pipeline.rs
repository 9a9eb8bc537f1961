use vstd::prelude::*;
use crate::clock::{before, Timestamp};
use crate::git::{GetJobsResponse, Job};

verus! {

/// A page as the store returned it: its jobs and the cursor to the next one.
pub type PageView = (Seq<Job>, Option<u64>);

/// The jobs of `pages`, page after page, each page in its own order.
pub open spec fn jobs_of(pages: Seq<PageView>) -> Seq<Job>
    decreases pages.len(),
{
    if pages.len() == 0 {
        Seq::empty()
    } else {
        jobs_of(pages.drop_last()) + pages.last().0
    }
}

/// The page to request once `pages` have been loaded: the first page at the
/// start, then the cursor that the last page returned.
pub open spec fn cursor_after(pages: Seq<PageView>) -> Option<u64> {
    if pages.len() == 0 {
        Some(1)
    } else {
        pages.last().1
    }
}

/// Where the jobs of page `i` start in `jobs_of(pages)`.
pub open spec fn page_offset(pages: Seq<PageView>, i: int) -> int {
    jobs_of(pages.take(i)).len() as int
}

proof fn lemma_jobs_of_prefix(pages: Seq<PageView>, k: int)
    requires
        0 <= k <= pages.len(),
    ensures
        jobs_of(pages.take(k)).len() <= jobs_of(pages).len(),
        jobs_of(pages.take(k)) == jobs_of(pages).take(jobs_of(pages.take(k)).len() as int),
    decreases pages.len(),
{
    if k == pages.len() {
        assert(pages.take(k) == pages);
        assert(jobs_of(pages).take(jobs_of(pages).len() as int) == jobs_of(pages));
    } else {
        lemma_jobs_of_prefix(pages.drop_last(), k);
        assert(pages.drop_last().take(k) == pages.take(k));
        let a = jobs_of(pages.drop_last());
        let n = jobs_of(pages.take(k)).len() as int;
        assert((a + pages.last().0).take(n) == a.take(n));
    }
}

/// Pagination goes on while each page names a next one and stops at the
/// first page that names none; the jobs gathered are those of every page
/// loaded, each page's jobs together and in the order the page gave them.
pub proof fn pagination_gathers_every_page(pages: Seq<PageView>)
    requires
        forall|i: int| 0 <= i < pages.len() - 1 ==> (#[trigger] pages[i]).1 is Some,
    ensures
        cursor_after(pages) is None <==> pages.len() > 0 && pages.last().1 is None,
        forall|i: int| 0 <= i < pages.len() ==> (#[trigger] pages.take(i)).len() == i
            && cursor_after(pages.take(i)) is Some,
        forall|i: int|
            0 <= i < pages.len() ==> jobs_of(pages).subrange(
                page_offset(pages, i),
                page_offset(pages, i) + pages[i].0.len(),
            ) == (#[trigger] pages[i]).0,
{
    assert forall|i: int| 0 <= i < pages.len() implies (#[trigger] pages.take(i)).len() == i
        && cursor_after(pages.take(i)) is Some by {
        if i > 0 {
            assert(pages.take(i).last() == pages[i - 1]);
        }
    }
    assert forall|i: int| 0 <= i < pages.len() implies jobs_of(pages).subrange(
        page_offset(pages, i),
        page_offset(pages, i) + pages[i].0.len(),
    ) == (#[trigger] pages[i]).0 by {
        lemma_jobs_of_prefix(pages, i + 1);
        let t = pages.take(i + 1);
        assert(t.drop_last() == pages.take(i));
        assert(t.last() == pages[i]);
        let all = jobs_of(pages);
        let head = jobs_of(pages.take(i));
        let whole = jobs_of(t);
        assert(whole == head + pages[i].0);
        assert(whole == all.take(whole.len() as int));
        assert(all.subrange(head.len() as int, whole.len() as int) == whole.subrange(head.len() as int, whole.len() as int));
        assert(whole.subrange(head.len() as int, whole.len() as int) == pages[i].0);
    }
}

/// Walks the pages of a job listing and gathers their jobs.
pub struct Pager {
    next: Option<u64>,
    jobs: Vec<Job>,
    pages: Ghost<Seq<PageView>>,
}

impl View for Pager {
    /// The pages loaded so far.
    type V = Seq<PageView>;

    closed spec fn view(&self) -> Seq<PageView> {
        self.pages@
    }
}

impl Pager {
    /// The jobs and cursor agree with the pages loaded.
    pub closed spec fn wf(&self) -> bool {
        &&& self.next == cursor_after(self.pages@)
        &&& self.jobs@ == jobs_of(self.pages@)
    }

    /// A pager that has loaded nothing and asks for the first page.
    pub fn new() -> (r: Pager)
        ensures
            r.wf(),
            r@ == Seq::<PageView>::empty(),
    {
        Pager { next: Some(1), jobs: Vec::new(), pages: Ghost(Seq::empty()) }
    }

    /// The page to request next; `None` once the listing is exhausted.
    pub fn page_to_load(&self) -> (r: Option<u64>)
        requires
            self.wf(),
        ensures
            r == cursor_after(self@),
    {
        self.next
    }

    /// Takes in the page that the store returned for `page_to_load`.
    pub fn accept(&mut self, response: GetJobsResponse)
        requires
            old(self).wf(),
            old(self).page_to_load_spec() is Some,
        ensures
            final(self).wf(),
            final(self)@ == old(self)@.push((response.jobs@, response.next_page)),
    {
        let ghost loaded = self.pages@.push((response.jobs@, response.next_page));
        let ghost page_jobs = response.jobs@;
        let GetJobsResponse { jobs, next_page } = response;
        let mut jobs = jobs;
        self.jobs.append(&mut jobs);
        self.next = next_page;
        self.pages = Ghost(loaded);
        assert(loaded.drop_last() == old(self)@);
        assert(self.jobs@ == jobs_of(loaded));
    }

    /// The cursor this pager will request next, in contracts.
    pub open spec fn page_to_load_spec(&self) -> Option<u64> {
        cursor_after(self@)
    }

    /// All jobs loaded so far, in the order of the pages.
    pub fn jobs(&self) -> (r: &Vec<Job>)
        requires
            self.wf(),
        ensures
            r@ == jobs_of(self@),
    {
        &self.jobs
    }

    /// All jobs loaded so far, in the order of the pages.
    pub fn into_jobs(self) -> (r: Vec<Job>)
        requires
            self.wf(),
        ensures
            r@ == jobs_of(self@),
    {
        self.jobs
    }
}

/// The jobs of `jobs` created strictly before `cutoff`, in their order.
pub open spec fn eligible(jobs: Seq<Job>, cutoff: Timestamp) -> Seq<Job>
    decreases jobs.len(),
{
    if jobs.len() == 0 {
        Seq::empty()
    } else if before(jobs.last().created_at, cutoff) {
        eligible(jobs.drop_last(), cutoff).push(jobs.last())
    } else {
        eligible(jobs.drop_last(), cutoff)
    }
}

/// A job is eligible exactly when it is among `jobs` and was created
/// strictly before `cutoff`; eligible jobs keep the order they had.
pub proof fn eligible_are_exactly_the_older(jobs: Seq<Job>, cutoff: Timestamp)
    ensures
        forall|j: Job| #[trigger] eligible(jobs, cutoff).contains(j)
            <==> jobs.contains(j) && before(j.created_at, cutoff),
        eligible(jobs, cutoff).len() <= jobs.len(),
    decreases jobs.len(),
{
    if jobs.len() > 0 {
        let rest = jobs.drop_last();
        let x = jobs.last();
        eligible_are_exactly_the_older(rest, cutoff);
        assert forall|j: Job| #[trigger] jobs.contains(j) <==> rest.contains(j) || j == x by {
            if jobs.contains(j) {
                let k = choose|k: int| 0 <= k < jobs.len() && jobs[k] == j;
                if k < jobs.len() - 1 {
                    assert(rest[k] == j);
                }
            }
            if rest.contains(j) {
                let k = choose|k: int| 0 <= k < rest.len() && rest[k] == j;
                assert(jobs[k] == j);
            }
            if j == x {
                assert(jobs[jobs.len() - 1] == j);
            }
        }
        let e = eligible(rest, cutoff);
        assert forall|j: Job| #[trigger] e.push(x).contains(j) <==> e.contains(j) || j == x by {
            if e.push(x).contains(j) {
                let k = choose|k: int| 0 <= k < e.push(x).len() && e.push(x)[k] == j;
                if k < e.len() {
                    assert(e[k] == j);
                }
            }
            if e.contains(j) {
                let k = choose|k: int| 0 <= k < e.len() && e[k] == j;
                assert(e.push(x)[k] == j);
            }
            if j == x {
                assert(e.push(x)[e.len() as int] == j);
            }
        }
    }
}

/// The jobs to erase: those created strictly before `cutoff`. The listing
/// does not filter by age, so the cleanup does it here.
pub fn eligible_jobs(jobs: &Vec<Job>, cutoff: Timestamp) -> (r: Vec<Job>)
    ensures
        r@ == eligible(jobs@, cutoff),
{
    let mut r: Vec<Job> = Vec::new();
    let mut i: usize = 0;
    while i < jobs.len()
        invariant
            i <= jobs@.len(),
            r@ == eligible(jobs@.take(i as int), cutoff),
        decreases jobs@.len() - i,
    {
        let job = jobs[i];
        assert(jobs@.take(i as int + 1).drop_last() == jobs@.take(i as int));
        if job.created_at.is_before(&cutoff) {
            r.push(job);
        }
        i = i + 1;
    }
    assert(jobs@.take(jobs@.len() as int) == jobs@);
    r
}

} // verus!
