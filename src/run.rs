use vstd::prelude::*;
use crate::batch::{record_result, recorded, failures_of, Batch, BatchError, EraseOutcome, Slot};
use crate::clock::Timestamp;
use crate::git::{EraseJob, GetJobs, GetJobsResponse, Job};
use crate::pipeline::{cursor_after, eligible, eligible_jobs, jobs_of, Pager, PageView};

verus! {

/// One cleanup run on a project: pages are loaded one after the other until
/// the listing is exhausted; only then are the eligible jobs handed out for
/// erasure, each in a slot of its own, and their outcomes gathered.
pub struct Cleanup {
    project_id: u64,
    cutoff: Timestamp,
    pager: Pager,
    to_erase: Vec<Job>,
    batch: Option<Batch>,
}

impl Cleanup {
    pub closed spec fn spec_project_id(&self) -> u64 {
        self.project_id
    }

    pub closed spec fn spec_cutoff(&self) -> Timestamp {
        self.cutoff
    }

    /// The pages loaded so far.
    pub closed spec fn pages(&self) -> Seq<PageView> {
        self.pager@
    }

    /// Whether the run has left pagination and is erasing.
    pub closed spec fn erasing(&self) -> bool {
        self.batch is Some
    }

    /// The jobs handed out for erasure, once erasing.
    pub closed spec fn to_erase(&self) -> Seq<Job> {
        self.to_erase@
    }

    /// The erase slots and their outcomes, once erasing.
    pub closed spec fn slots(&self) -> Seq<Slot> {
        match self.batch {
            Some(b) => b@,
            None => Seq::empty(),
        }
    }

    pub closed spec fn wf(&self) -> bool {
        &&& self.pager.wf()
        &&& self.erasing() <==> cursor_after(self.pager@) is None
        &&& self.erasing() ==> self.to_erase@ == eligible(jobs_of(self.pager@), self.cutoff)
        &&& match self.batch {
            Some(b) => b.wf() && b@.len() == self.to_erase@.len()
                && forall|i: int| 0 <= i < b@.len() ==> (#[trigger] b@[i]).0 == self.to_erase@[i].id,
            None => true,
        }
    }

    /// A run that has loaded nothing yet.
    pub fn new(project_id: u64, cutoff: Timestamp) -> (r: Cleanup)
        ensures
            r.wf(),
            r.spec_project_id() == project_id,
            r.spec_cutoff() == cutoff,
            r.pages() == Seq::<PageView>::empty(),
            !r.erasing(),
    {
        Cleanup { project_id, cutoff, pager: Pager::new(), to_erase: Vec::new(), batch: None }
    }

    /// The page to request next, or `None` once every page is loaded.
    pub fn next_request(&self) -> (r: Option<GetJobs>)
        requires
            self.wf(),
        ensures
            r is None <==> self.erasing(),
            r matches Some(g) ==> g.project_id == self.spec_project_id() && g.older_than == self.spec_cutoff()
                && Some(g.page) == cursor_after(self.pages()),
    {
        match self.pager.page_to_load() {
            Some(page) => Some(GetJobs { project_id: self.project_id, older_than: self.cutoff, page }),
            None => None,
        }
    }

    /// Takes in the page that the store returned for `next_request`. The
    /// page that names no next one ends pagination: the jobs created before
    /// the cutoff, over all pages, become the batch to erase.
    pub fn on_page(&mut self, response: GetJobsResponse)
        requires
            old(self).wf(),
            !old(self).erasing(),
        ensures
            final(self).wf(),
            final(self).spec_project_id() == old(self).spec_project_id(),
            final(self).spec_cutoff() == old(self).spec_cutoff(),
            final(self).pages() == old(self).pages().push((response.jobs@, response.next_page)),
            final(self).erasing() <==> response.next_page is None,
            final(self).erasing() ==> final(self).to_erase() == eligible(jobs_of(final(self).pages()), final(self).spec_cutoff())
                && final(self).slots().len() == final(self).to_erase().len()
                && recorded(final(self).slots()) == 0
                && forall|i: int| 0 <= i < final(self).slots().len()
                    ==> (#[trigger] final(self).slots()[i]) == (final(self).to_erase()[i].id, None::<EraseOutcome>),
    {
        let done = response.next_page.is_none();
        self.pager.accept(response);
        if done {
            let loaded = self.pager.jobs();
            let to_erase = eligible_jobs(loaded, self.cutoff);
            let batch = Batch::new(&to_erase);
            proof {
                lemma_nothing_recorded(batch@);
            }
            self.to_erase = to_erase;
            self.batch = Some(batch);
        }
    }

    /// The erase requests to dispatch, one per slot.
    pub fn erase_requests(&self) -> (r: Vec<EraseJob>)
        requires
            self.wf(),
            self.erasing(),
        ensures
            r@.len() == self.to_erase().len(),
            forall|i: int| 0 <= i < r@.len() ==> #[trigger] r@[i] == (EraseJob {
                project_id: self.spec_project_id(),
                job_id: self.to_erase()[i].id,
            }),
    {
        let mut r: Vec<EraseJob> = Vec::new();
        let mut i: usize = 0;
        while i < self.to_erase.len()
            invariant
                i <= self.to_erase@.len(),
                r@.len() == i,
                forall|k: int| 0 <= k < i ==> #[trigger] r@[k] == (EraseJob {
                    project_id: self.project_id,
                    job_id: self.to_erase@[k].id,
                }),
            decreases self.to_erase@.len() - i,
        {
            r.push(EraseJob { project_id: self.project_id, job_id: self.to_erase[i].id });
            i = i + 1;
        }
        r
    }

    /// Records how the erase request of `slot` ended.
    pub fn on_erased(&mut self, slot: usize, outcome: EraseOutcome) -> (r: Result<u64, BatchError>)
        requires
            old(self).wf(),
            old(self).erasing(),
        ensures
            final(self).wf(),
            final(self).erasing(),
            final(self).pages() == old(self).pages(),
            final(self).to_erase() == old(self).to_erase(),
            (r, final(self).slots()) == record_result(old(self).slots(), slot as int, outcome),
    {
        let mut batch = self.batch.take().unwrap();
        let r = batch.record(slot, outcome);
        self.batch = Some(batch);
        r
    }

    /// The number of erase attempts that have completed.
    pub fn progress(&self) -> (r: usize)
        requires
            self.wf(),
        ensures
            r == recorded(self.slots()),
    {
        match &self.batch {
            Some(b) => b.progress(),
            None => 0,
        }
    }

    /// The failed erasures with their reasons, in slot order.
    pub fn failures(&self) -> (r: Vec<(u64, String)>)
        requires
            self.wf(),
        ensures
            r@ == failures_of(self.slots()),
    {
        match &self.batch {
            Some(b) => b.failures(),
            None => Vec::new(),
        }
    }
}

proof fn lemma_nothing_recorded(s: Seq<Slot>)
    requires
        forall|i: int| 0 <= i < s.len() ==> (#[trigger] s[i]).1 is None,
    ensures
        recorded(s) == 0,
    decreases s.len(),
{
    if s.len() > 0 {
        assert forall|i: int| 0 <= i < s.drop_last().len() implies (#[trigger] s.drop_last()[i]).1 is None by {
            assert(s[i].1 is None);
        }
        lemma_nothing_recorded(s.drop_last());
    }
}

} // verus!
