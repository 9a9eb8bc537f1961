use vstd::prelude::*;
use crate::git::Job;

verus! {

/// How one erase attempt ended.
#[derive(Debug, PartialEq, Eq)]
pub enum EraseOutcome {
    Erased,
    /// The attempt failed, for this reason.
    Failed(String),
}

/// Why an outcome could not be recorded.
#[derive(Clone, Copy, Debug, PartialEq, Eq, Structural)]
pub enum BatchError {
    /// The batch has no such slot.
    UnknownSlot,
    /// The slot already holds an outcome.
    AlreadyRecorded,
}

/// One job of a batch and its outcome, once known.
pub type Slot = (u64, Option<EraseOutcome>);

/// How many slots hold an outcome.
pub open spec fn recorded(s: Seq<Slot>) -> nat
    decreases s.len(),
{
    if s.len() == 0 {
        0
    } else {
        recorded(s.drop_last()) + if s.last().1 is Some { 1nat } else { 0nat }
    }
}

/// The failed jobs of `s` with their reasons, in slot order.
pub open spec fn failures_of(s: Seq<Slot>) -> Seq<(u64, String)>
    decreases s.len(),
{
    if s.len() == 0 {
        Seq::empty()
    } else {
        match s.last().1 {
            Some(EraseOutcome::Failed(reason)) => failures_of(s.drop_last()).push((s.last().0, reason)),
            _ => failures_of(s.drop_last()),
        }
    }
}

/// Every slot holds an outcome.
pub open spec fn all_recorded(s: Seq<Slot>) -> bool {
    forall|i: int| 0 <= i < s.len() ==> (#[trigger] s[i]).1 is Some
}

/// What recording `outcome` in `slot` does to the slots `s`.
pub open spec fn record_result(s: Seq<Slot>, slot: int, outcome: EraseOutcome) -> (Result<u64, BatchError>, Seq<Slot>) {
    if slot < 0 || slot >= s.len() {
        (Err(BatchError::UnknownSlot), s)
    } else if s[slot].1 is Some {
        (Err(BatchError::AlreadyRecorded), s)
    } else {
        (Ok(s[slot].0), s.update(slot, (s[slot].0, Some(outcome))))
    }
}

/// The count of completed attempts never exceeds the number of jobs, and
/// reaches it exactly when every job has an outcome, whatever the outcomes.
pub proof fn progress_reaches_batch_length(s: Seq<Slot>)
    ensures
        recorded(s) <= s.len(),
        recorded(s) == s.len() <==> all_recorded(s),
    decreases s.len(),
{
    if s.len() > 0 {
        progress_reaches_batch_length(s.drop_last());
        if all_recorded(s) {
            assert forall|i: int| 0 <= i < s.drop_last().len() implies (#[trigger] s.drop_last()[i]).1 is Some by {
                assert(s[i].1 is Some);
            }
        }
        if recorded(s) == s.len() {
            assert forall|i: int| 0 <= i < s.len() implies (#[trigger] s[i]).1 is Some by {
                if i < s.len() - 1 {
                    assert(s.drop_last()[i] == s[i]);
                }
            }
        }
    }
}

proof fn lemma_recorded_update(s: Seq<Slot>, i: int, x: Slot)
    requires
        0 <= i < s.len(),
        s[i].1 is None,
        x.1 is Some,
    ensures
        recorded(s.update(i, x)) == recorded(s) + 1,
    decreases s.len(),
{
    let t = s.update(i, x);
    if i == s.len() - 1 {
        assert(t.drop_last() == s.drop_last());
    } else {
        lemma_recorded_update(s.drop_last(), i, x);
        assert(t.drop_last() == s.drop_last().update(i, x));
    }
}

/// A failed attempt blocks no other: after a failure is recorded in slot
/// `i`, an outcome for any other slot still waiting is taken, and the
/// failure stays recorded.
pub proof fn failure_blocks_no_other_job(s: Seq<Slot>, i: int, j: int, reason: String, outcome: EraseOutcome)
    requires
        0 <= i < s.len(),
        0 <= j < s.len(),
        i != j,
        s[i].1 is None,
        s[j].1 is None,
    ensures
        ({
            let after_failure = record_result(s, i, EraseOutcome::Failed(reason)).1;
            let (r, after) = record_result(after_failure, j, outcome);
            &&& r == Ok::<u64, BatchError>(s[j].0)
            &&& after[i] == (s[i].0, Some(EraseOutcome::Failed(reason)))
            &&& after[j] == (s[j].0, Some(outcome))
            &&& recorded(after) == recorded(s) + 2
        }),
{
    let s1 = s.update(i, (s[i].0, Some(EraseOutcome::Failed(reason))));
    lemma_recorded_update(s, i, (s[i].0, Some(EraseOutcome::Failed(reason))));
    lemma_recorded_update(s1, j, (s[j].0, Some(outcome)));
}

/// The slots after recording each `(slot, outcome)` of `order` in turn.
pub open spec fn record_all(s: Seq<Slot>, order: Seq<(int, EraseOutcome)>) -> Seq<Slot>
    decreases order.len(),
{
    if order.len() == 0 {
        s
    } else {
        record_result(record_all(s, order.drop_last()), order.last().0, order.last().1).1
    }
}

/// Some entry of `order` records slot `m`.
pub open spec fn attempted(order: Seq<(int, EraseOutcome)>, m: int) -> bool {
    exists|t: int| 0 <= t < order.len() && (#[trigger] order[t]).0 == m
}

proof fn lemma_record_all(s: Seq<Slot>, order: Seq<(int, EraseOutcome)>)
    requires
        forall|m: int| 0 <= m < s.len() ==> (#[trigger] s[m]).1 is None,
        forall|t: int| 0 <= t < order.len() ==> 0 <= (#[trigger] order[t]).0 < s.len(),
        forall|t: int, u: int| 0 <= t < u < order.len() ==> (#[trigger] order[t]).0 != (#[trigger] order[u]).0,
    ensures
        record_all(s, order).len() == s.len(),
        forall|m: int| 0 <= m < s.len() ==> (#[trigger] record_all(s, order)[m]).0 == s[m].0,
        forall|m: int| 0 <= m < s.len() ==> ((#[trigger] record_all(s, order)[m]).1 is Some
            <==> attempted(order, m)),
        forall|t: int| 0 <= t < order.len() ==> (#[trigger] record_result(
            record_all(s, order.take(t)),
            order[t].0,
            order[t].1,
        ).0) == Ok::<u64, BatchError>(s[order[t].0].0),
    decreases order.len(),
{
    if order.len() > 0 {
        let prev = order.drop_last();
        let n = order.len() - 1;
        lemma_record_all(s, prev);
        let r = record_all(s, prev);
        let slot = order.last().0;
        assert(r[slot].1 is None) by {
            if r[slot].1 is Some {
                let t = choose|t: int| 0 <= t < prev.len() && (#[trigger] prev[t]).0 == slot;
                assert(order[t].0 == order[n].0);
            }
        }
        let after = record_all(s, order);
        assert forall|m: int| 0 <= m < s.len() implies ((#[trigger] after[m]).1 is Some
            <==> attempted(order, m)) by {
            if m == slot {
                assert(order[n].0 == m);
            } else {
                if exists|t: int| 0 <= t < order.len() && (#[trigger] order[t]).0 == m {
                    let t = choose|t: int| 0 <= t < order.len() && (#[trigger] order[t]).0 == m;
                    assert(prev[t].0 == m);
                }
                if exists|t: int| 0 <= t < prev.len() && (#[trigger] prev[t]).0 == m {
                    let t = choose|t: int| 0 <= t < prev.len() && (#[trigger] prev[t]).0 == m;
                    assert(order[t].0 == m);
                }
            }
        }
        assert forall|t: int| 0 <= t < order.len() implies (#[trigger] record_result(
            record_all(s, order.take(t)),
            order[t].0,
            order[t].1,
        ).0) == Ok::<u64, BatchError>(s[order[t].0].0) by {
            if t < n {
                assert(order.take(t) == prev.take(t));
                assert(order[t] == prev[t]);
            } else {
                assert(order.take(t) == prev);
            }
        }
    }
}

/// Every job of a batch gets exactly one outcome: when each slot's attempt
/// completes once, in any order and with any mix of successes and
/// failures, every recording is taken, every job ends with an outcome, the
/// jobs stay as they were and the progress equals the number of jobs.
pub proof fn every_job_gets_one_outcome(s: Seq<Slot>, order: Seq<(int, EraseOutcome)>)
    requires
        forall|m: int| 0 <= m < s.len() ==> (#[trigger] s[m]).1 is None,
        forall|t: int| 0 <= t < order.len() ==> 0 <= (#[trigger] order[t]).0 < s.len(),
        forall|t: int, u: int| 0 <= t < u < order.len() ==> (#[trigger] order[t]).0 != (#[trigger] order[u]).0,
        forall|m: int| 0 <= m < s.len() ==> #[trigger] attempted(order, m),
    ensures
        forall|t: int| 0 <= t < order.len() ==> (#[trigger] record_result(
            record_all(s, order.take(t)),
            order[t].0,
            order[t].1,
        ).0) is Ok,
        record_all(s, order).len() == s.len(),
        forall|m: int| 0 <= m < s.len() ==> (#[trigger] record_all(s, order)[m]).0 == s[m].0,
        all_recorded(record_all(s, order)),
        recorded(record_all(s, order)) == s.len(),
{
    lemma_record_all(s, order);
    let after = record_all(s, order);
    assert forall|m: int| 0 <= m < after.len() implies (#[trigger] after[m]).1 is Some by {
        assert(attempted(order, m));
    }
    progress_reaches_batch_length(after);
}

/// The outcomes of erasing a batch of jobs, each job in a slot of its own.
pub struct Batch {
    slots: Vec<Slot>,
    completed: usize,
}

impl View for Batch {
    type V = Seq<Slot>;

    closed spec fn view(&self) -> Seq<Slot> {
        self.slots@
    }
}

impl Batch {
    /// The count of completed attempts agrees with the slots.
    pub closed spec fn wf(&self) -> bool {
        self.completed == recorded(self.slots@)
    }

    /// A batch of `jobs`, none of them attempted yet.
    pub fn new(jobs: &Vec<Job>) -> (r: Batch)
        ensures
            r.wf(),
            r@.len() == jobs@.len(),
            forall|i: int| 0 <= i < jobs@.len() ==> #[trigger] r@[i] == (jobs@[i].id, None::<EraseOutcome>),
    {
        let mut slots: Vec<Slot> = Vec::new();
        let mut i: usize = 0;
        while i < jobs.len()
            invariant
                i <= jobs@.len(),
                slots@.len() == i,
                forall|k: int| 0 <= k < i ==> #[trigger] slots@[k] == (jobs@[k].id, None::<EraseOutcome>),
                recorded(slots@) == 0,
            decreases jobs@.len() - i,
        {
            let ghost before = slots@;
            slots.push((jobs[i].id, None));
            assert(slots@.drop_last() == before);
            i = i + 1;
        }
        Batch { slots, completed: 0 }
    }

    /// The number of jobs in the batch.
    pub fn len(&self) -> (r: usize)
        ensures
            r == self@.len(),
    {
        self.slots.len()
    }

    /// The number of attempts that have completed, erased or failed.
    pub fn progress(&self) -> (r: usize)
        requires
            self.wf(),
        ensures
            r == recorded(self@),
    {
        self.completed
    }

    /// Whether every job of the batch has an outcome.
    pub fn is_complete(&self) -> (r: bool)
        requires
            self.wf(),
        ensures
            r == all_recorded(self@),
    {
        proof {
            progress_reaches_batch_length(self.slots@);
        }
        self.completed == self.slots.len()
    }

    /// Records how the attempt for the job in `slot` ended. Each slot takes
    /// one outcome; whatever other slots hold does not matter.
    pub fn record(&mut self, slot: usize, outcome: EraseOutcome) -> (r: Result<u64, BatchError>)
        requires
            old(self).wf(),
        ensures
            final(self).wf(),
            (r, final(self)@) == record_result(old(self)@, slot as int, outcome),
    {
        if slot >= self.slots.len() {
            return Err(BatchError::UnknownSlot);
        }
        if self.slots[slot].1.is_some() {
            return Err(BatchError::AlreadyRecorded);
        }
        let id = self.slots[slot].0;
        proof {
            lemma_recorded_update(self.slots@, slot as int, (id, Some(outcome)));
            progress_reaches_batch_length(self.slots@.update(slot as int, (id, Some(outcome))));
        }
        self.slots.set(slot, (id, Some(outcome)));
        self.completed = self.completed + 1;
        Ok(id)
    }

    /// The jobs whose attempt failed, with the reasons, in slot order.
    pub fn failures(&self) -> (r: Vec<(u64, String)>)
        ensures
            r@ == failures_of(self@),
    {
        let mut r: Vec<(u64, String)> = Vec::new();
        let mut i: usize = 0;
        while i < self.slots.len()
            invariant
                i <= self@.len(),
                r@ == failures_of(self@.take(i as int)),
            decreases self@.len() - i,
        {
            assert(self@.take(i as int + 1).drop_last() == self@.take(i as int));
            match &self.slots[i].1 {
                Some(EraseOutcome::Failed(reason)) => {
                    r.push((self.slots[i].0, reason.clone()));
                },
                _ => {},
            }
            i = i + 1;
        }
        assert(self@.take(self@.len() as int) == self@);
        r
    }
}

} // verus!
