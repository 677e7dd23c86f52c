//! The bounded-concurrency start gate that drives a mirroring stage: at
//! most `limit` fetches are in flight at any instant, each descriptor is
//! started exactly once, and every started fetch records exactly one
//! outcome, failures included. The driver loop performs the fetches; every
//! admission and completion passes through this state, so the bound and the
//! one-outcome-per-item accounting are invariants of the run.
use vstd::prelude::*;
use crate::fetch::FetchOutcome;

verus! {

/// The gating state of one stage's concurrent fan-out.
pub struct Scheduler {
    /// How many descriptors the stage holds.
    pub total: usize,
    /// The concurrency limit; at least 1.
    pub limit: usize,
    /// How many descriptors have been started so far.
    pub started: usize,
    /// How many started fetches have not completed yet.
    pub in_flight: usize,
    /// One recorded outcome per completed fetch, in completion order.
    pub outcomes: Vec<FetchOutcome>,
}

impl Scheduler {
    /// The state invariant: the limit is positive and respected, no more
    /// items start than exist, and every started fetch is either still in
    /// flight or has recorded exactly one outcome.
    pub open spec fn wf(&self) -> bool {
        &&& 1 <= self.limit
        &&& self.started <= self.total
        &&& self.in_flight <= self.limit
        &&& self.outcomes@.len() + self.in_flight == self.started
    }

    /// A fresh gate for `total` descriptors under concurrency `limit`.
    pub fn new(total: usize, limit: usize) -> (s: Self)
        requires
            1 <= limit,
        ensures
            s.wf(),
            s.total == total,
            s.limit == limit,
            s.started == 0,
            s.in_flight == 0,
            s.outcomes@ == Seq::<FetchOutcome>::empty(),
    {
        Scheduler { total, limit, started: 0, in_flight: 0, outcomes: Vec::new() }
    }

    /// Whether another fetch may start now: descriptors remain and the
    /// in-flight count is below the limit.
    pub fn can_start_next(&self) -> (r: bool)
        ensures
            r == (self.started < self.total && self.in_flight < self.limit),
    {
        self.started < self.total && self.in_flight < self.limit
    }

    /// Start the next descriptor; returns its index. The concurrency bound
    /// is preserved: after the start `in_flight <= limit` still holds.
    pub fn start_next(&mut self) -> (idx: usize)
        requires
            old(self).wf(),
            old(self).started < old(self).total,
            old(self).in_flight < old(self).limit,
        ensures
            final(self).wf(),
            idx == old(self).started,
            final(self).started == old(self).started + 1,
            final(self).in_flight == old(self).in_flight + 1,
            final(self).total == old(self).total,
            final(self).limit == old(self).limit,
            final(self).outcomes@ == old(self).outcomes@,
    {
        let idx = self.started;
        self.started = self.started + 1;
        self.in_flight = self.in_flight + 1;
        idx
    }

    /// Record the outcome of one in-flight fetch, success or failure alike:
    /// a failure is absorbed here, never raised, so no item's failure can
    /// cancel or block another.
    pub fn complete(&mut self, outcome: FetchOutcome)
        requires
            old(self).wf(),
            old(self).in_flight >= 1,
        ensures
            final(self).wf(),
            final(self).in_flight == old(self).in_flight - 1,
            final(self).outcomes@ == old(self).outcomes@.push(outcome),
            final(self).started == old(self).started,
            final(self).total == old(self).total,
            final(self).limit == old(self).limit,
    {
        self.in_flight = self.in_flight - 1;
        self.outcomes.push(outcome);
    }

    /// Whether the stage is finished: every descriptor started and completed.
    pub fn is_done(&self) -> (r: bool)
        ensures
            r == (self.started == self.total && self.in_flight == 0),
    {
        self.started == self.total && self.in_flight == 0
    }
}

/// Bounded concurrency: in every well-formed state, at most `limit` fetches
/// are in flight. Since every step of a run preserves `wf`, no observable
/// instant exceeds the limit.
pub proof fn lemma_bounded_in_flight(s: Scheduler)
    requires
        s.wf(),
    ensures
        s.in_flight <= s.limit,
{
}

/// Completeness: a finished run over `total` descriptors has recorded
/// exactly one outcome per descriptor, regardless of which attempts failed.
pub proof fn lemma_done_has_all_outcomes(s: Scheduler)
    requires
        s.wf(),
        s.started == s.total,
        s.in_flight == 0,
    ensures
        s.outcomes@.len() == s.total,
{
}

} // verus!
