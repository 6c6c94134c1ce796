//! Bookkeeping for the bounded-concurrency job scheduler.
//!
//! The engine fans each directory level's transfers out as concurrent jobs,
//! at most `limit` in flight at once: a new job may start only when the
//! pool is not full, and as any job completes its outcome — 0 for a skipped
//! item, 1 for a transferred one — is folded into a single running total by
//! whoever drives the pool, never by the jobs themselves. This type carries
//! that state and its guarantees; the driver performs the actual awaiting
//! and calls `start_job` and `complete` as jobs start and finish.

use vstd::prelude::*;

verus! {

/// The sum of a sequence of per-job outcomes.
pub open spec fn sum_outcomes(s: Seq<usize>) -> int
    decreases s.len(),
{
    if s.len() == 0 {
        0
    } else {
        sum_outcomes(s.drop_last()) + s.last()
    }
}

/// Every outcome is a per-item count: 0 (skipped) or 1 (transferred).
pub open spec fn outcomes_are_counts(s: Seq<usize>) -> bool {
    forall|i: int| 0 <= i < s.len() ==> s[i] <= 1
}

/// The scheduler's bookkeeping: how many jobs are in flight, the bound, and
/// the total folded from completed jobs' outcomes.
pub struct JobScheduler {
    limit: usize,
    in_flight: usize,
    total: usize,
    outcomes: Ghost<Seq<usize>>,
}

impl JobScheduler {
    /// The concurrency bound the scheduler was made with.
    pub closed spec fn limit(self) -> usize {
        self.limit
    }

    /// How many started jobs have not completed yet.
    pub closed spec fn in_flight(self) -> usize {
        self.in_flight
    }

    /// The running total of completed jobs' outcomes.
    pub closed spec fn total(self) -> usize {
        self.total
    }

    /// The outcomes of the jobs completed so far, in completion order.
    pub closed spec fn outcomes(self) -> Seq<usize> {
        self.outcomes@
    }

    /// At no point are more jobs in flight than the bound allows, the bound
    /// is at least one, and the total is exactly the fold of the completed
    /// outcomes.
    pub closed spec fn wf(self) -> bool {
        &&& 1 <= self.limit
        &&& self.in_flight <= self.limit
        &&& self.total == sum_outcomes(self.outcomes@)
        &&& outcomes_are_counts(self.outcomes@)
    }

    /// A scheduler with no job in flight and nothing counted.
    pub fn new(limit: usize) -> (r: Self)
        requires
            1 <= limit,
        ensures
            r.wf(),
            r.limit() == limit,
            r.in_flight() == 0,
            r.total() == 0,
            r.outcomes() == Seq::<usize>::empty(),
    {
        JobScheduler { limit, in_flight: 0, total: 0, outcomes: Ghost(Seq::empty()) }
    }

    /// How many jobs the caller currently has in flight.
    pub fn in_flight_count(&self) -> (r: usize)
        ensures
            r == self.in_flight(),
    {
        self.in_flight
    }

    /// The concurrency bound.
    pub fn concurrency_limit(&self) -> (r: usize)
        ensures
            r == self.limit(),
    {
        self.limit
    }

    /// Whether the pool is full, so that a completion must be collected
    /// before the next job may start.
    pub fn is_full(&self) -> (r: bool)
        ensures
            r == (self.in_flight() == self.limit()),
    {
        self.in_flight == self.limit
    }

    /// Records that one more job was started. Only a pool that is not full
    /// lets a job start: the concurrency bound is never exceeded.
    pub fn start_job(&mut self)
        requires
            old(self).wf(),
            old(self).in_flight() < old(self).limit(),
        ensures
            final(self).wf(),
            final(self).limit() == old(self).limit(),
            final(self).in_flight() == old(self).in_flight() + 1,
            final(self).total() == old(self).total(),
            final(self).outcomes() == old(self).outcomes(),
    {
        self.in_flight = self.in_flight + 1;
    }

    /// Folds a completed job's outcome into the total.
    pub fn complete(&mut self, outcome: usize)
        requires
            old(self).wf(),
            old(self).in_flight() > 0,
            outcome <= 1,
            old(self).total() < usize::MAX,
        ensures
            final(self).wf(),
            final(self).limit() == old(self).limit(),
            final(self).in_flight() == old(self).in_flight() - 1,
            final(self).total() == old(self).total() + outcome,
            final(self).outcomes() == old(self).outcomes().push(outcome),
    {
        let ghost prior = self.outcomes@;
        self.in_flight = self.in_flight - 1;
        self.total = self.total + outcome;
        proof {
            self.outcomes@ = prior.push(outcome);
            assert(self.outcomes@.drop_last() =~= prior);
        }
    }

    /// The aggregate after the pool has drained.
    pub fn into_total(self) -> (r: usize)
        ensures
            r == self.total(),
    {
        self.total
    }
}

/// Bounded concurrency: a well-formed scheduler never has more jobs in
/// flight than its bound, and its total is exactly the sum of the outcomes
/// of the jobs that completed, however their completions interleaved.
pub proof fn lemma_bounded_in_flight(s: JobScheduler)
    requires
        s.wf(),
    ensures
        s.in_flight() <= s.limit(),
        s.total() == sum_outcomes(s.outcomes()),
{
}

/// With every outcome a per-item count of 0 or 1, the total never exceeds
/// the number of completed jobs.
pub proof fn lemma_total_at_most_completed(s: Seq<usize>)
    requires
        outcomes_are_counts(s),
    ensures
        0 <= sum_outcomes(s) <= s.len(),
    decreases s.len(),
{
    if s.len() > 0 {
        lemma_total_at_most_completed(s.drop_last());
    }
}

} // verus!
