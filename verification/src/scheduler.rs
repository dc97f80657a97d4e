//! Permit accounting for the bounded-concurrency scheduler.
//!
//! Every in-flight file holds exactly one permit from dispatch to
//! completion; the number of permits is the run's concurrency limit. The
//! state here is the verified model that the run loop drives: it admits a
//! dispatch only while a permit is free, so at no point are more files in
//! flight than the limit allows.

use vstd::prelude::*;

verus! {

/// The permit ledger of one run.
pub struct SchedulerState {
    /// The concurrency limit: how many permits exist.
    pub limit: usize,
    /// How many files the run has to dispatch.
    pub total: usize,
    /// How many files have been dispatched so far.
    pub dispatched: usize,
    /// How many files hold a permit right now.
    pub in_flight: usize,
    /// How many files have completed and released their permit.
    pub completed: usize,
}

impl SchedulerState {
    /// The ledger's invariant: never more in flight than the limit, never
    /// more dispatched than there are files, and every dispatched file is
    /// either in flight or completed.
    pub open spec fn wf(self) -> bool {
        &&& self.limit >= 1
        &&& self.in_flight <= self.limit
        &&& self.dispatched <= self.total
        &&& self.in_flight + self.completed == self.dispatched
    }

    /// A fresh ledger for a run over `total` files.
    pub fn new(limit: usize, total: usize) -> (r: SchedulerState)
        requires
            limit >= 1,
        ensures
            r.wf(),
            r.limit == limit,
            r.total == total,
            r.dispatched == 0,
            r.in_flight == 0,
            r.completed == 0,
    {
        SchedulerState { limit, total, dispatched: 0, in_flight: 0, completed: 0 }
    }

    /// Whether another file may be dispatched now: work remains and a
    /// permit is free.
    pub fn can_dispatch(&self) -> (r: bool)
        ensures
            r == (self.dispatched < self.total && self.in_flight < self.limit),
    {
        self.dispatched < self.total && self.in_flight < self.limit
    }

    /// Dispatch one file: it takes a permit and is in flight.
    pub fn dispatch(&mut self)
        requires
            old(self).wf(),
            old(self).dispatched < old(self).total,
            old(self).in_flight < old(self).limit,
        ensures
            final(self).wf(),
            final(self).limit == old(self).limit,
            final(self).total == old(self).total,
            final(self).dispatched == old(self).dispatched + 1,
            final(self).in_flight == old(self).in_flight + 1,
            final(self).completed == old(self).completed,
    {
        self.dispatched = self.dispatched + 1;
        self.in_flight = self.in_flight + 1;
    }

    /// Complete one in-flight file: it releases its permit, and the
    /// completion count — what the progress reporter is notified with —
    /// strictly increases.
    pub fn complete(&mut self)
        requires
            old(self).wf(),
            old(self).in_flight >= 1,
        ensures
            final(self).wf(),
            final(self).limit == old(self).limit,
            final(self).total == old(self).total,
            final(self).dispatched == old(self).dispatched,
            final(self).in_flight == old(self).in_flight - 1,
            final(self).completed == old(self).completed + 1,
    {
        self.in_flight = self.in_flight - 1;
        self.completed = self.completed + 1;
    }

    /// Whether the run is over: every file dispatched and completed.
    pub fn is_done(&self) -> (r: bool)
        ensures
            r == (self.dispatched == self.total && self.completed == self.total),
    {
        self.dispatched == self.total && self.completed == self.total
    }
}

/// One observable step of the run loop.
pub enum SchedEvent {
    /// A file is dispatched into the pool.
    Dispatch,
    /// An in-flight file finishes.
    Complete,
}

/// The ledger after one event; an event whose guard does not hold (no free
/// permit, no work left, nothing in flight) changes nothing.
pub open spec fn sched_step(s: SchedulerState, e: SchedEvent) -> SchedulerState {
    match e {
        SchedEvent::Dispatch => {
            if s.dispatched < s.total && s.in_flight < s.limit {
                SchedulerState {
                    dispatched: (s.dispatched + 1) as usize,
                    in_flight: (s.in_flight + 1) as usize,
                    ..s
                }
            } else {
                s
            }
        },
        SchedEvent::Complete => {
            if s.in_flight >= 1 {
                SchedulerState {
                    in_flight: (s.in_flight - 1) as usize,
                    completed: (s.completed + 1) as usize,
                    ..s
                }
            } else {
                s
            }
        },
    }
}

/// The ledger after a whole sequence of events.
pub open spec fn sched_run(s0: SchedulerState, evs: Seq<SchedEvent>) -> SchedulerState
    decreases evs.len(),
{
    if evs.len() == 0 {
        s0
    } else {
        sched_step(sched_run(s0, evs.drop_last()), evs.last())
    }
}

/// The concurrency bound holds at every point of every run: from a
/// well-formed start, any interleaving of dispatches and completions keeps
/// the ledger well formed — in particular, the number of in-flight files
/// never exceeds the limit, which the steps never change.
pub proof fn lemma_concurrency_bound(s0: SchedulerState, evs: Seq<SchedEvent>)
    requires
        s0.wf(),
    ensures
        sched_run(s0, evs).wf(),
        sched_run(s0, evs).limit == s0.limit,
        sched_run(s0, evs).in_flight <= s0.limit,
    decreases evs.len(),
{
    if evs.len() > 0 {
        lemma_concurrency_bound(s0, evs.drop_last());
    }
}

} // verus!
