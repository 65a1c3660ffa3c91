use vstd::prelude::*;

verus! {

/// The concurrency limit used unless configured otherwise.
pub const DEFAULT_CONCURRENCY: usize = 4;

/// Hands out the indices `0 .. total` of the work list to workers, never more
/// than `limit` at a time, and counts completions for progress reporting.
pub struct WorkerPool {
    limit: usize,
    total: usize,
    next: usize,
    in_flight: usize,
    completed: usize,
}

impl WorkerPool {
    pub closed spec fn limit_spec(&self) -> nat {
        self.limit as nat
    }

    pub closed spec fn total_spec(&self) -> nat {
        self.total as nat
    }

    /// How many units were handed out so far.
    pub closed spec fn started_spec(&self) -> nat {
        self.next as nat
    }

    pub closed spec fn in_flight_spec(&self) -> nat {
        self.in_flight as nat
    }

    pub closed spec fn completed_spec(&self) -> nat {
        self.completed as nat
    }

    /// The limit is positive and never exceeded; every unit handed out is
    /// either in flight or completed.
    pub closed spec fn wf(&self) -> bool {
        &&& self.limit > 0
        &&& self.in_flight <= self.limit
        &&& self.next <= self.total
        &&& self.completed + self.in_flight == self.next
    }

    /// A pool over `total` units of work with at most `limit` in flight;
    /// `None` when the limit is zero, which would never run anything.
    pub fn new(limit: usize, total: usize) -> (r: Option<WorkerPool>)
        ensures
            r is None <==> limit == 0,
            r matches Some(p) ==> p.wf() && p.limit_spec() == limit && p.total_spec() == total
                && p.started_spec() == 0 && p.in_flight_spec() == 0 && p.completed_spec() == 0,
    {
        if limit == 0 {
            None
        } else {
            Some(WorkerPool { limit, total, next: 0, in_flight: 0, completed: 0 })
        }
    }

    /// Hands out the next unit when one is left and a slot is free.
    pub fn try_start(&mut self) -> (r: Option<usize>)
        requires
            old(self).wf(),
        ensures
            final(self).wf(),
            final(self).limit_spec() == old(self).limit_spec(),
            final(self).total_spec() == old(self).total_spec(),
            final(self).completed_spec() == old(self).completed_spec(),
            r is Some <==> (old(self).in_flight_spec() < old(self).limit_spec()
                && old(self).started_spec() < old(self).total_spec()),
            r matches Some(i) ==> i == old(self).started_spec() && final(self).started_spec()
                == old(self).started_spec() + 1 && final(self).in_flight_spec()
                == old(self).in_flight_spec() + 1,
            r is None ==> *final(self) == *old(self),
    {
        if self.in_flight < self.limit && self.next < self.total {
            let i = self.next;
            self.next = self.next + 1;
            self.in_flight = self.in_flight + 1;
            Some(i)
        } else {
            None
        }
    }

    /// Records that one unit in flight has completed, whatever its outcome.
    pub fn finish(&mut self)
        requires
            old(self).wf(),
            old(self).in_flight_spec() > 0,
        ensures
            final(self).wf(),
            final(self).limit_spec() == old(self).limit_spec(),
            final(self).total_spec() == old(self).total_spec(),
            final(self).started_spec() == old(self).started_spec(),
            final(self).in_flight_spec() + 1 == old(self).in_flight_spec(),
            final(self).completed_spec() == old(self).completed_spec() + 1,
    {
        self.in_flight = self.in_flight - 1;
        self.completed = self.completed + 1;
    }

    pub fn in_flight(&self) -> (r: usize)
        ensures
            r == self.in_flight_spec(),
    {
        self.in_flight
    }

    pub fn limit(&self) -> (r: usize)
        ensures
            r == self.limit_spec(),
    {
        self.limit
    }

    /// Progress as (completed, total).
    pub fn progress(&self) -> (r: (usize, usize))
        ensures
            r.0 == self.completed_spec(),
            r.1 == self.total_spec(),
    {
        (self.completed, self.total)
    }

    /// True once every unit has been handed out and completed.
    pub fn is_done(&self) -> (r: bool)
        requires
            self.wf(),
        ensures
            r == (self.completed_spec() == self.total_spec()),
            r ==> self.started_spec() == self.total_spec() && self.in_flight_spec() == 0,
    {
        self.completed == self.total
    }
}

/// In every well-formed pool state, no more units are in flight than the limit
/// allows, and no more are handed out than there are.
pub proof fn lemma_in_flight_within_limit(p: WorkerPool)
    requires
        p.wf(),
    ensures
        p.in_flight_spec() <= p.limit_spec(),
        p.completed_spec() + p.in_flight_spec() == p.started_spec(),
        p.started_spec() <= p.total_spec(),
{
}

} // verus!
