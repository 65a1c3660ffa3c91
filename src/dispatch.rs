use vstd::prelude::*;
use crate::pool::{WorkerPool, lemma_in_flight_within_limit};
use crate::report::{DownloadReport, ids_with};
use crate::retry::Outcome;

verus! {

/// Runs a list of records through the worker pool and records each unit's
/// outcome against the record it was handed out for, exactly once.
pub struct Dispatch {
    pool: WorkerPool,
    ids: Vec<u64>,
    running: Vec<bool>,
    report: DownloadReport,
    entries: Ghost<Seq<(u64, Outcome)>>,
    order: Ghost<Seq<nat>>,
    active: Ghost<Set<nat>>,
}

impl Dispatch {
    pub closed spec fn ids_spec(&self) -> Seq<u64> {
        self.ids@
    }

    pub closed spec fn pool_spec(&self) -> WorkerPool {
        self.pool
    }

    pub closed spec fn is_running(&self, i: nat) -> bool {
        i < self.running@.len() && self.running@[i as int]
    }

    /// The (identifier, outcome) entries recorded so far, in completion order.
    pub closed spec fn entries_spec(&self) -> Seq<(u64, Outcome)> {
        self.entries@
    }

    /// The units completed so far, in completion order.
    pub closed spec fn order_spec(&self) -> Seq<nat> {
        self.order@
    }

    pub closed spec fn report_spec(&self) -> DownloadReport {
        self.report
    }

    pub closed spec fn wf(&self) -> bool {
        &&& self.pool.wf()
        &&& self.pool.total_spec() == self.ids@.len()
        &&& self.running@.len() == self.ids@.len()
        &&& self.report.holds(self.entries@)
        &&& self.entries@.len() == self.order@.len()
        &&& self.order@.len() == self.pool.completed_spec()
        &&& self.order@.no_duplicates()
        &&& forall|k: int|
            0 <= k < self.order@.len() ==> {
                let i = #[trigger] self.order@[k];
                &&& i < self.pool.started_spec()
                &&& !self.running@[i as int]
                &&& self.entries@[k].0 == self.ids@[i as int]
            }
        &&& forall|i: int|
            0 <= i < self.pool.started_spec() ==> #[trigger] self.running@[i]
                || self.order@.contains(i as nat)
        &&& forall|i: int|
            self.pool.started_spec() <= i < self.running@.len() ==> !#[trigger] self.running@[i]
        &&& self.active@.finite()
        &&& self.active@.len() == self.pool.in_flight_spec()
        &&& forall|i: nat| #[trigger] self.active@.contains(i) <==> self.is_running(i)
    }

    /// A dispatch over the records with identifiers `ids`, with at most
    /// `limit` units in flight; `None` when the limit is zero.
    pub fn new(ids: Vec<u64>, limit: usize) -> (r: Option<Dispatch>)
        ensures
            r is None <==> limit == 0,
            r matches Some(d) ==> d.wf() && d.ids_spec() == ids@ && d.entries_spec().len() == 0
                && d.pool_spec().limit_spec() == limit && d.pool_spec().started_spec() == 0,
    {
        let pool = match WorkerPool::new(limit, ids.len()) {
            Some(p) => p,
            None => return None,
        };
        let mut running: Vec<bool> = Vec::new();
        let mut i: usize = 0;
        while i < ids.len()
            invariant
                i <= ids@.len(),
                running@.len() == i,
                forall|j: int| 0 <= j < i ==> !#[trigger] running@[j],
            decreases ids@.len() - i,
        {
            running.push(false);
            i = i + 1;
        }
        let d = Dispatch {
            pool,
            ids,
            running,
            report: DownloadReport::new(),
            entries: Ghost(Seq::empty()),
            order: Ghost(Seq::empty()),
            active: Ghost(Set::empty()),
        };
        assert(forall|i: nat| !d.is_running(i));
        Some(d)
    }

    /// Hands out the next unit when one is left and a slot is free.
    pub fn start(&mut self) -> (r: Option<usize>)
        requires
            old(self).wf(),
        ensures
            final(self).wf(),
            final(self).ids_spec() == old(self).ids_spec(),
            final(self).entries_spec() == old(self).entries_spec(),
            final(self).pool_spec().limit_spec() == old(self).pool_spec().limit_spec(),
            r is Some <==> (old(self).pool_spec().in_flight_spec()
                < old(self).pool_spec().limit_spec() && old(self).pool_spec().started_spec()
                < old(self).ids_spec().len()),
            r matches Some(i) ==> i == old(self).pool_spec().started_spec()
                && final(self).is_running(i as nat),
    {
        let r = self.pool.try_start();
        match r {
            Some(i) => {
                self.running.set(i, true);
                self.active = Ghost(self.active@.insert(i as nat));
                assert forall|k: int| 0 <= k < self.order@.len() implies !self.running@[(
                #[trigger] self.order@[k]) as int] by {
                    assert(self.order@[k] < i);
                }
            },
            None => {},
        }
        r
    }

    /// Records that unit `i` ended with `outcome`. Returns false, and changes
    /// nothing, when `i` is not a unit in flight.
    pub fn complete(&mut self, i: usize, outcome: Outcome) -> (r: bool)
        requires
            old(self).wf(),
        ensures
            final(self).wf(),
            final(self).ids_spec() == old(self).ids_spec(),
            r == old(self).is_running(i as nat),
            r ==> final(self).entries_spec() == old(self).entries_spec().push(
                (old(self).ids_spec()[i as int], outcome),
            ) && !final(self).is_running(i as nat),
            !r ==> *final(self) == *old(self),
    {
        if i >= self.running.len() || !self.running[i] {
            return false;
        }
        assert(self.active@.contains(i as nat));
        let id = self.ids[i];
        let ghost old_order = self.order@;
        let ghost old_running = self.running@;
        self.running.set(i, false);
        proof { lemma_in_flight_within_limit(self.pool); }
        self.pool.finish();
        self.report.record(id, outcome);
        let ghost before = self.entries@;
        self.entries = Ghost(self.entries@.push((id, outcome)));
        self.order = Ghost(self.order@.push(i as nat));
        self.active = Ghost(self.active@.remove(i as nat));
        assert forall|o: Outcome| #[trigger] self.report.list(o) == ids_with(self.entries@, o) by {
            assert(self.entries@.drop_last() == before);
        }
        assert forall|i2: int| 0 <= i2 < self.pool.started_spec() implies #[trigger] self.running@[i2]
            || self.order@.contains(i2 as nat) by {
            if i2 == i {
                assert(self.order@.last() == i as nat);
            } else if !self.running@[i2] {
                assert(old_running[i2] == self.running@[i2]);
                assert(i2 < old(self).pool.started_spec());
                assert(old_running[i2] || old_order.contains(i2 as nat));
                assert(old_order.contains(i2 as nat));
                let k = choose|k: int| 0 <= k < old_order.len() && old_order[k] == i2 as nat;
                assert(self.order@[k] == i2 as nat);
            }
        }
        true
    }

    /// True once every unit has been handed out and completed.
    pub fn is_done(&self) -> (r: bool)
        requires
            self.wf(),
        ensures
            r == (self.pool_spec().completed_spec() == self.ids_spec().len()),
    {
        self.pool.is_done()
    }

    /// Progress as (completed, total).
    pub fn progress(&self) -> (r: (usize, usize))
        ensures
            r.0 == self.pool_spec().completed_spec(),
            r.1 == self.pool_spec().total_spec(),
    {
        self.pool.progress()
    }

    /// The report of what was recorded so far.
    pub fn into_report(self) -> (r: DownloadReport)
        requires
            self.wf(),
        ensures
            r.holds(self.entries_spec()),
    {
        self.report
    }
}

/// Once a dispatch is done, each unit was completed exactly once: the
/// completion order is a permutation of the units, and the report holds one
/// entry per unit, carrying that unit's identifier.
pub proof fn lemma_done_records_each_unit_once(d: Dispatch)
    requires
        d.wf(),
        d.pool_spec().completed_spec() == d.ids_spec().len(),
    ensures
        d.entries_spec().len() == d.ids_spec().len(),
        d.order_spec().no_duplicates(),
        forall|i: nat| i < d.ids_spec().len() ==> #[trigger] d.order_spec().contains(i),
        forall|k: int|
            0 <= k < d.order_spec().len() ==> d.order_spec()[k] < d.ids_spec().len()
                && (#[trigger] d.entries_spec()[k]).0 == d.ids_spec()[d.order_spec()[k] as int],
        d.report_spec().holds(d.entries_spec()),
{
    lemma_in_flight_within_limit(d.pool);
    assert forall|i: nat| i < d.ids_spec().len() implies #[trigger] d.order_spec().contains(i) by {
        if d.active@.contains(i) {
            assert(d.active@.remove(i).len() + 1 == d.active@.len());
        }
        assert(!d.is_running(i));
        assert(d.running@[i as int] || d.order@.contains(i));
    }
    assert forall|k: int| 0 <= k < d.order_spec().len() implies d.order_spec()[k] < d.ids_spec().len()
        && (#[trigger] d.entries_spec()[k]).0 == d.ids_spec()[d.order_spec()[k] as int] by {
        let i = d.order@[k];
    }
}

} // verus!
