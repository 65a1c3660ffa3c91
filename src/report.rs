use vstd::prelude::*;
use crate::retry::Outcome;

verus! {

/// The document identifiers of one run, one sequence per terminal outcome,
/// each in the order the outcomes arrived.
pub struct DownloadReport {
    pub successful: Vec<u64>,
    pub failed: Vec<u64>,
    pub blocked: Vec<u64>,
    pub not_found: Vec<u64>,
}

/// The identifiers among `entries` whose outcome is `o`, in order.
pub open spec fn ids_with(entries: Seq<(u64, Outcome)>, o: Outcome) -> Seq<u64>
    decreases entries.len(),
{
    if entries.len() == 0 {
        seq![]
    } else {
        let rest = ids_with(entries.drop_last(), o);
        if entries.last().1 == o {
            rest.push(entries.last().0)
        } else {
            rest
        }
    }
}

/// The number of entries of a report over the four outcomes.
pub open spec fn entry_count(
    s: Seq<u64>,
    f: Seq<u64>,
    b: Seq<u64>,
    n: Seq<u64>,
) -> nat {
    s.len() + f.len() + b.len() + n.len()
}

impl DownloadReport {
    /// The sequence that holds the identifiers with outcome `o`.
    pub open spec fn list(&self, o: Outcome) -> Seq<u64> {
        match o {
            Outcome::Success => self.successful@,
            Outcome::Failed => self.failed@,
            Outcome::Blocked => self.blocked@,
            Outcome::NotFound => self.not_found@,
        }
    }

    /// The report is exactly what the entries, in order, make of it.
    pub open spec fn holds(&self, entries: Seq<(u64, Outcome)>) -> bool {
        forall|o: Outcome| #[trigger] self.list(o) == ids_with(entries, o)
    }

    pub fn new() -> (r: DownloadReport)
        ensures
            r.holds(seq![]),
    {
        DownloadReport {
            successful: Vec::new(),
            failed: Vec::new(),
            blocked: Vec::new(),
            not_found: Vec::new(),
        }
    }

    /// Appends `id` to the sequence of `outcome`, and to no other.
    pub fn record(&mut self, id: u64, outcome: Outcome)
        ensures
            forall|o: Outcome| #[trigger] final(self).list(o) == if o == outcome {
                old(self).list(o).push(id)
            } else {
                old(self).list(o)
            },
    {
        match outcome {
            Outcome::Success => self.successful.push(id),
            Outcome::Failed => self.failed.push(id),
            Outcome::Blocked => self.blocked.push(id),
            Outcome::NotFound => self.not_found.push(id),
        }
    }

    /// The report of a whole run, from its (identifier, outcome) entries.
    pub fn from_entries(entries: &Vec<(u64, Outcome)>) -> (r: DownloadReport)
        ensures
            r.holds(entries@),
    {
        let mut report = DownloadReport::new();
        let mut i: usize = 0;
        while i < entries.len()
            invariant
                i <= entries@.len(),
                report.holds(entries@.subrange(0, i as int)),
            decreases entries@.len() - i,
        {
            let (id, outcome) = entries[i];
            let ghost before = entries@.subrange(0, i as int);
            let ghost after = entries@.subrange(0, i + 1);
            assert(after.drop_last() == before);
            report.record(id, outcome);
            assert forall|o: Outcome| #[trigger] report.list(o) == ids_with(after, o) by {
                assert(report.list(o) == ids_with(after, o));
            }
            i = i + 1;
        }
        assert(entries@.subrange(0, entries@.len() as int) == entries@);
        report
    }

    /// How many identifiers each sequence holds, as
    /// (successful, failed, blocked, not found).
    pub fn counts(&self) -> (r: (usize, usize, usize, usize))
        ensures
            r.0 == self.successful@.len(),
            r.1 == self.failed@.len(),
            r.2 == self.blocked@.len(),
            r.3 == self.not_found@.len(),
    {
        (self.successful.len(), self.failed.len(), self.blocked.len(), self.not_found.len())
    }
}

/// Every entry lands in exactly one of the four sequences: the one of its own
/// outcome holds its identifier, and the four together hold exactly as many
/// identifiers as there are entries.
pub proof fn lemma_each_entry_recorded_once(entries: Seq<(u64, Outcome)>)
    ensures
        entry_count(
            ids_with(entries, Outcome::Success),
            ids_with(entries, Outcome::Failed),
            ids_with(entries, Outcome::Blocked),
            ids_with(entries, Outcome::NotFound),
        ) == entries.len(),
        forall|i: int|
            0 <= i < entries.len() ==> ids_with(entries, (#[trigger] entries[i]).1).contains(
                entries[i].0,
            ),
    decreases entries.len(),
{
    if entries.len() > 0 {
        let init = entries.drop_last();
        lemma_each_entry_recorded_once(init);
        assert forall|i: int| 0 <= i < entries.len() implies ids_with(
            entries,
            (#[trigger] entries[i]).1,
        ).contains(entries[i].0) by {
            let o = entries[i].1;
            if i < init.len() {
                assert(init[i] == entries[i]);
                let k = choose|k: int| 0 <= k < ids_with(init, o).len() && ids_with(init, o)[k]
                    == entries[i].0;
                if entries.last().1 == o {
                    assert(ids_with(entries, o)[k] == entries[i].0);
                }
            } else {
                assert(ids_with(entries, o).last() == entries[i].0);
            }
        }
    }
}

/// An identifier stands in the sequence of outcome `o` only when some entry
/// carries that identifier with that outcome.
pub proof fn lemma_listed_ids_come_from_entries(entries: Seq<(u64, Outcome)>, o: Outcome)
    ensures
        forall|x: u64|
            #[trigger] ids_with(entries, o).contains(x) ==> exists|j: int|
                0 <= j < entries.len() && entries[j] == (x, o),
    decreases entries.len(),
{
    if entries.len() > 0 {
        let init = entries.drop_last();
        lemma_listed_ids_come_from_entries(init, o);
        assert forall|x: u64| #[trigger] ids_with(entries, o).contains(x) implies exists|j: int|
            0 <= j < entries.len() && entries[j] == (x, o) by {
            if ids_with(init, o).contains(x) {
                let j = choose|j: int| 0 <= j < init.len() && init[j] == (x, o);
                assert(entries[j] == init[j]);
            } else {
                let last = entries.len() - 1;
                assert(ids_with(entries, o) == ids_with(init, o).push(entries.last().0));
                let k = choose|k: int| 0 <= k < ids_with(entries, o).len() && ids_with(entries, o)[k] == x;
                assert(k == ids_with(init, o).len());
                assert(entries[last] == (x, o));
            }
        }
    }
}

} // verus!
