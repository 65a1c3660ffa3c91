use vstd::prelude::*;
use crate::record::Member;
use crate::report::{
    DownloadReport,
    entry_count,
    ids_with,
    lemma_each_entry_recorded_once,
    lemma_listed_ids_come_from_entries,
};
use crate::retry::{Attempt, Outcome, RetryPolicy, run_retry, settle};

verus! {

/// The report entries of a run over `ms`, where the fetches for `ms[i]`
/// return `scripts[i]` in turn.
pub open spec fn run_entries(max: nat, ms: Seq<Member>, scripts: Seq<Vec<Attempt>>) -> Seq<
    (u64, Outcome),
> {
    Seq::new(ms.len(), |i: int| (ms[i].document_id, settle(max, 0, scripts[i]@).0))
}

/// Runs every record of `to_fetch` through its retry loop, one after another,
/// where the fetches for `to_fetch[i]` return `scripts[i]` in turn, and
/// collects the outcomes into a report.
pub fn settle_all(policy: RetryPolicy, to_fetch: &Vec<Member>, scripts: &Vec<Vec<Attempt>>) -> (r:
    DownloadReport)
    requires
        policy.wf(),
        scripts@.len() == to_fetch@.len(),
        forall|i: int| 0 <= i < scripts@.len() ==> (#[trigger] scripts@[i])@.len()
            >= policy.max_attempts,
    ensures
        r.holds(run_entries(policy.max_attempts as nat, to_fetch@, scripts@)),
{
    let ghost max = policy.max_attempts as nat;
    let mut report = DownloadReport::new();
    let mut i: usize = 0;
    while i < to_fetch.len()
        invariant
            policy.wf(),
            max == policy.max_attempts as nat,
            scripts@.len() == to_fetch@.len(),
            forall|i: int| 0 <= i < scripts@.len() ==> (#[trigger] scripts@[i])@.len()
                >= policy.max_attempts,
            i <= to_fetch@.len(),
            report.holds(run_entries(max, to_fetch@.subrange(0, i as int), scripts@)),
        decreases to_fetch@.len() - i,
    {
        let run = run_retry(policy, &scripts[i]);
        let ghost before = run_entries(max, to_fetch@.subrange(0, i as int), scripts@);
        let ghost after = run_entries(max, to_fetch@.subrange(0, i + 1), scripts@);
        assert(after.drop_last() =~= before);
        report.record(to_fetch[i].document_id, run.outcome);
        assert forall|o: Outcome| #[trigger] report.list(o) == ids_with(after, o) by {}
        i = i + 1;
    }
    assert(to_fetch@.subrange(0, to_fetch@.len() as int) == to_fetch@);
    report
}

/// Each record that goes through a run ends with exactly one outcome: its
/// identifier stands in the sequence of that outcome, and the report holds as
/// many identifiers as there were records.
pub proof fn lemma_each_record_has_one_outcome(
    max: nat,
    ms: Seq<Member>,
    scripts: Seq<Vec<Attempt>>,
    report: DownloadReport,
)
    requires
        scripts.len() == ms.len(),
        report.holds(run_entries(max, ms, scripts)),
    ensures
        entry_count(report.successful@, report.failed@, report.blocked@, report.not_found@)
            == ms.len(),
        forall|i: int|
            0 <= i < ms.len() ==> report.list(settle(max, 0, scripts[i]@).0).contains(
                (#[trigger] ms[i]).document_id,
            ),
{
    let entries = run_entries(max, ms, scripts);
    lemma_each_entry_recorded_once(entries);
    assert(report.list(Outcome::Success) == report.successful@);
    assert(report.list(Outcome::Failed) == report.failed@);
    assert(report.list(Outcome::Blocked) == report.blocked@);
    assert(report.list(Outcome::NotFound) == report.not_found@);
    assert forall|i: int| 0 <= i < ms.len() implies report.list(
        settle(max, 0, scripts[i]@).0,
    ).contains((#[trigger] ms[i]).document_id) by {
        assert(entries[i] == (ms[i].document_id, settle(max, 0, scripts[i]@).0));
    }
}

/// With distinct document identifiers, a record's identifier stands in no
/// sequence of the report but the one of its own outcome.
pub proof fn lemma_record_in_no_other_list(
    max: nat,
    ms: Seq<Member>,
    scripts: Seq<Vec<Attempt>>,
    report: DownloadReport,
)
    requires
        scripts.len() == ms.len(),
        report.holds(run_entries(max, ms, scripts)),
        forall|i: int, j: int|
            0 <= i < ms.len() && 0 <= j < ms.len() && i != j ==> (#[trigger] ms[i]).document_id
                != (#[trigger] ms[j]).document_id,
    ensures
        forall|i: int, o: Outcome|
            0 <= i < ms.len() && o != settle(max, 0, scripts[i]@).0 ==> !(#[trigger] report.list(
                o,
            )).contains((#[trigger] ms[i]).document_id),
{
    let entries = run_entries(max, ms, scripts);
    assert forall|i: int, o: Outcome|
        0 <= i < ms.len() && o != settle(max, 0, scripts[i]@).0 implies !(#[trigger] report.list(
        o,
    )).contains((#[trigger] ms[i]).document_id) by {
        lemma_listed_ids_come_from_entries(entries, o);
        assert(report.list(o) == ids_with(entries, o));
        if ids_with(entries, o).contains(ms[i].document_id) {
            let j = choose|j: int| 0 <= j < entries.len() && entries[j] == (ms[i].document_id, o);
            assert(entries[j] == (ms[j].document_id, settle(max, 0, scripts[j]@).0));
        }
    }
}

} // verus!
