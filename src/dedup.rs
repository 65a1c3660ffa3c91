use vstd::prelude::*;
use crate::record::Member;

verus! {

/// The records still to fetch: valid ones whose artifact is not present, in
/// their input order. `present[i]` tells whether the artifact of `ms[i]`
/// exists at its storage key.
pub open spec fn fetch_set(ms: Seq<Member>, present: Seq<bool>) -> Seq<Member>
    decreases ms.len(),
{
    if ms.len() == 0 {
        seq![]
    } else {
        let i = ms.len() - 1;
        let rest = fetch_set(ms.drop_last(), present);
        if ms[i].valid() && !present[i] {
            rest.push(ms[i])
        } else {
            rest
        }
    }
}

/// The valid records whose artifact is already present, in their input order.
pub open spec fn present_set(ms: Seq<Member>, present: Seq<bool>) -> Seq<Member>
    decreases ms.len(),
{
    if ms.len() == 0 {
        seq![]
    } else {
        let i = ms.len() - 1;
        let rest = present_set(ms.drop_last(), present);
        if ms[i].valid() && present[i] {
            rest.push(ms[i])
        } else {
            rest
        }
    }
}

/// Partitions the records into those to fetch and those already present.
/// Records whose jurisdiction code does not decompose land in neither part.
/// `present[i]` is the result of the existence check on the storage key of
/// `members[i]`; it is not read for invalid records.
pub fn filter_not_downloaded_reports(members: &Vec<Member>, present: &Vec<bool>) -> (r: (
    Vec<Member>,
    Vec<Member>,
))
    requires
        present@.len() == members@.len(),
    ensures
        r.0@ == fetch_set(members@, present@),
        r.1@ == present_set(members@, present@),
{
    let mut to_download: Vec<Member> = Vec::new();
    let mut already_downloaded: Vec<Member> = Vec::new();
    let mut i: usize = 0;
    while i < members.len()
        invariant
            present@.len() == members@.len(),
            i <= members@.len(),
            to_download@ == fetch_set(members@.subrange(0, i as int), present@),
            already_downloaded@ == present_set(members@.subrange(0, i as int), present@),
        decreases members@.len() - i,
    {
        let member = &members[i];
        let ghost prefix = members@.subrange(0, i + 1);
        assert(prefix.drop_last() == members@.subrange(0, i as int));
        if member.storage_key().is_some() {
            if present[i] {
                already_downloaded.push(member.duplicate());
            } else {
                to_download.push(member.duplicate());
            }
        }
        i = i + 1;
    }
    assert(members@.subrange(0, members@.len() as int) == members@);
    (to_download, already_downloaded)
}

/// The existence flags for a run after this one: a record's artifact is
/// present afterwards when it was present before or was fetched now.
pub open spec fn after_run(present: Seq<bool>, fetched: Seq<bool>) -> Seq<bool> {
    Seq::new(present.len(), |i: int| present[i] || fetched[i])
}

/// Every record of the part to fetch is valid and not present; every record of
/// the part already present is valid and present. Invalid records are in
/// neither part.
pub proof fn lemma_parts_hold_valid_records(ms: Seq<Member>, present: Seq<bool>)
    requires
        present.len() == ms.len(),
    ensures
        forall|m: Member| #[trigger] fetch_set(ms, present).contains(m) ==> m.valid(),
        forall|m: Member| #[trigger] present_set(ms, present).contains(m) ==> m.valid(),
        forall|m: Member| !m.valid() ==> !#[trigger] fetch_set(ms, present).contains(m),
        forall|m: Member| !m.valid() ==> !#[trigger] present_set(ms, present).contains(m),
        fetch_set(ms, present).len() + present_set(ms, present).len() <= ms.len(),
    decreases ms.len(),
{
    if ms.len() > 0 {
        let init = ms.drop_last();
        lemma_parts_hold_valid_records(init, present.drop_last());
        lemma_sets_ignore_extra_flags(init, present);
        let i = ms.len() - 1;
        assert forall|m: Member| #[trigger] fetch_set(ms, present).contains(m) implies m.valid() by {
            if !fetch_set(init, present).contains(m) {
                assert(fetch_set(ms, present) == fetch_set(init, present).push(ms[i]));
                assert(fetch_set(ms, present).last() == m);
            }
        }
        assert forall|m: Member| #[trigger] present_set(ms, present).contains(m) implies m.valid() by {
            if !present_set(init, present).contains(m) {
                assert(present_set(ms, present) == present_set(init, present).push(ms[i]));
                assert(present_set(ms, present).last() == m);
            }
        }
    }
}

/// Every valid record lands in the part its existence flag picks: in the part
/// to fetch when absent, in the part already present otherwise.
pub proof fn lemma_valid_record_lands_in_its_part(ms: Seq<Member>, present: Seq<bool>)
    requires
        present.len() == ms.len(),
    ensures
        forall|i: int|
            0 <= i < ms.len() && (#[trigger] ms[i]).valid() && !present[i] ==> fetch_set(
                ms,
                present,
            ).contains(ms[i]),
        forall|i: int|
            0 <= i < ms.len() && (#[trigger] ms[i]).valid() && present[i] ==> present_set(
                ms,
                present,
            ).contains(ms[i]),
    decreases ms.len(),
{
    if ms.len() > 0 {
        let init = ms.drop_last();
        let last = ms.len() - 1;
        lemma_sets_ignore_extra_flags(init, present);
        lemma_valid_record_lands_in_its_part(init, present.subrange(0, init.len() as int));
        let f0 = fetch_set(init, present);
        let p0 = present_set(init, present);
        assert forall|i: int|
            0 <= i < ms.len() && (#[trigger] ms[i]).valid() && !present[i] implies fetch_set(
            ms,
            present,
        ).contains(ms[i]) by {
            if i < last {
                assert(init[i] == ms[i]);
                assert(present.subrange(0, init.len() as int)[i] == present[i]);
                let k = choose|k: int| 0 <= k < f0.len() && f0[k] == ms[i];
                assert(fetch_set(ms, present)[k] == ms[i]);
            } else {
                assert(fetch_set(ms, present) == f0.push(ms[i]));
                assert(fetch_set(ms, present)[f0.len() as int] == ms[i]);
            }
        }
        assert forall|i: int|
            0 <= i < ms.len() && (#[trigger] ms[i]).valid() && present[i] implies present_set(
            ms,
            present,
        ).contains(ms[i]) by {
            if i < last {
                assert(init[i] == ms[i]);
                assert(present.subrange(0, init.len() as int)[i] == present[i]);
                let k = choose|k: int| 0 <= k < p0.len() && p0[k] == ms[i];
                assert(present_set(ms, present)[k] == ms[i]);
            } else {
                assert(present_set(ms, present) == p0.push(ms[i]));
                assert(present_set(ms, present)[p0.len() as int] == ms[i]);
            }
        }
    }
}

/// The two parts read only the flags of the records they range over.
proof fn lemma_sets_ignore_extra_flags(ms: Seq<Member>, present: Seq<bool>)
    requires
        present.len() >= ms.len(),
    ensures
        fetch_set(ms, present) == fetch_set(ms, present.subrange(0, ms.len() as int)),
        present_set(ms, present) == present_set(ms, present.subrange(0, ms.len() as int)),
    decreases ms.len(),
{
    if ms.len() > 0 {
        lemma_sets_ignore_extra_flags(ms.drop_last(), present);
        lemma_sets_ignore_extra_flags(ms.drop_last(), present.subrange(0, ms.len() as int));
        assert(present.subrange(0, ms.len() as int).subrange(0, ms.len() - 1) == present.subrange(
            0,
            ms.len() - 1,
        ));
    }
}

/// With every valid record's artifact already in the store, nothing is
/// fetched, and every valid record counts as present.
pub proof fn lemma_populated_store_fetches_nothing(ms: Seq<Member>, present: Seq<bool>)
    requires
        present.len() == ms.len(),
        forall|i: int| 0 <= i < ms.len() && (#[trigger] ms[i]).valid() ==> present[i],
    ensures
        fetch_set(ms, present).len() == 0,
        present_set(ms, present) == ms.filter(|m: Member| m.valid()),
    decreases ms.len(),
{
    if ms.len() > 0 {
        let init = ms.drop_last();
        lemma_sets_ignore_extra_flags(init, present);
        assert(forall|i: int| 0 <= i < init.len() ==> init[i] == ms[i]);
        lemma_populated_store_fetches_nothing(init, present.drop_last());
        assert(present.drop_last() == present.subrange(0, init.len() as int));
        reveal(Seq::filter);
        assert(ms.drop_last() == init);
    }
}

/// Running the filter again after a run in which every record of the part to
/// fetch was fetched and stored finds nothing left to fetch.
pub proof fn lemma_second_run_fetches_nothing(
    ms: Seq<Member>,
    present: Seq<bool>,
    fetched: Seq<bool>,
)
    requires
        present.len() == ms.len(),
        fetched.len() == ms.len(),
        forall|i: int|
            0 <= i < ms.len() && (#[trigger] ms[i]).valid() && !present[i] ==> fetched[i],
    ensures
        fetch_set(ms, after_run(present, fetched)).len() == 0,
{
    let next = after_run(present, fetched);
    assert forall|i: int| 0 <= i < ms.len() && (#[trigger] ms[i]).valid() implies next[i] by {}
    lemma_populated_store_fetches_nothing(ms, next);
}

} // verus!
