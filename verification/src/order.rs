//! The order of the list: newest application first.

use vstd::prelude::*;
use vstd::seq_lib::*;
use crate::clock::Timestamp;
use crate::model::ApplicationRecord;

verus! {

/// Whether a sequence of records runs from the newest to the oldest.
pub open spec fn is_newest_first(records: Seq<ApplicationRecord>) -> bool {
    forall|i: int, j: int|
        0 <= i < j < records.len() ==> records[i].date.nanos() >= records[j].date.nanos()
}

/// How many records of `sorted` stay in front of a record created at `date`:
/// all but the trailing ones that are strictly older.
pub open spec fn rank(sorted: Seq<ApplicationRecord>, date: Timestamp) -> int
    decreases sorted.len(),
{
    if sorted.len() == 0 {
        0
    } else if sorted.last().date.nanos() >= date.nanos() {
        sorted.len() as int
    } else {
        rank(sorted.drop_last(), date)
    }
}

/// The records in list order: newest first, and records of the same instant
/// in the order in which they were stored.
pub open spec fn newest_first(records: Seq<ApplicationRecord>) -> Seq<ApplicationRecord>
    decreases records.len(),
{
    if records.len() == 0 {
        Seq::empty()
    } else {
        let earlier = newest_first(records.drop_last());
        earlier.insert(rank(earlier, records.last().date), records.last())
    }
}

/// The rank is a position of the sequence, no record from it on is as new
/// as `date`, and in a sequence that runs newest first every record before
/// it is.
pub proof fn lemma_rank_splits(sorted: Seq<ApplicationRecord>, date: Timestamp)
    ensures
        0 <= rank(sorted, date) <= sorted.len(),
        forall|i: int|
            rank(sorted, date) <= i < sorted.len() ==> (#[trigger] sorted[i]).date.nanos()
                < date.nanos(),
        is_newest_first(sorted) ==> forall|i: int|
            0 <= i < rank(sorted, date) ==> (#[trigger] sorted[i]).date.nanos() >= date.nanos(),
    decreases sorted.len(),
{
    if sorted.len() > 0 && sorted.last().date.nanos() < date.nanos() {
        let front = sorted.drop_last();
        lemma_rank_splits(front, date);
        assert forall|i: int| rank(sorted, date) <= i < sorted.len() implies (#[trigger] sorted[i]).date.nanos()
            < date.nanos() by {
            if i < front.len() {
                assert(sorted[i] == front[i]);
            }
        }
        if is_newest_first(sorted) {
            assert forall|i: int, j: int| 0 <= i < j < front.len() implies front[i].date.nanos()
                >= front[j].date.nanos() by {
                assert(front[i] == sorted[i] && front[j] == sorted[j]);
            }
            assert forall|i: int| 0 <= i < rank(sorted, date) implies (#[trigger] sorted[i]).date.nanos()
                >= date.nanos() by {
                assert(sorted[i] == front[i]);
            }
        }
    } else if sorted.len() > 0 {
        if is_newest_first(sorted) {
            assert forall|i: int| 0 <= i < rank(sorted, date) implies (#[trigger] sorted[i]).date.nanos()
                >= date.nanos() by {
                assert(sorted[i].date.nanos() >= sorted[sorted.len() - 1].date.nanos());
            }
        }
    }
}

/// The list order holds the same records as the table, each as often, and
/// runs from the newest to the oldest.
pub proof fn lemma_newest_first_sorts(records: Seq<ApplicationRecord>)
    ensures
        newest_first(records).len() == records.len(),
        newest_first(records).to_multiset() == records.to_multiset(),
        is_newest_first(newest_first(records)),
    decreases records.len(),
{
    if records.len() == 0 {
        assert(records =~= Seq::empty());
    } else {
        let earlier = newest_first(records.drop_last());
        let last = records.last();
        let at = rank(earlier, last.date);
        lemma_newest_first_sorts(records.drop_last());
        lemma_rank_splits(earlier, last.date);
        to_multiset_insert(earlier, at, last);
        to_multiset_build(records.drop_last(), last);
        assert(records.drop_last().push(last) =~= records);
        let placed = earlier.insert(at, last);
        assert forall|i: int, j: int| 0 <= i < j < placed.len() implies placed[i].date.nanos()
            >= placed[j].date.nanos() by {
            if j < at {
                assert(placed[i] == earlier[i] && placed[j] == earlier[j]);
            } else if j == at {
                assert(placed[i] == earlier[i]);
            } else if i < at {
                assert(placed[i] == earlier[i] && placed[j] == earlier[j - 1]);
            } else if i == at {
                assert(placed[j] == earlier[j - 1]);
            } else {
                assert(placed[i] == earlier[i - 1] && placed[j] == earlier[j - 1]);
            }
        }
    }
}

/// A record is listed exactly if the table holds it.
pub proof fn lemma_newest_first_keeps(records: Seq<ApplicationRecord>, record: ApplicationRecord)
    ensures
        newest_first(records).contains(record) <==> records.contains(record),
{
    lemma_newest_first_sorts(records);
    to_multiset_contains(records, record);
    to_multiset_contains(newest_first(records), record);
}

/// Records created at the same instant are listed in the order in which
/// the table holds them.
pub proof fn lemma_newest_first_is_stable(records: Seq<ApplicationRecord>, i: int, j: int) -> (listed:
    (int, int))
    requires
        0 <= i < j < records.len(),
        records[i].date.nanos() == records[j].date.nanos(),
    ensures
        0 <= listed.0 < listed.1 < newest_first(records).len(),
        newest_first(records)[listed.0] == records[i],
        newest_first(records)[listed.1] == records[j],
    decreases records.len(),
{
    let front = records.drop_last();
    let last = records.last();
    let earlier = newest_first(front);
    let split = rank(earlier, last.date);
    lemma_newest_first_sorts(front);
    lemma_rank_splits(earlier, last.date);
    if j == records.len() - 1 {
        assert(front[i] == records[i]);
        assert(front.contains(records[i]));
        lemma_newest_first_keeps(front, records[i]);
        let found = choose|found: int| 0 <= found < earlier.len() && earlier[found] == records[i];
        if found >= split {
            assert(earlier[found].date.nanos() < last.date.nanos());
        }
        (found, split)
    } else {
        assert(front[i] == records[i] && front[j] == records[j]);
        let inner = lemma_newest_first_is_stable(front, i, j);
        let first = if inner.0 < split { inner.0 } else { inner.0 + 1 };
        let second = if inner.1 < split { inner.1 } else { inner.1 + 1 };
        (first, second)
    }
}

/// The rank is the only position that splits a sequence into records at
/// least as new as `date` and records that are older.
pub proof fn lemma_rank_is_the_split(sorted: Seq<ApplicationRecord>, date: Timestamp, at: int)
    requires
        0 <= at <= sorted.len(),
        forall|i: int| 0 <= i < at ==> (#[trigger] sorted[i]).date.nanos() >= date.nanos(),
        forall|i: int| at <= i < sorted.len() ==> (#[trigger] sorted[i]).date.nanos() < date.nanos(),
    ensures
        rank(sorted, date) == at,
    decreases sorted.len(),
{
    if sorted.len() > 0 {
        let last = sorted.len() - 1;
        if sorted.last().date.nanos() >= date.nanos() {
            if at <= last {
                assert(sorted[last].date.nanos() < date.nanos());
            }
        } else {
            if at == sorted.len() {
                assert(sorted[last].date.nanos() >= date.nanos());
            }
            let front = sorted.drop_last();
            assert forall|i: int| 0 <= i < at implies (#[trigger] front[i]).date.nanos()
                >= date.nanos() by {
                assert(front[i] == sorted[i]);
            }
            assert forall|i: int| at <= i < front.len() implies (#[trigger] front[i]).date.nanos()
                < date.nanos() by {
                assert(front[i] == sorted[i]);
            }
            lemma_rank_is_the_split(front, date, at);
        }
    }
}

/// Taking a record out of the table takes it out of the list and leaves
/// every other record in its place.
pub proof fn lemma_newest_first_without(records: Seq<ApplicationRecord>, at: int) -> (listed_at:
    int)
    requires
        0 <= at < records.len(),
    ensures
        0 <= listed_at < newest_first(records).len(),
        newest_first(records)[listed_at] == records[at],
        newest_first(records.remove(at)) == newest_first(records).remove(listed_at),
    decreases records.len(),
{
    let front = records.drop_last();
    let last = records.last();
    let earlier = newest_first(front);
    let split = rank(earlier, last.date);
    lemma_newest_first_sorts(front);
    lemma_rank_splits(earlier, last.date);
    if at == records.len() - 1 {
        assert(records.remove(at) =~= front);
        assert(earlier.insert(split, last).remove(split) =~= earlier);
        split
    } else {
        let inner = lemma_newest_first_without(front, at);
        let rest = earlier.remove(inner);
        assert(records.remove(at).drop_last() =~= front.remove(at));
        assert(records.remove(at).last() == last);
        let moved = if inner < split { split - 1 } else { split };
        assert forall|i: int| 0 <= i < moved implies (#[trigger] rest[i]).date.nanos()
            >= last.date.nanos() by {
            if i < inner {
                assert(rest[i] == earlier[i]);
            } else {
                assert(rest[i] == earlier[i + 1]);
            }
        }
        assert forall|i: int| moved <= i < rest.len() implies (#[trigger] rest[i]).date.nanos()
            < last.date.nanos() by {
            if i < inner {
                assert(rest[i] == earlier[i]);
            } else {
                assert(rest[i] == earlier[i + 1]);
            }
        }
        lemma_rank_is_the_split(rest, last.date, moved);
        let listed_at = if inner < split { inner } else { inner + 1 };
        assert(rest.insert(moved, last) =~= earlier.insert(split, last).remove(listed_at));
        listed_at
    }
}

/// A change to the records that leaves every creation instant as it is
/// does not reorder the list: the changed records are listed in the places
/// of the old ones.
pub proof fn lemma_newest_first_keeps_places(
    records: Seq<ApplicationRecord>,
    change: spec_fn(ApplicationRecord) -> ApplicationRecord,
)
    requires
        forall|record: ApplicationRecord| (#[trigger] change(record)).date == record.date,
    ensures
        newest_first(records.map_values(change)) == newest_first(records).map_values(change),
    decreases records.len(),
{
    if records.len() == 0 {
        assert(records.map_values(change) =~= Seq::empty());
        assert(newest_first(records).map_values(change) =~= Seq::empty());
    } else {
        let front = records.drop_last();
        let last = records.last();
        let earlier = newest_first(front);
        lemma_newest_first_keeps_places(front, change);
        assert(records.map_values(change).drop_last() =~= front.map_values(change));
        lemma_rank_keeps_places(earlier, last.date, change);
        let split = rank(earlier, last.date);
        lemma_rank_splits(earlier, last.date);
        assert(earlier.map_values(change).insert(split, change(last)) =~= earlier.insert(
            split,
            last,
        ).map_values(change));
    }
}

/// A change that leaves every creation instant as it is leaves every rank
/// as it is.
pub proof fn lemma_rank_keeps_places(
    sorted: Seq<ApplicationRecord>,
    date: Timestamp,
    change: spec_fn(ApplicationRecord) -> ApplicationRecord,
)
    requires
        forall|record: ApplicationRecord| (#[trigger] change(record)).date == record.date,
    ensures
        rank(sorted.map_values(change), date) == rank(sorted, date),
    decreases sorted.len(),
{
    if sorted.len() > 0 {
        assert(sorted.map_values(change).drop_last() =~= sorted.drop_last().map_values(change));
        assert(sorted.map_values(change).last() == change(sorted.last()));
        lemma_rank_keeps_places(sorted.drop_last(), date, change);
    }
}

/// Whether no two records of a sequence share an identifier.
pub open spec fn ids_differ(records: Seq<ApplicationRecord>) -> bool {
    forall|i: int, j: int| 0 <= i < j < records.len() ==> records[i].id != records[j].id
}

/// Records that differ in their identifiers in the table differ in them in
/// the list.
pub proof fn lemma_newest_first_keeps_ids_apart(records: Seq<ApplicationRecord>)
    requires
        ids_differ(records),
    ensures
        ids_differ(newest_first(records)),
    decreases records.len(),
{
    if records.len() > 0 {
        let front = records.drop_last();
        let last = records.last();
        let earlier = newest_first(front);
        let split = rank(earlier, last.date);
        assert forall|i: int, j: int| 0 <= i < j < front.len() implies front[i].id
            != front[j].id by {
            assert(front[i] == records[i] && front[j] == records[j]);
        }
        lemma_newest_first_keeps_ids_apart(front);
        lemma_newest_first_sorts(front);
        lemma_rank_splits(earlier, last.date);
        let placed = earlier.insert(split, last);
        assert forall|i: int| 0 <= i < earlier.len() implies (#[trigger] earlier[i]).id
            != last.id by {
            assert(earlier.contains(earlier[i]));
            lemma_newest_first_keeps(front, earlier[i]);
            let from = choose|from: int| 0 <= from < front.len() && front[from] == earlier[i];
            assert(records[from] == front[from]);
            assert(records[from].id != records[records.len() - 1].id);
        }
        assert forall|i: int, j: int| 0 <= i < j < placed.len() implies placed[i].id
            != placed[j].id by {
            let from_i = if i < split { i } else { i - 1 };
            let from_j = if j < split { j } else { j - 1 };
            if i != split {
                assert(placed[i] == earlier[from_i]);
            }
            if j != split {
                assert(placed[j] == earlier[from_j]);
            }
        }
    }
}

/// The records in list order.
pub fn sort_newest_first(records: &Vec<ApplicationRecord>) -> (listed: Vec<ApplicationRecord>)
    ensures
        listed@ == newest_first(records@),
{
    let mut listed: Vec<ApplicationRecord> = Vec::new();
    let mut done: usize = 0;
    while done < records.len()
        invariant
            done <= records.len(),
            listed@ == newest_first(records@.take(done as int)),
        decreases records.len() - done,
    {
        let record = records[done];
        let mut at: usize = listed.len();
        assert(listed@.take(at as int) =~= listed@);
        while at > 0 && record.date.is_after(&listed[at - 1].date)
            invariant
                at <= listed.len(),
                rank(listed@, record.date) == rank(listed@.take(at as int), record.date),
            decreases at,
        {
            assert(listed@.take(at as int).drop_last() =~= listed@.take(at as int - 1));
            at -= 1;
        }
        proof {
            assert(rank(listed@.take(at as int), record.date) == at);
            assert(records@.take(done as int + 1).drop_last() =~= records@.take(done as int));
        }
        listed.insert(at, record);
        done += 1;
    }
    assert(records@.take(records.len() as int) =~= records@);
    listed
}

} // verus!
