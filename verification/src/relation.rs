//! The destination relation as mathematics: a map from `DATETIME` to the
//! row stored for it, and what writing rows does to that map.
//!
//! A key holds at most one row. Writing a row whose key is present replaces
//! every field of the row that was there; writing one whose key is new adds
//! it. A record that does not have the width of a row is never written.

use vstd::prelude::*;
use crate::schema::FIELD_COUNT;

verus! {

/// The fields of one record, in order.
pub type Row = Seq<Seq<char>>;

/// The relation: for each `DATETIME` that is present, its row.
pub type Relation = Map<Seq<char>, Seq<Seq<char>>>;

/// Whether a record has the width of a dataset row.
pub open spec fn is_row(fields: Row) -> bool {
    fields.len() == FIELD_COUNT
}

/// The primary key of a row: its first field, `DATETIME`.
pub open spec fn key_of(row: Row) -> Seq<char> {
    row[0]
}

/// The relation after one record has been offered to it: a row is stored
/// under its key, anything else leaves the relation as it was.
pub open spec fn upsert(relation: Relation, fields: Row) -> Relation {
    if is_row(fields) {
        relation.insert(key_of(fields), fields)
    } else {
        relation
    }
}

/// The relation after the records have been offered to it one by one, first
/// to last.
pub open spec fn upsert_all(relation: Relation, records: Seq<Row>) -> Relation
    decreases records.len(),
{
    if records.len() == 0 {
        relation
    } else {
        upsert(upsert_all(relation, records.drop_last()), records.last())
    }
}

/// Whether the relation is sound: it holds finitely many rows, and each is
/// a row of full width stored under its own `DATETIME`.
pub open spec fn well_formed(relation: Relation) -> bool {
    &&& relation.dom().finite()
    &&& forall|key: Seq<char>|
        relation.dom().contains(key) ==> is_row(#[trigger] relation[key]) && key_of(
            relation[key],
        ) == key
}

/// The last row among `records` that has the key `key`, if there is one.
pub open spec fn latest(records: Seq<Row>, key: Seq<char>) -> Option<Row>
    decreases records.len(),
{
    if records.len() == 0 {
        None
    } else if is_row(records.last()) && key_of(records.last()) == key {
        Some(records.last())
    } else {
        latest(records.drop_last(), key)
    }
}

/// Whether no two rows among `records` share a key.
pub open spec fn keys_distinct(records: Seq<Row>) -> bool {
    forall|i: int, j: int|
        0 <= i < j < records.len() ==> key_of(#[trigger] records[i]) != key_of(#[trigger] records[j])
}

/// Writing keeps a sound relation sound, whatever the records are.
pub proof fn lemma_upsert_all_well_formed(relation: Relation, records: Seq<Row>)
    requires
        well_formed(relation),
    ensures
        well_formed(upsert_all(relation, records)),
    decreases records.len(),
{
    if records.len() > 0 {
        lemma_upsert_all_well_formed(relation, records.drop_last());
    }
}

/// What `latest` finds is one of the records, a row with the key asked for,
/// and no row after it has that key.
pub proof fn lemma_latest_is_last(records: Seq<Row>, key: Seq<char>)
    ensures
        latest(records, key) is Some <==> exists|i: int|
            0 <= i < records.len() && is_row(#[trigger] records[i]) && key_of(records[i]) == key,
        latest(records, key) is Some ==> exists|i: int|
            0 <= i < records.len() && #[trigger] records[i] == latest(records, key).unwrap()
                && is_row(records[i]) && key_of(records[i]) == key && forall|j: int|
                i < j < records.len() && is_row(#[trigger] records[j]) ==> key_of(records[j])
                    != key,
    decreases records.len(),
{
    if records.len() > 0 {
        let front = records.drop_last();
        let end = records.len() - 1;
        lemma_latest_is_last(front, key);
        if is_row(records.last()) && key_of(records.last()) == key {
            assert(records[end] == latest(records, key).unwrap());
        } else if latest(front, key) is Some {
            let i = choose|i: int|
                0 <= i < front.len() && #[trigger] front[i] == latest(front, key).unwrap()
                    && is_row(front[i]) && key_of(front[i]) == key && forall|j: int|
                    i < j < front.len() && is_row(#[trigger] front[j]) ==> key_of(front[j]) != key;
            assert(records[i] == front[i]);
            assert forall|j: int| i < j < records.len() && is_row(#[trigger] records[j]) implies key_of(
                records[j],
            ) != key by {
                if j < end {
                    assert(records[j] == front[j]);
                }
            }
        } else {
            assert forall|i: int| 0 <= i < records.len() && is_row(#[trigger] records[i]) implies key_of(
                records[i],
            ) != key by {
                if i < end {
                    assert(records[i] == front[i]);
                }
            }
        }
    }
}

/// Which keys the relation holds after the records were written, and which
/// row each holds: the last row written for the key, or, where none was,
/// the row that was there before.
pub proof fn lemma_upsert_all_lookup(relation: Relation, records: Seq<Row>, key: Seq<char>)
    ensures
        upsert_all(relation, records).dom().contains(key) <==> relation.dom().contains(key)
            || latest(records, key) is Some,
        latest(records, key) is Some ==> upsert_all(relation, records)[key] == latest(
            records,
            key,
        ).unwrap(),
        latest(records, key) is None ==> upsert_all(relation, records)[key] == relation[key],
    decreases records.len(),
{
    if records.len() > 0 {
        lemma_upsert_all_lookup(relation, records.drop_last(), key);
    }
}

/// Writing rows with fresh, pairwise distinct keys adds exactly one row per
/// record, and each is found again under its `DATETIME`.
///
/// In particular, writing N such rows to an empty relation leaves exactly N
/// rows in it.
pub proof fn lemma_fresh_rows_all_stored(relation: Relation, records: Seq<Row>)
    requires
        relation.dom().finite(),
        forall|i: int| 0 <= i < records.len() ==> is_row(#[trigger] records[i]),
        keys_distinct(records),
        forall|i: int|
            0 <= i < records.len() ==> !relation.dom().contains(key_of(#[trigger] records[i])),
    ensures
        upsert_all(relation, records).dom().finite(),
        upsert_all(relation, records).len() == relation.len() + records.len(),
        forall|i: int|
            0 <= i < records.len() ==> upsert_all(relation, records).dom().contains(
                key_of(#[trigger] records[i]),
            ) && upsert_all(relation, records)[key_of(records[i])] == records[i],
    decreases records.len(),
{
    if records.len() > 0 {
        let front = records.drop_last();
        let end = records.len() - 1;
        let before = upsert_all(relation, front);
        assert forall|i: int| 0 <= i < front.len() implies is_row(#[trigger] front[i])
            && !relation.dom().contains(key_of(front[i])) by {
            assert(front[i] == records[i]);
        }
        assert(keys_distinct(front)) by {
            assert forall|i: int, j: int| 0 <= i < j < front.len() implies key_of(
                #[trigger] front[i],
            ) != key_of(#[trigger] front[j]) by {
                assert(front[i] == records[i] && front[j] == records[j]);
            }
        }
        lemma_fresh_rows_all_stored(relation, front);
        let key = key_of(records.last());
        assert(!before.dom().contains(key)) by {
            lemma_upsert_all_lookup(relation, front, key);
            lemma_latest_is_last(front, key);
            if latest(front, key) is Some {
                let i = choose|i: int|
                    0 <= i < front.len() && is_row(#[trigger] front[i]) && key_of(front[i]) == key;
                assert(front[i] == records[i]);
                assert(key_of(records[i]) != key_of(records[end]));
            }
        }
        assert(records[end] == records.last());
        assert forall|i: int| 0 <= i < records.len() implies upsert_all(
            relation,
            records,
        ).dom().contains(key_of(#[trigger] records[i])) && upsert_all(relation, records)[key_of(
            records[i],
        )] == records[i] by {
            if i < end {
                assert(front[i] == records[i]);
                assert(key_of(records[i]) != key_of(records[end]));
            }
        }
    }
}

/// Writing the same records a second time changes nothing.
pub proof fn lemma_upsert_all_idempotent(relation: Relation, records: Seq<Row>)
    ensures
        upsert_all(upsert_all(relation, records), records) == upsert_all(relation, records),
{
    let once = upsert_all(relation, records);
    let twice = upsert_all(once, records);
    assert forall|key: Seq<char>|
        (#[trigger] twice.dom().contains(key) <==> once.dom().contains(key)) && (
        once.dom().contains(key) ==> twice[key] == once[key]) by {
        lemma_upsert_all_lookup(relation, records, key);
        lemma_upsert_all_lookup(once, records, key);
    }
    assert(twice =~= once);
}

/// Of two batches written one after the other, the second wins: a key that
/// the second batch writes holds the last row that the second batch has for
/// it, whatever the first batch or the relation held for that key.
pub proof fn lemma_later_batch_wins(
    relation: Relation,
    first: Seq<Row>,
    second: Seq<Row>,
    at: int,
)
    requires
        0 <= at < second.len(),
        is_row(second[at]),
        forall|j: int|
            at < j < second.len() && is_row(#[trigger] second[j]) ==> key_of(second[j]) != key_of(
                second[at],
            ),
    ensures
        upsert_all(upsert_all(relation, first), second).dom().contains(key_of(second[at])),
        upsert_all(upsert_all(relation, first), second)[key_of(second[at])] == second[at],
{
    let key = key_of(second[at]);
    lemma_upsert_all_lookup(upsert_all(relation, first), second, key);
    lemma_latest_is_last(second, key);
    let i = choose|i: int|
        0 <= i < second.len() && #[trigger] second[i] == latest(second, key).unwrap() && is_row(
            second[i],
        ) && key_of(second[i]) == key && forall|j: int|
            i < j < second.len() && is_row(#[trigger] second[j]) ==> key_of(second[j]) != key;
    if i < at {
        assert(is_row(second[at]));
    } else if at < i {
        assert(is_row(second[i]));
    }
}

/// A record that is not a row is never stored.
pub proof fn lemma_upsert_skips_other_widths(relation: Relation, fields: Row)
    requires
        !is_row(fields),
    ensures
        upsert(relation, fields) == relation,
{
}

/// Records that are not rows leave no trace: the relation is the one that
/// the rows among the records give, written in the same order.
pub proof fn lemma_only_rows_count(relation: Relation, records: Seq<Row>)
    ensures
        upsert_all(relation, records) == upsert_all(
            relation,
            records.filter(|fields: Row| is_row(fields)),
        ),
    decreases records.len(),
{
    reveal(Seq::filter);
    let rows = |fields: Row| is_row(fields);
    if records.len() > 0 {
        lemma_only_rows_count(relation, records.drop_last());
        if is_row(records.last()) {
            let kept = records.drop_last().filter(rows);
            assert(kept.push(records.last()).drop_last() =~= kept);
        }
    }
}

} // verus!
