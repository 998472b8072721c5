//! Laws of the ledger, stated over the model and proved.

use vstd::prelude::*;
use crate::model::{
    bulk_insert_count, bulk_insert_map, ledger_delete, ledger_exists, ledger_get, ledger_upsert,
    lemma_total_insert, reported_usage, workspace_total,
};
use crate::record::{BulkInsertMeta, LedgerError, LedgerMap};

verus! {

/// One write to the ledger.
pub enum LedgerOp {
    Upsert { key: (u128, Seq<char>), info: (Seq<char>, i64) },
    BulkInsert { workspace_id: u128, entries: Seq<BulkInsertMeta> },
    Delete { key: (u128, Seq<char>) },
}

/// The ledger after one write.
pub open spec fn apply_op(m: LedgerMap, op: LedgerOp) -> LedgerMap {
    match op {
        LedgerOp::Upsert { key, info } => ledger_upsert(m, key, info),
        LedgerOp::BulkInsert { workspace_id, entries } => bulk_insert_map(m, workspace_id, entries),
        LedgerOp::Delete { key } => ledger_delete(m, key),
    }
}

/// The ledger after a history of writes to an empty ledger.
pub open spec fn apply_ops(ops: Seq<LedgerOp>) -> LedgerMap
    decreases ops.len(),
{
    if ops.len() == 0 {
        Map::empty()
    } else {
        apply_op(apply_ops(ops.drop_last()), ops.last())
    }
}

/// Whether a write inserts under the key: an upsert of the key, or a bulk
/// insert with an entry whose derived key it is.
pub open spec fn op_inserts(op: LedgerOp, key: (u128, Seq<char>)) -> bool {
    match op {
        LedgerOp::Upsert { key: k, info } => k == key,
        LedgerOp::BulkInsert { workspace_id, entries } => exists|i: int|
            0 <= i < entries.len() && (#[trigger] entries[i]).key(workspace_id) == key,
        LedgerOp::Delete { key: k } => false,
    }
}

/// A bulk insert adds no key but the derived keys of its entries.
pub proof fn law_bulk_insert_adds_only_entries(
    m: LedgerMap,
    workspace_id: u128,
    entries: Seq<BulkInsertMeta>,
    key: (u128, Seq<char>),
)
    requires
        !m.contains_key(key),
        forall|i: int| 0 <= i < entries.len() ==> (#[trigger] entries[i]).key(workspace_id) != key,
    ensures
        !bulk_insert_map(m, workspace_id, entries).contains_key(key),
    decreases entries.len(),
{
    if entries.len() > 0 {
        let front = entries.drop_last();
        assert forall|i: int| 0 <= i < front.len() implies (#[trigger] front[i]).key(workspace_id)
            != key by {
            assert(front[i] == entries[i]);
        }
        law_bulk_insert_adds_only_entries(m, workspace_id, front, key);
        assert(entries[entries.len() - 1].key(workspace_id) != key);
    }
}

/// A key that no write ever inserted does not exist, and its lookup fails
/// with `NotFound`.
pub proof fn law_never_inserted_is_absent(ops: Seq<LedgerOp>, key: (u128, Seq<char>))
    requires
        forall|i: int| 0 <= i < ops.len() ==> !op_inserts(#[trigger] ops[i], key),
    ensures
        !ledger_exists(apply_ops(ops), key),
        ledger_get(apply_ops(ops), key) == Err::<(Seq<char>, i64), LedgerError>(
            LedgerError::NotFound,
        ),
    decreases ops.len(),
{
    if ops.len() > 0 {
        let front = ops.drop_last();
        assert forall|i: int| 0 <= i < front.len() implies !op_inserts(#[trigger] front[i], key) by {
            assert(front[i] == ops[i]);
        }
        law_never_inserted_is_absent(front, key);
        let last = ops[ops.len() - 1];
        assert(!op_inserts(last, key));
        match last {
            LedgerOp::BulkInsert { workspace_id, entries } => {
                law_bulk_insert_adds_only_entries(apply_ops(front), workspace_id, entries, key);
            },
            _ => {},
        }
    }
}

/// The second of two upserts of a key replaces what the first wrote: the
/// lookup gives the second's values, and the ledger is as if the first had
/// not been made.
pub proof fn law_upsert_replaces(
    m: LedgerMap,
    key: (u128, Seq<char>),
    first: (Seq<char>, i64),
    second: (Seq<char>, i64),
)
    ensures
        ledger_get(ledger_upsert(ledger_upsert(m, key, first), key, second), key) == Ok::<
            (Seq<char>, i64),
            LedgerError,
        >(second),
        ledger_upsert(ledger_upsert(m, key, first), key, second) == ledger_upsert(m, key, second),
{
    assert(m.insert(key, first).insert(key, second) =~= m.insert(key, second));
}

/// An upsert leaves every other key as it was.
pub proof fn law_upsert_keeps_others(
    m: LedgerMap,
    key: (u128, Seq<char>),
    info: (Seq<char>, i64),
    other: (u128, Seq<char>),
)
    requires
        other != key,
    ensures
        ledger_get(ledger_upsert(m, key, info), other) == ledger_get(m, other),
{
}

/// A bulk insert leaves every row that the ledger held as it was.
pub proof fn law_bulk_insert_keeps_existing(
    m: LedgerMap,
    workspace_id: u128,
    entries: Seq<BulkInsertMeta>,
    key: (u128, Seq<char>),
)
    requires
        m.contains_key(key),
    ensures
        bulk_insert_map(m, workspace_id, entries).contains_key(key),
        bulk_insert_map(m, workspace_id, entries)[key] == m[key],
    decreases entries.len(),
{
    if entries.len() > 0 {
        law_bulk_insert_keeps_existing(m, workspace_id, entries.drop_last(), key);
    }
}

/// A bulk insert counts no more rows than it has entries.
pub proof fn law_bulk_insert_count_bound(
    m: LedgerMap,
    workspace_id: u128,
    entries: Seq<BulkInsertMeta>,
)
    ensures
        bulk_insert_count(m, workspace_id, entries) <= entries.len(),
    decreases entries.len(),
{
    if entries.len() > 0 {
        law_bulk_insert_count_bound(m, workspace_id, entries.drop_last());
    }
}

/// An entry whose derived key the ledger already holds is not counted: the
/// count stays below the number of entries.
pub proof fn law_bulk_insert_skips_existing(
    m: LedgerMap,
    workspace_id: u128,
    entries: Seq<BulkInsertMeta>,
    at: int,
)
    requires
        0 <= at < entries.len(),
        m.contains_key(entries[at].key(workspace_id)),
    ensures
        bulk_insert_count(m, workspace_id, entries) < entries.len(),
    decreases entries.len(),
{
    let front = entries.drop_last();
    if at == entries.len() - 1 {
        law_bulk_insert_keeps_existing(m, workspace_id, front, entries[at].key(workspace_id));
        law_bulk_insert_count_bound(m, workspace_id, front);
    } else {
        assert(front[at] == entries[at]);
        law_bulk_insert_skips_existing(m, workspace_id, front, at);
    }
}

/// The count of a bulk insert is the number of rows by which the ledger grew.
pub proof fn law_bulk_insert_count_is_growth(
    m: LedgerMap,
    workspace_id: u128,
    entries: Seq<BulkInsertMeta>,
)
    requires
        m.dom().finite(),
    ensures
        bulk_insert_map(m, workspace_id, entries).dom().finite(),
        bulk_insert_map(m, workspace_id, entries).dom().len() == m.dom().len() + bulk_insert_count(
            m,
            workspace_id,
            entries,
        ),
    decreases entries.len(),
{
    if entries.len() > 0 {
        law_bulk_insert_count_is_growth(m, workspace_id, entries.drop_last());
    }
}

/// After a bulk insert the ledger holds a row under the derived key of each
/// entry.
pub proof fn law_bulk_insert_keys_present(
    m: LedgerMap,
    workspace_id: u128,
    entries: Seq<BulkInsertMeta>,
    at: int,
)
    requires
        0 <= at < entries.len(),
    ensures
        ledger_exists(bulk_insert_map(m, workspace_id, entries), entries[at].key(workspace_id)),
    decreases entries.len(),
{
    let front = entries.drop_last();
    if at < entries.len() - 1 {
        assert(front[at] == entries[at]);
        law_bulk_insert_keys_present(m, workspace_id, front, at);
    }
}

/// Where several entries of a bulk insert share a derived key that the
/// ledger does not hold, the first of them is the one inserted.
pub proof fn law_bulk_insert_first_wins(
    m: LedgerMap,
    workspace_id: u128,
    entries: Seq<BulkInsertMeta>,
    at: int,
)
    requires
        0 <= at < entries.len(),
        !m.contains_key(entries[at].key(workspace_id)),
        forall|i: int|
            #![trigger entries[i]]
            0 <= i < at ==> entries[i].key(workspace_id) != entries[at].key(workspace_id),
    ensures
        ledger_get(bulk_insert_map(m, workspace_id, entries), entries[at].key(workspace_id)) == Ok::<
            (Seq<char>, i64),
            LedgerError,
        >(entries[at].info()),
    decreases entries.len(),
{
    let front = entries.drop_last();
    let key = entries[at].key(workspace_id);
    assert forall|i: int| 0 <= i < front.len() implies #[trigger] front[i] == entries[i] by {}
    if at == entries.len() - 1 {
        assert forall|i: int| 0 <= i < front.len() implies (#[trigger] front[i]).key(workspace_id)
            != key by {
            assert(front[i] == entries[i]);
        }
        law_bulk_insert_adds_only_entries(m, workspace_id, front, key);
    } else {
        assert(front[at] == entries[at]);
        assert forall|i: int| 0 <= i < at implies (#[trigger] front[i]).key(workspace_id)
            != front[at].key(workspace_id) by {
            assert(front[i] == entries[i]);
        }
        law_bulk_insert_first_wins(m, workspace_id, front, at);
    }
}

/// A bulk insert of entries whose derived keys differ from each other and
/// from every key of the ledger inserts them all: the count is the number of
/// entries, and the lookup of each key gives the values of its entry.
pub proof fn law_bulk_insert_fresh_distinct(
    m: LedgerMap,
    workspace_id: u128,
    entries: Seq<BulkInsertMeta>,
)
    requires
        forall|i: int, j: int|
            #![trigger entries[i], entries[j]]
            0 <= i < j < entries.len() ==> entries[i].key(workspace_id) != entries[j].key(
                workspace_id,
            ),
        forall|i: int|
            #![trigger entries[i]]
            0 <= i < entries.len() ==> !m.contains_key(entries[i].key(workspace_id)),
    ensures
        bulk_insert_count(m, workspace_id, entries) == entries.len(),
        forall|i: int|
            #![trigger entries[i]]
            0 <= i < entries.len() ==> ledger_get(
                bulk_insert_map(m, workspace_id, entries),
                entries[i].key(workspace_id),
            ) == Ok::<(Seq<char>, i64), LedgerError>(entries[i].info()),
    decreases entries.len(),
{
    if entries.len() > 0 {
        let front = entries.drop_last();
        let last = entries[entries.len() - 1];
        assert forall|i: int| 0 <= i < front.len() implies #[trigger] front[i] == entries[i] by {}
        law_bulk_insert_fresh_distinct(m, workspace_id, front);
        assert forall|i: int| 0 <= i < front.len() implies (#[trigger] front[i]).key(workspace_id)
            != last.key(workspace_id) by {
            assert(front[i] == entries[i]);
        }
        law_bulk_insert_adds_only_entries(m, workspace_id, front, last.key(workspace_id));
        assert forall|i: int| 0 <= i < entries.len() implies ledger_get(
            bulk_insert_map(m, workspace_id, entries),
            (#[trigger] entries[i]).key(workspace_id),
        ) == Ok::<(Seq<char>, i64), LedgerError>(entries[i].info()) by {
            if i < front.len() {
                assert(front[i] == entries[i]);
            }
        }
    }
}

/// A delete of an absent key changes nothing; after a delete the key does
/// not exist and its lookup fails with `NotFound`.
pub proof fn law_delete(m: LedgerMap, key: (u128, Seq<char>))
    ensures
        !ledger_exists(m, key) ==> ledger_delete(m, key) == m,
        !ledger_exists(ledger_delete(m, key), key),
        ledger_get(ledger_delete(m, key), key) == Err::<(Seq<char>, i64), LedgerError>(
            LedgerError::NotFound,
        ),
{
    if !m.contains_key(key) {
        assert(m.remove(key) =~= m);
    }
}

/// A delete leaves every other key as it was.
pub proof fn law_delete_keeps_others(
    m: LedgerMap,
    key: (u128, Seq<char>),
    other: (u128, Seq<char>),
)
    requires
        other != key,
    ensures
        ledger_get(ledger_delete(m, key), other) == ledger_get(m, other),
{
}

/// A workspace without rows has the total 0, and the usage 0 is reported.
pub proof fn law_usage_without_rows(m: LedgerMap, workspace_id: u128)
    requires
        m.dom().finite(),
        forall|k: (u128, Seq<char>)| m.contains_key(k) ==> k.0 != workspace_id,
    ensures
        workspace_total(m, workspace_id) == 0,
        reported_usage(workspace_total(m, workspace_id)) == 0,
    decreases m.dom().len(),
{
    if m.dom().len() != 0 {
        let k = m.dom().choose();
        assert(m.contains_key(k));
        law_usage_without_rows(m.remove(k), workspace_id);
    }
}

/// An upsert under a new key adds the file size to the total of the key's
/// workspace, and a delete takes the file size of its row off again.
pub proof fn law_usage_follows_rows(m: LedgerMap, key: (u128, Seq<char>), info: (Seq<char>, i64))
    requires
        m.dom().finite(),
        !m.contains_key(key),
    ensures
        workspace_total(ledger_upsert(m, key, info), key.0) == workspace_total(m, key.0) + info.1,
        workspace_total(ledger_delete(ledger_upsert(m, key, info), key), key.0) == workspace_total(
            m,
            key.0,
        ),
{
    lemma_total_insert(m, key.0, key, info);
    assert(m.insert(key, info).remove(key) =~= m);
}

} // verus!
