//! What each operation of the ledger means on the model, a map from keys to
//! what their rows record.

use vstd::prelude::*;
use crate::record::{BlobMetadataRow, BulkInsertMeta, LedgerError, LedgerMap};

verus! {

/// Whether a row exists under the key.
pub open spec fn ledger_exists(m: LedgerMap, key: (u128, Seq<char>)) -> bool {
    m.contains_key(key)
}

/// The ledger after an upsert: the key holds the new values, whatever it held.
pub open spec fn ledger_upsert(m: LedgerMap, key: (u128, Seq<char>), info: (Seq<char>, i64))
    -> LedgerMap {
    m.insert(key, info)
}

/// The ledger after a delete of the key.
pub open spec fn ledger_delete(m: LedgerMap, key: (u128, Seq<char>)) -> LedgerMap {
    m.remove(key)
}

/// The point lookup: what the key's row records, or `NotFound`.
pub open spec fn ledger_get(m: LedgerMap, key: (u128, Seq<char>)) -> Result<
    (Seq<char>, i64),
    LedgerError,
> {
    if m.contains_key(key) {
        Ok(m[key])
    } else {
        Err(LedgerError::NotFound)
    }
}

/// The rows of one workspace.
pub open spec fn workspace_slice(m: LedgerMap, workspace_id: u128) -> LedgerMap {
    Map::new(
        |k: (u128, Seq<char>)| m.contains_key(k) && k.0 == workspace_id,
        |k: (u128, Seq<char>)| m[k],
    )
}

/// The ledger after one entry of a bulk insert: inserted if its key is absent,
/// skipped otherwise.
pub open spec fn insert_if_absent(m: LedgerMap, key: (u128, Seq<char>), info: (Seq<char>, i64))
    -> LedgerMap {
    if m.contains_key(key) {
        m
    } else {
        m.insert(key, info)
    }
}

/// The ledger after a bulk insert: each entry in turn is inserted under its
/// derived key if that key is absent.
pub open spec fn bulk_insert_map(m: LedgerMap, workspace_id: u128, entries: Seq<BulkInsertMeta>)
    -> LedgerMap
    decreases entries.len(),
{
    if entries.len() == 0 {
        m
    } else {
        insert_if_absent(
            bulk_insert_map(m, workspace_id, entries.drop_last()),
            entries.last().key(workspace_id),
            entries.last().info(),
        )
    }
}

/// The number of rows that a bulk insert adds.
pub open spec fn bulk_insert_count(m: LedgerMap, workspace_id: u128, entries: Seq<BulkInsertMeta>)
    -> nat
    decreases entries.len(),
{
    if entries.len() == 0 {
        0
    } else {
        let before = bulk_insert_map(m, workspace_id, entries.drop_last());
        let counted = bulk_insert_count(m, workspace_id, entries.drop_last());
        if before.contains_key(entries.last().key(workspace_id)) {
            counted
        } else {
            counted + 1
        }
    }
}

/// What a key adds to the usage of a workspace.
pub open spec fn size_in(workspace_id: u128, key: (u128, Seq<char>), info: (Seq<char>, i64)) -> int {
    if key.0 == workspace_id {
        info.1 as int
    } else {
        0
    }
}

/// The exact sum of the file sizes of a workspace's rows.
pub open spec fn workspace_total(m: LedgerMap, workspace_id: u128) -> int
    decreases m.dom().len(),
    when m.dom().finite()
{
    if m.dom().len() == 0 {
        0
    } else {
        let k = m.dom().choose();
        size_in(workspace_id, k, m[k]) + workspace_total(m.remove(k), workspace_id)
    }
}

/// The usage that is reported for an exact sum: the sum where an unsigned
/// 64-bit integer can hold it, and 0 otherwise.
pub open spec fn reported_usage(total: int) -> u64 {
    if 0 <= total <= u64::MAX {
        total as u64
    } else {
        0
    }
}

/// The total of a workspace splits at any key of the ledger.
pub proof fn lemma_total_remove(m: LedgerMap, workspace_id: u128, key: (u128, Seq<char>))
    requires
        m.dom().finite(),
        m.contains_key(key),
    ensures
        workspace_total(m, workspace_id) == size_in(workspace_id, key, m[key]) + workspace_total(
            m.remove(key),
            workspace_id,
        ),
    decreases m.dom().len(),
{
    let c = m.dom().choose();
    assert(m.dom().len() != 0);
    assert(m.dom().contains(c));
    if c != key {
        lemma_total_remove(m.remove(c), workspace_id, key);
        lemma_total_remove(m.remove(key), workspace_id, c);
        assert(m.remove(c).remove(key) =~= m.remove(key).remove(c));
    }
}

/// A new key adds its size to the total of its workspace.
pub proof fn lemma_total_insert(
    m: LedgerMap,
    workspace_id: u128,
    key: (u128, Seq<char>),
    info: (Seq<char>, i64),
)
    requires
        m.dom().finite(),
        !m.contains_key(key),
    ensures
        workspace_total(m.insert(key, info), workspace_id) == size_in(workspace_id, key, info)
            + workspace_total(m, workspace_id),
{
    lemma_total_remove(m.insert(key, info), workspace_id, key);
    assert(m.insert(key, info).remove(key) =~= m);
}

/// The sum of the file sizes of the rows of a workspace, row by row.
pub open spec fn rows_total(rows: Seq<BlobMetadataRow>, workspace_id: u128) -> int
    decreases rows.len(),
{
    if rows.len() == 0 {
        0
    } else {
        rows_total(rows.drop_last(), workspace_id) + size_in(
            workspace_id,
            rows.last().key(),
            rows.last().info(),
        )
    }
}

} // verus!
