//! The operations of the ledger: existence probe, upsert, bulk insert, delete,
//! point lookup, listing, and the usage of a workspace.

use vstd::prelude::*;
use crate::model::{
    bulk_insert_count, bulk_insert_map, ledger_delete, ledger_exists, ledger_get, ledger_upsert,
    reported_usage, rows_total, workspace_slice, workspace_total,
};
use crate::record::{blob_file_id, blob_metadata_key, BlobMetadataRow, BulkInsertMeta, LedgerError};
use crate::table::{lemma_rows_map, lemma_rows_total, rows_distinct, rows_map, BlobTable};
use crate::usage::{pow10, usage_from_sum, DecimalSum, MAX_MANTISSA};

verus! {

/// Whether the table holds a row under the key. Absence is `false`, not an error.
pub fn is_blob_metadata_exists(table: &BlobTable, workspace_id: u128, file_id: &str) -> (result:
    Result<bool, LedgerError>)
    requires
        table.wf(),
    ensures
        result == Ok::<bool, LedgerError>(ledger_exists(table@, (workspace_id, file_id@))),
{
    let file_id = file_id.to_owned();
    Ok(table.find(workspace_id, &file_id).is_some())
}

/// Whether the number of rows that the store reports for an upsert is an
/// anomaly: an upsert affects exactly one row. An anomaly is to be recorded,
/// and the upsert still succeeds.
pub fn is_upsert_anomaly(rows_affected: u64) -> (anomaly: bool)
    ensures
        anomaly == (rows_affected != 1),
{
    rows_affected != 1
}

/// Inserts the row, or gives the row under the key the new type and size.
pub fn insert_blob_metadata(
    table: &mut BlobTable,
    file_id: &str,
    workspace_id: u128,
    file_type: &str,
    file_size: usize,
) -> (result: Result<(), LedgerError>)
    requires
        old(table).wf(),
        file_size <= i64::MAX,
    ensures
        final(table).wf(),
        result is Ok,
        final(table)@ == ledger_upsert(
            old(table)@,
            (workspace_id, file_id@),
            (file_type@, file_size as i64),
        ),
{
    let row = BlobMetadataRow {
        workspace_id,
        file_id: file_id.to_owned(),
        file_type: file_type.to_owned(),
        file_size: file_size as i64,
    };
    match table.find(workspace_id, &row.file_id) {
        Some(i) => table.replace_row(i, row),
        None => table.push_row(row),
    }
    Ok(())
}

/// The three columns of a bulk insert, one position for each entry.
pub struct BulkColumns {
    pub file_ids: Vec<String>,
    pub file_types: Vec<String>,
    pub file_sizes: Vec<i64>,
}

impl BulkColumns {
    /// The columns hold the entries, in order, each under its derived file id.
    pub open spec fn holds(&self, entries: Seq<BulkInsertMeta>) -> bool {
        &&& self.file_ids@.len() == entries.len()
        &&& self.file_types@.len() == entries.len()
        &&& self.file_sizes@.len() == entries.len()
        &&& forall|i: int|
            #![trigger entries[i]]
            0 <= i < entries.len() ==> {
                &&& self.file_ids@[i]@ == blob_file_id(entries[i].object_id@, entries[i].file_id@)
                &&& self.file_types@[i]@ == entries[i].file_type@
                &&& self.file_sizes@[i] == entries[i].file_size
            }
    }
}

/// Lays the entries of a bulk insert out in columns, and derives for each the
/// file id that it is stored under.
pub fn bulk_insert_columns(metadata: Vec<BulkInsertMeta>) -> (columns: BulkColumns)
    ensures
        columns.holds(metadata@),
{
    let mut file_ids: Vec<String> = Vec::with_capacity(metadata.len());
    let mut file_types: Vec<String> = Vec::with_capacity(metadata.len());
    let mut file_sizes: Vec<i64> = Vec::with_capacity(metadata.len());
    let mut i: usize = 0;
    while i < metadata.len()
        invariant
            i <= metadata.len(),
            file_ids@.len() == i,
            file_types@.len() == i,
            file_sizes@.len() == i,
            forall|j: int|
                #![trigger metadata@[j]]
                0 <= j < i ==> {
                    &&& file_ids@[j]@ == blob_file_id(metadata@[j].object_id@, metadata@[j].file_id@)
                    &&& file_types@[j]@ == metadata@[j].file_type@
                    &&& file_sizes@[j] == metadata@[j].file_size
                },
        decreases metadata.len() - i,
    {
        let entry = &metadata[i];
        file_ids.push(blob_metadata_key(entry.object_id.as_str(), entry.file_id.as_str()));
        file_types.push(entry.file_type.clone());
        file_sizes.push(entry.file_size);
        i += 1;
    }
    BulkColumns { file_ids, file_types, file_sizes }
}

/// Inserts each entry under its derived key where the key is absent, and
/// leaves the row of a key that is present untouched. Returns the number of
/// rows inserted.
pub fn insert_blob_metadata_bulk(
    table: &mut BlobTable,
    workspace_id: u128,
    metadata: Vec<BulkInsertMeta>,
) -> (result: Result<u64, LedgerError>)
    requires
        old(table).wf(),
    ensures
        final(table).wf(),
        final(table)@ == bulk_insert_map(old(table)@, workspace_id, metadata@),
        result == Ok::<u64, LedgerError>(
            bulk_insert_count(old(table)@, workspace_id, metadata@) as u64,
        ),
        bulk_insert_count(old(table)@, workspace_id, metadata@) <= metadata@.len(),
{
    let ghost entries = metadata@;
    let ghost before = table@;
    let n = metadata.len();
    let columns = bulk_insert_columns(metadata);
    let mut count: u64 = 0;
    let mut i: usize = 0;
    while i < n
        invariant
            i <= n,
            n == entries.len(),
            columns.holds(entries),
            table.wf(),
            table@ == bulk_insert_map(before, workspace_id, entries.take(i as int)),
            count == bulk_insert_count(before, workspace_id, entries.take(i as int)),
            count <= i,
        decreases n - i,
    {
        proof {
            assert(entries.take(i + 1).drop_last() =~= entries.take(i as int));
            assert(entries.take(i + 1).last() == entries[i as int]);
        }
        if table.find(workspace_id, &columns.file_ids[i]).is_none() {
            table.push_row(
                BlobMetadataRow {
                    workspace_id,
                    file_id: columns.file_ids[i].clone(),
                    file_type: columns.file_types[i].clone(),
                    file_size: columns.file_sizes[i],
                },
            );
            count += 1;
        }
        i += 1;
    }
    proof {
        assert(entries.take(n as int) =~= entries);
    }
    Ok(count)
}

/// Removes the row under the key, if there is one.
pub fn delete_blob_metadata(table: &mut BlobTable, workspace_id: u128, file_id: &str) -> (result:
    Result<(), LedgerError>)
    requires
        old(table).wf(),
    ensures
        final(table).wf(),
        result is Ok,
        final(table)@ == ledger_delete(old(table)@, (workspace_id, file_id@)),
{
    let file_id = file_id.to_owned();
    match table.find(workspace_id, &file_id) {
        Some(i) => table.remove_row(i),
        None => {
            proof {
                assert(table@.remove((workspace_id, file_id@)) =~= table@);
            }
        },
    }
    Ok(())
}

/// A copy of a row.
fn copy_row(row: &BlobMetadataRow) -> (copy: BlobMetadataRow)
    ensures
        copy.key() == row.key(),
        copy.info() == row.info(),
{
    BlobMetadataRow {
        workspace_id: row.workspace_id,
        file_id: row.file_id.clone(),
        file_type: row.file_type.clone(),
        file_size: row.file_size,
    }
}

/// The row under the key, or `NotFound` where the table holds none.
pub fn get_blob_metadata(table: &BlobTable, workspace_id: u128, metadata_key: &str) -> (result:
    Result<BlobMetadataRow, LedgerError>)
    requires
        table.wf(),
    ensures
        match result {
            Ok(row) => row.key() == (workspace_id, metadata_key@) && ledger_get(
                table@,
                (workspace_id, metadata_key@),
            ) == Ok::<(Seq<char>, i64), LedgerError>(row.info()),
            Err(e) => e == LedgerError::NotFound && ledger_get(
                table@,
                (workspace_id, metadata_key@),
            ) == Err::<(Seq<char>, i64), LedgerError>(LedgerError::NotFound),
        },
{
    let key = metadata_key.to_owned();
    match table.find(workspace_id, &key) {
        Some(i) => {
            proof {
                lemma_rows_map(table.rows());
            }
            Ok(copy_row(table.row(i)))
        },
        None => Err(LedgerError::NotFound),
    }
}

/// All rows of a workspace: each once, and no other.
pub fn get_all_workspace_blob_metadata(table: &BlobTable, workspace_id: u128) -> (result: Result<
    Vec<BlobMetadataRow>,
    LedgerError,
>)
    requires
        table.wf(),
    ensures
        result is Ok,
        result matches Ok(rows) ==> rows_distinct(rows@) && rows_map(rows@) == workspace_slice(
            table@,
            workspace_id,
        ),
{
    let mut found: Vec<BlobMetadataRow> = Vec::new();
    let ghost mut source: Seq<int> = Seq::empty();
    let mut i: usize = 0;
    while i < table.len()
        invariant
            table.wf(),
            i <= table.rows().len(),
            source.len() == found@.len(),
            forall|j: int|
                #![trigger source[j]]
                0 <= j < source.len() ==> 0 <= source[j] < i && found@[j].key()
                    == table.rows()[source[j]].key() && found@[j].info()
                    == table.rows()[source[j]].info() && found@[j].workspace_id == workspace_id,
            forall|j: int, k: int|
                #![trigger source[j], source[k]]
                0 <= j < k < source.len() ==> source[j] < source[k],
            forall|p: int|
                #![trigger table.rows()[p]]
                0 <= p < i && table.rows()[p].workspace_id == workspace_id ==> exists|j: int|
                    0 <= j < source.len() && #[trigger] source[j] == p,
        decreases table.rows().len() - i,
    {
        let row = table.row(i);
        if row.workspace_id == workspace_id {
            let ghost earlier = source;
            found.push(copy_row(row));
            proof {
                source = source.push(i as int);
                assert forall|p: int|
                    0 <= p < i + 1 && (#[trigger] table.rows()[p]).workspace_id
                        == workspace_id implies exists|j: int|
                    0 <= j < source.len() && #[trigger] source[j] == p by {
                    if p < i {
                        let j = choose|j: int| 0 <= j < earlier.len() && #[trigger] earlier[j] == p;
                        assert(source[j] == p);
                    } else {
                        assert(source[source.len() - 1] == p);
                    }
                }
            }
        }
        i += 1;
    }
    proof {
        let rows = table.rows();
        let out = found@;
        assert forall|j: int, k: int| 0 <= j < k < out.len() implies (#[trigger] out[j]).key()
            != (#[trigger] out[k]).key() by {
            assert(source[j] < source[k]);
            assert(rows[source[j]].key() != rows[source[k]].key());
        }
        lemma_rows_map(rows);
        lemma_rows_map(out);
        let target = workspace_slice(table@, workspace_id);
        assert forall|key: (u128, Seq<char>)| #[trigger]
            rows_map(out).contains_key(key) implies target.contains_key(key) && rows_map(out)[key]
            == target[key] by {
            let j = choose|j: int| 0 <= j < out.len() && (#[trigger] out[j]).key() == key;
            let p = source[j];
            assert(rows[p].key() == key);
        }
        assert forall|key: (u128, Seq<char>)| #[trigger] target.contains_key(key) implies rows_map(
            out,
        ).contains_key(key) by {
            let p = choose|p: int| 0 <= p < rows.len() && (#[trigger] rows[p]).key() == key;
            let j = choose|j: int| 0 <= j < source.len() && #[trigger] source[j] == p;
            assert(out[j].key() == key);
        }
        assert(rows_map(out) =~= target);
    }
    Ok(found)
}

/// The file ids of a workspace: each once, and no other.
pub fn get_all_workspace_blob_ids(table: &BlobTable, workspace_id: u128) -> (result: Result<
    Vec<String>,
    LedgerError,
>)
    requires
        table.wf(),
    ensures
        result is Ok,
        result matches Ok(ids) ==> {
            &&& forall|i: int, j: int|
                #![trigger ids@[i], ids@[j]]
                0 <= i < j < ids@.len() ==> ids@[i]@ != ids@[j]@
            &&& forall|i: int|
                #![trigger ids@[i]]
                0 <= i < ids@.len() ==> table@.contains_key((workspace_id, ids@[i]@))
            &&& forall|file_id: Seq<char>| #[trigger]
                table@.contains_key((workspace_id, file_id)) ==> exists|i: int|
                    0 <= i < ids@.len() && (#[trigger] ids@[i])@ == file_id
        },
{
    let rows = match get_all_workspace_blob_metadata(table, workspace_id) {
        Ok(rows) => rows,
        Err(e) => {
            return Err(e);
        },
    };
    let mut ids: Vec<String> = Vec::with_capacity(rows.len());
    let mut i: usize = 0;
    while i < rows.len()
        invariant
            i <= rows.len(),
            ids@.len() == i,
            forall|j: int| #![trigger ids@[j]] 0 <= j < i ==> ids@[j]@ == rows@[j].file_id@,
        decreases rows.len() - i,
    {
        ids.push(rows[i].file_id.clone());
        i += 1;
    }
    proof {
        lemma_rows_map(rows@);
        assert forall|a: int, b: int| 0 <= a < b < ids@.len() implies (#[trigger] ids@[a])@
            != (#[trigger] ids@[b])@ by {
            assert(rows@[a].key() != rows@[b].key());
            assert(rows@[a].key().0 == workspace_id);
            assert(rows@[b].key().0 == workspace_id);
        }
        assert forall|a: int| 0 <= a < ids@.len() implies table@.contains_key(
            (workspace_id, (#[trigger] ids@[a])@),
        ) by {
            assert(rows_map(rows@).contains_key(rows@[a].key()));
        }
        assert forall|file_id: Seq<char>| #[trigger]
            table@.contains_key((workspace_id, file_id)) implies exists|a: int|
            0 <= a < ids@.len() && (#[trigger] ids@[a])@ == file_id by {
            assert(rows_map(rows@).contains_key((workspace_id, file_id)));
            let a = choose|a: int|
                0 <= a < rows@.len() && (#[trigger] rows@[a]).key() == (workspace_id, file_id);
            assert(ids@[a]@ == file_id);
        }
    }
    Ok(ids)
}

/// The storage that a workspace consumes: the sum of the file sizes of its
/// rows, and 0 where the sum is negative or too large to report.
pub fn get_workspace_usage_size(table: &BlobTable, workspace_id: u128) -> (result: Result<
    u64,
    LedgerError,
>)
    requires
        table.wf(),
    ensures
        result == Ok::<u64, LedgerError>(reported_usage(workspace_total(table@, workspace_id))),
{
    let mut total: i128 = 0;
    let mut any_row = false;
    let mut i: usize = 0;
    while i < table.len()
        invariant
            i <= table.rows().len(),
            total == rows_total(table.rows().take(i as int), workspace_id),
            !any_row ==> total == 0,
            -(i as int) * 0x8000_0000_0000_0000 <= total <= (i as int) * 0x8000_0000_0000_0000,
        decreases table.rows().len() - i,
    {
        proof {
            assert(table.rows().take(i + 1).drop_last() =~= table.rows().take(i as int));
            assert(table.rows().take(i + 1).last() == table.rows()[i as int]);
        }
        let row = table.row(i);
        if row.workspace_id == workspace_id {
            total = total + (row.file_size as i128);
            any_row = true;
        }
        i += 1;
    }
    proof {
        assert(table.rows().take(i as int) =~= table.rows());
        lemma_rows_total(table.rows(), workspace_id);
    }
    if !any_row {
        Ok(usage_from_sum(None))
    } else if -MAX_MANTISSA <= total && total <= MAX_MANTISSA {
        let sum = DecimalSum { mantissa: total, scale: 0 };
        proof {
            assert(pow10(sum.scale as nat) == 1);
            assert(sum.usage() == reported_usage(total as int));
        }
        Ok(usage_from_sum(Some(sum)))
    } else {
        Ok(0)
    }
}

} // verus!
