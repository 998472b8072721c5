use blob_ledger::record::{blob_metadata_key, BulkInsertMeta, LedgerError};
use blob_ledger::resource_usage::{
    bulk_insert_columns, delete_blob_metadata, get_all_workspace_blob_ids,
    get_all_workspace_blob_metadata, get_blob_metadata, get_workspace_usage_size,
    insert_blob_metadata, insert_blob_metadata_bulk, is_blob_metadata_exists, is_upsert_anomaly,
};
use blob_ledger::table::BlobTable;

const W1: u128 = 0x0123_4567_89ab_cdef_0123_4567_89ab_cdef;
const W2: u128 = 2;

fn entry(object_id: &str, file_id: &str, file_type: &str, file_size: i64) -> BulkInsertMeta {
    BulkInsertMeta {
        object_id: object_id.to_string(),
        file_id: file_id.to_string(),
        file_type: file_type.to_string(),
        file_size,
    }
}

#[test]
fn key_never_inserted_is_absent() {
    let mut table = BlobTable::new();
    assert_eq!(is_blob_metadata_exists(&table, W1, "a"), Ok(false));
    assert_eq!(get_blob_metadata(&table, W1, "a"), Err(LedgerError::NotFound));
    insert_blob_metadata(&mut table, "b", W1, "text/plain", 1).unwrap();
    insert_blob_metadata(&mut table, "a", W2, "text/plain", 1).unwrap();
    assert_eq!(is_blob_metadata_exists(&table, W1, "a"), Ok(false));
    assert_eq!(get_blob_metadata(&table, W1, "a"), Err(LedgerError::NotFound));
    assert_eq!(is_blob_metadata_exists(&table, W1, "b"), Ok(true));
    assert_eq!(is_blob_metadata_exists(&table, W2, "a"), Ok(true));
}

#[test]
fn insert_creates_the_row() {
    let mut table = BlobTable::new();
    assert_eq!(insert_blob_metadata(&mut table, "f", W1, "image/png", 42), Ok(()));
    let row = get_blob_metadata(&table, W1, "f").unwrap();
    assert_eq!(row.workspace_id, W1);
    assert_eq!(row.file_id, "f");
    assert_eq!(row.file_type, "image/png");
    assert_eq!(row.file_size, 42);
    assert_eq!(table.len(), 1);
}

#[test]
fn second_upsert_replaces_the_first() {
    let mut table = BlobTable::new();
    insert_blob_metadata(&mut table, "f", W1, "image/png", 42).unwrap();
    insert_blob_metadata(&mut table, "g", W1, "image/gif", 5).unwrap();
    insert_blob_metadata(&mut table, "f", W1, "text/plain", 7).unwrap();
    let row = get_blob_metadata(&table, W1, "f").unwrap();
    assert_eq!(row.file_id, "f");
    assert_eq!(row.file_type, "text/plain");
    assert_eq!(row.file_size, 7);
    let other = get_blob_metadata(&table, W1, "g").unwrap();
    assert_eq!(other.file_type, "image/gif");
    assert_eq!(other.file_size, 5);
    assert_eq!(table.len(), 2);
}

#[test]
fn upsert_takes_the_largest_size() {
    let mut table = BlobTable::new();
    insert_blob_metadata(&mut table, "f", W1, "t", i64::MAX as usize).unwrap();
    assert_eq!(get_blob_metadata(&table, W1, "f").unwrap().file_size, i64::MAX);
    assert_eq!(get_workspace_usage_size(&table, W1), Ok(i64::MAX as u64));
}

#[test]
fn upsert_anomaly_is_any_count_but_one() {
    assert!(is_upsert_anomaly(0));
    assert!(!is_upsert_anomaly(1));
    assert!(is_upsert_anomaly(2));
    assert!(is_upsert_anomaly(u64::MAX));
}

#[test]
fn bulk_insert_leaves_existing_row() {
    let mut table = BlobTable::new();
    insert_blob_metadata(&mut table, "obj1_abc", W1, "old/type", 100).unwrap();
    let n = insert_blob_metadata_bulk(
        &mut table,
        W1,
        vec![entry("obj1", "abc", "new/type", 5), entry("obj1", "def", "new/type", 6)],
    );
    assert_eq!(n, Ok(1));
    let kept = get_blob_metadata(&table, W1, "obj1_abc").unwrap();
    assert_eq!(kept.file_type, "old/type");
    assert_eq!(kept.file_size, 100);
    let added = get_blob_metadata(&table, W1, "obj1_def").unwrap();
    assert_eq!(added.file_type, "new/type");
    assert_eq!(added.file_size, 6);
    assert_eq!(table.len(), 2);
}

#[test]
fn bulk_insert_of_distinct_keys_inserts_all() {
    let mut table = BlobTable::new();
    let n = insert_blob_metadata_bulk(
        &mut table,
        W1,
        vec![entry("o1", "a", "t1", 1), entry("o1", "b", "t2", 2), entry("o2", "a", "t3", 3)],
    );
    assert_eq!(n, Ok(3));
    let a = get_blob_metadata(&table, W1, "o1_a").unwrap();
    assert_eq!((a.file_type.as_str(), a.file_size), ("t1", 1));
    let b = get_blob_metadata(&table, W1, "o1_b").unwrap();
    assert_eq!((b.file_type.as_str(), b.file_size), ("t2", 2));
    let c = get_blob_metadata(&table, W1, "o2_a").unwrap();
    assert_eq!((c.file_type.as_str(), c.file_size), ("t3", 3));
    assert_eq!(c.workspace_id, W1);
    assert_eq!(is_blob_metadata_exists(&table, W2, "o1_a"), Ok(false));
}

#[test]
fn bulk_insert_keeps_the_first_of_equal_keys() {
    let mut table = BlobTable::new();
    let n = insert_blob_metadata_bulk(
        &mut table,
        W1,
        vec![entry("o", "a", "first", 1), entry("o", "a", "second", 2)],
    );
    assert_eq!(n, Ok(1));
    let row = get_blob_metadata(&table, W1, "o_a").unwrap();
    assert_eq!((row.file_type.as_str(), row.file_size), ("first", 1));
}

#[test]
fn bulk_insert_of_nothing() {
    let mut table = BlobTable::new();
    assert_eq!(insert_blob_metadata_bulk(&mut table, W1, vec![]), Ok(0));
    assert_eq!(table.len(), 0);
}

#[test]
fn bulk_insert_same_key_in_another_workspace() {
    let mut table = BlobTable::new();
    insert_blob_metadata(&mut table, "o_a", W2, "t", 9).unwrap();
    assert_eq!(insert_blob_metadata_bulk(&mut table, W1, vec![entry("o", "a", "u", 1)]), Ok(1));
    assert_eq!(get_blob_metadata(&table, W2, "o_a").unwrap().file_size, 9);
    assert_eq!(get_blob_metadata(&table, W1, "o_a").unwrap().file_size, 1);
}

#[test]
fn derived_key_is_object_underscore_file() {
    assert_eq!(blob_metadata_key("obj1", "abc"), "obj1_abc");
    assert_eq!(blob_metadata_key("", ""), "_");
    assert_eq!(blob_metadata_key("a_b", "c"), "a_b_c");
    let mut table = BlobTable::new();
    insert_blob_metadata_bulk(&mut table, W1, vec![entry("obj1", "abc", "t", 1)]).unwrap();
    assert_eq!(get_all_workspace_blob_ids(&table, W1), Ok(vec!["obj1_abc".to_string()]));
}

#[test]
fn bulk_columns_hold_the_entries_in_order() {
    let columns = bulk_insert_columns(vec![entry("o1", "a", "t1", 1), entry("o2", "b", "t2", -2)]);
    assert_eq!(columns.file_ids, vec!["o1_a".to_string(), "o2_b".to_string()]);
    assert_eq!(columns.file_types, vec!["t1".to_string(), "t2".to_string()]);
    assert_eq!(columns.file_sizes, vec![1, -2]);
    let none = bulk_insert_columns(vec![]);
    assert!(none.file_ids.is_empty() && none.file_types.is_empty() && none.file_sizes.is_empty());
}

#[test]
fn usage_is_the_sum_of_sizes() {
    let mut table = BlobTable::new();
    insert_blob_metadata(&mut table, "a", W1, "t", 10).unwrap();
    insert_blob_metadata(&mut table, "b", W1, "t", 20).unwrap();
    insert_blob_metadata(&mut table, "x", W2, "t", 1000).unwrap();
    insert_blob_metadata(&mut table, "c", W1, "t", 30).unwrap();
    assert_eq!(get_workspace_usage_size(&table, W1), Ok(60));
    assert_eq!(get_workspace_usage_size(&table, W2), Ok(1000));
    assert_eq!(get_workspace_usage_size(&table, 3), Ok(0));
    assert_eq!(get_workspace_usage_size(&BlobTable::new(), W1), Ok(0));
}

#[test]
fn usage_beyond_64_bits_is_reported_as_zero() {
    let mut table = BlobTable::new();
    insert_blob_metadata(&mut table, "a", W1, "t", i64::MAX as usize).unwrap();
    insert_blob_metadata(&mut table, "b", W1, "t", i64::MAX as usize).unwrap();
    assert_eq!(get_workspace_usage_size(&table, W1), Ok(u64::MAX - 1));
    insert_blob_metadata(&mut table, "c", W1, "t", 2).unwrap();
    assert_eq!(get_workspace_usage_size(&table, W1), Ok(0));
}

#[test]
fn negative_usage_is_reported_as_zero() {
    let mut table = BlobTable::new();
    insert_blob_metadata_bulk(&mut table, W1, vec![entry("o", "a", "t", -5), entry("o", "b", "t", 3)])
        .unwrap();
    assert_eq!(get_workspace_usage_size(&table, W1), Ok(0));
    insert_blob_metadata(&mut table, "c", W1, "t", 2).unwrap();
    assert_eq!(get_workspace_usage_size(&table, W1), Ok(0));
    insert_blob_metadata(&mut table, "d", W1, "t", 1).unwrap();
    assert_eq!(get_workspace_usage_size(&table, W1), Ok(1));
}

#[test]
fn delete_of_absent_key_changes_nothing() {
    let mut table = BlobTable::new();
    insert_blob_metadata(&mut table, "a", W1, "t", 10).unwrap();
    assert_eq!(delete_blob_metadata(&mut table, W1, "b"), Ok(()));
    assert_eq!(delete_blob_metadata(&mut table, W2, "a"), Ok(()));
    assert_eq!(table.len(), 1);
    let row = get_blob_metadata(&table, W1, "a").unwrap();
    assert_eq!((row.file_type.as_str(), row.file_size), ("t", 10));
    assert_eq!(get_workspace_usage_size(&table, W1), Ok(10));
}

#[test]
fn delete_of_present_key_removes_the_row() {
    let mut table = BlobTable::new();
    insert_blob_metadata(&mut table, "a", W1, "t", 10).unwrap();
    insert_blob_metadata(&mut table, "b", W1, "t", 20).unwrap();
    insert_blob_metadata(&mut table, "c", W1, "t", 30).unwrap();
    assert_eq!(delete_blob_metadata(&mut table, W1, "b"), Ok(()));
    assert_eq!(is_blob_metadata_exists(&table, W1, "b"), Ok(false));
    assert_eq!(get_blob_metadata(&table, W1, "b"), Err(LedgerError::NotFound));
    assert_eq!(is_blob_metadata_exists(&table, W1, "a"), Ok(true));
    assert_eq!(is_blob_metadata_exists(&table, W1, "c"), Ok(true));
    assert_eq!(get_workspace_usage_size(&table, W1), Ok(40));
    assert_eq!(table.len(), 2);
}

#[test]
fn listing_gives_the_rows_of_the_workspace() {
    let mut table = BlobTable::new();
    insert_blob_metadata(&mut table, "a", W1, "ta", 1).unwrap();
    insert_blob_metadata(&mut table, "z", W2, "tz", 9).unwrap();
    insert_blob_metadata(&mut table, "b", W1, "tb", 2).unwrap();
    let mut rows = get_all_workspace_blob_metadata(&table, W1).unwrap();
    rows.sort_by(|x, y| x.file_id.cmp(&y.file_id));
    assert_eq!(rows.len(), 2);
    assert_eq!((rows[0].workspace_id, rows[0].file_id.as_str()), (W1, "a"));
    assert_eq!((rows[0].file_type.as_str(), rows[0].file_size), ("ta", 1));
    assert_eq!((rows[1].workspace_id, rows[1].file_id.as_str()), (W1, "b"));
    assert_eq!((rows[1].file_type.as_str(), rows[1].file_size), ("tb", 2));
    assert_eq!(get_all_workspace_blob_metadata(&table, 3), Ok(vec![]));
}

#[test]
fn listed_ids_are_the_keys_of_the_listed_rows() {
    let mut table = BlobTable::new();
    insert_blob_metadata(&mut table, "a", W1, "ta", 1).unwrap();
    insert_blob_metadata(&mut table, "z", W2, "tz", 9).unwrap();
    insert_blob_metadata(&mut table, "b", W1, "tb", 2).unwrap();
    insert_blob_metadata(&mut table, "a", W1, "ta2", 3).unwrap();
    let mut ids = get_all_workspace_blob_ids(&table, W1).unwrap();
    ids.sort();
    assert_eq!(ids, vec!["a".to_string(), "b".to_string()]);
    let mut from_rows: Vec<String> = get_all_workspace_blob_metadata(&table, W1)
        .unwrap()
        .into_iter()
        .map(|r| r.file_id)
        .collect();
    from_rows.sort();
    assert_eq!(ids, from_rows);
    assert_eq!(get_all_workspace_blob_ids(&table, 3), Ok(vec![]));
}

#[test]
fn store_failures_are_told_apart() {
    assert_eq!(LedgerError::from_store(true), LedgerError::NotFound);
    assert_eq!(LedgerError::from_store(false), LedgerError::StoreFailure);
    assert_eq!(LedgerError::NotFound.message(), "blob metadata not found");
    assert_eq!(LedgerError::StoreFailure.message(), "the store failed");
}
