//! The rows of the ledger and the mathematical model they are read through.

use vstd::prelude::*;

verus! {

/// The model of the ledger: each key `(workspace, file id)` maps to the
/// declared `(file type, file size)` of its single row.
pub type LedgerMap = Map<(u128, Seq<char>), (Seq<char>, i64)>;

/// One row of blob metadata.
#[derive(Debug, Clone, PartialEq, Eq)]
pub struct BlobMetadataRow {
    pub workspace_id: u128,
    pub file_id: String,
    pub file_type: String,
    pub file_size: i64,
}

impl BlobMetadataRow {
    /// The primary key of the row.
    pub open spec fn key(&self) -> (u128, Seq<char>) {
        (self.workspace_id, self.file_id@)
    }

    /// What the row records under its key.
    pub open spec fn info(&self) -> (Seq<char>, i64) {
        (self.file_type@, self.file_size)
    }
}

/// One entry of a bulk insert: a blob addressed by an object and a path below it.
#[derive(Debug, Clone)]
pub struct BulkInsertMeta {
    pub object_id: String,
    pub file_id: String,
    pub file_type: String,
    pub file_size: i64,
}

/// The file id under which a blob of `object_id` at `file_id` is stored:
/// the object id, an underscore, the file id.
pub open spec fn blob_file_id(object_id: Seq<char>, file_id: Seq<char>) -> Seq<char> {
    object_id.push('_') + file_id
}

impl BulkInsertMeta {
    /// The key that the entry is stored under in `workspace_id`.
    pub open spec fn key(&self, workspace_id: u128) -> (u128, Seq<char>) {
        (workspace_id, blob_file_id(self.object_id@, self.file_id@))
    }

    /// What the entry records under its key.
    pub open spec fn info(&self) -> (Seq<char>, i64) {
        (self.file_type@, self.file_size)
    }
}

/// Why an operation of the ledger failed.
#[derive(Debug, Clone, Copy, PartialEq, Eq)]
pub enum LedgerError {
    /// A point lookup found no row under the key.
    NotFound,
    /// The store could not carry out the statement.
    StoreFailure,
}

impl LedgerError {
    /// The error for a statement that the store failed: `NotFound` where the
    /// store reports that the statement found no row, `StoreFailure` for
    /// every other failure.
    pub fn from_store(row_not_found: bool) -> (e: LedgerError)
        ensures
            e == if row_not_found {
                LedgerError::NotFound
            } else {
                LedgerError::StoreFailure
            },
    {
        if row_not_found {
            LedgerError::NotFound
        } else {
            LedgerError::StoreFailure
        }
    }

    /// The error in words.
    pub fn message(&self) -> (text: String)
        ensures
            text@ == match *self {
                LedgerError::NotFound => "blob metadata not found"@,
                LedgerError::StoreFailure => "the store failed"@,
            },
    {
        match self {
            LedgerError::NotFound => "blob metadata not found".to_owned(),
            LedgerError::StoreFailure => "the store failed".to_owned(),
        }
    }
}

/// Computes the file id under which a blob of `object_id` at `file_id` is stored.
pub fn blob_metadata_key(object_id: &str, file_id: &str) -> (key: String)
    ensures
        key@ == blob_file_id(object_id@, file_id@),
{
    let mut key = object_id.to_owned();
    proof {
        reveal_strlit("_");
    }
    key.append("_");
    key.append(file_id);
    proof {
        assert("_"@ =~= seq!['_']);
        assert(key@ =~= blob_file_id(object_id@, file_id@));
    }
    key
}

} // verus!
