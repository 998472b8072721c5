//! A workspace blob-usage ledger: which blobs a workspace holds, their declared
//! type and size, and the storage that a workspace consumes in total.

pub mod record;
pub mod model;
pub mod table;
pub mod usage;
pub mod resource_usage;
pub mod laws;
