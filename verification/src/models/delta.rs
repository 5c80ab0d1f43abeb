use crate::models::clone_opt;
use vstd::prelude::*;

verus! {

/// One Delta commit of a table, stored in that table's own log.
#[derive(Debug)]
pub struct DeltaCommitRow {
    pub id: u128,
    pub table_id: u128,
    pub commit_version: i64,
    pub commit_filename: String,
    pub commit_filesize: i64,
    pub commit_file_modification_timestamp: i64,
    pub commit_timestamp: i64,
    pub is_backfilled_latest_commit: bool,
}

impl Clone for DeltaCommitRow {
    fn clone(&self) -> (r: Self)
        ensures
            r == *self,
    {
        DeltaCommitRow {
            id: self.id,
            table_id: self.table_id,
            commit_version: self.commit_version,
            commit_filename: self.commit_filename.clone(),
            commit_filesize: self.commit_filesize,
            commit_file_modification_timestamp: self.commit_file_modification_timestamp,
            commit_timestamp: self.commit_timestamp,
            is_backfilled_latest_commit: self.is_backfilled_latest_commit,
        }
    }
}

} // verus!
