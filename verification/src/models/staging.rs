use crate::models::clone_opt;
use vstd::prelude::*;

verus! {

/// A staging table awaiting commit.
#[derive(Debug)]
pub struct StagingTableRow {
    pub id: u128,
    pub schema_id: u128,
    pub name: String,
    pub staging_location: String,
    pub created_at: i64,
    pub created_by: Option<String>,
    pub accessed_at: i64,
    pub stage_committed: bool,
    pub stage_committed_at: Option<i64>,
    pub purge_state: i32,
    pub num_cleanup_retries: i32,
    pub last_cleanup_at: Option<i64>,
}

impl Clone for StagingTableRow {
    fn clone(&self) -> (r: Self)
        ensures
            r == *self,
    {
        StagingTableRow {
            id: self.id,
            schema_id: self.schema_id,
            name: self.name.clone(),
            staging_location: self.staging_location.clone(),
            created_at: self.created_at,
            created_by: clone_opt(&self.created_by),
            accessed_at: self.accessed_at,
            stage_committed: self.stage_committed,
            stage_committed_at: self.stage_committed_at,
            purge_state: self.purge_state,
            num_cleanup_retries: self.num_cleanup_retries,
            last_cleanup_at: self.last_cleanup_at,
        }
    }
}

} // verus!
