use crate::models::clone_opt;
use vstd::prelude::*;

verus! {

/// A volume.
#[derive(Debug)]
pub struct VolumeRow {
    pub id: u128,
    pub schema_id: u128,
    pub name: String,
    pub comment: Option<String>,
    pub storage_location: Option<String>,
    pub owner: Option<String>,
    pub created_at: i64,
    pub created_by: Option<String>,
    pub updated_at: Option<i64>,
    pub updated_by: Option<String>,
    pub volume_type: String,
}

impl Clone for VolumeRow {
    fn clone(&self) -> (r: Self)
        ensures
            r == *self,
    {
        VolumeRow {
            id: self.id,
            schema_id: self.schema_id,
            name: self.name.clone(),
            comment: clone_opt(&self.comment),
            storage_location: clone_opt(&self.storage_location),
            owner: clone_opt(&self.owner),
            created_at: self.created_at,
            created_by: clone_opt(&self.created_by),
            updated_at: self.updated_at,
            updated_by: clone_opt(&self.updated_by),
            volume_type: self.volume_type.clone(),
        }
    }
}

} // verus!
