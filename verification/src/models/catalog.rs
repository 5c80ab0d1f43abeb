use crate::models::clone_opt;
use vstd::prelude::*;

verus! {

/// A catalog.
#[derive(Debug)]
pub struct CatalogRow {
    pub id: u128,
    pub name: String,
    pub comment: Option<String>,
    pub owner: Option<String>,
    pub created_at: i64,
    pub created_by: Option<String>,
    pub updated_at: Option<i64>,
    pub updated_by: Option<String>,
    pub storage_root: Option<String>,
    pub storage_location: Option<String>,
}

impl Clone for CatalogRow {
    fn clone(&self) -> (r: Self)
        ensures
            r == *self,
    {
        CatalogRow {
            id: self.id,
            name: self.name.clone(),
            comment: clone_opt(&self.comment),
            owner: clone_opt(&self.owner),
            created_at: self.created_at,
            created_by: clone_opt(&self.created_by),
            updated_at: self.updated_at,
            updated_by: clone_opt(&self.updated_by),
            storage_root: clone_opt(&self.storage_root),
            storage_location: clone_opt(&self.storage_location),
        }
    }
}

} // verus!
