use crate::models::clone_opt;
use vstd::prelude::*;

verus! {

/// An external location: a URL prefix governed by a credential.
#[derive(Debug)]
pub struct ExternalLocationRow {
    pub id: u128,
    pub name: String,
    pub url: String,
    pub comment: Option<String>,
    pub owner: Option<String>,
    pub credential_id: u128,
    pub created_at: Option<i64>,
    pub created_by: Option<String>,
    pub updated_at: Option<i64>,
    pub updated_by: Option<String>,
}

impl Clone for ExternalLocationRow {
    fn clone(&self) -> (r: Self)
        ensures
            r == *self,
    {
        ExternalLocationRow {
            id: self.id,
            name: self.name.clone(),
            url: self.url.clone(),
            comment: clone_opt(&self.comment),
            owner: clone_opt(&self.owner),
            credential_id: self.credential_id,
            created_at: self.created_at,
            created_by: clone_opt(&self.created_by),
            updated_at: self.updated_at,
            updated_by: clone_opt(&self.updated_by),
        }
    }
}

} // verus!
