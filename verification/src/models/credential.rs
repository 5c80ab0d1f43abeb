use crate::models::clone_opt;
use vstd::prelude::*;

verus! {

/// A storage credential; `credential` holds its payload as JSON text.
#[derive(Debug)]
pub struct CredentialRow {
    pub id: u128,
    pub name: String,
    pub credential_type: String,
    pub credential: String,
    pub purpose: String,
    pub comment: Option<String>,
    pub owner: Option<String>,
    pub created_at: i64,
    pub created_by: Option<String>,
    pub updated_at: Option<i64>,
    pub updated_by: Option<String>,
}

impl Clone for CredentialRow {
    fn clone(&self) -> (r: Self)
        ensures
            r == *self,
    {
        CredentialRow {
            id: self.id,
            name: self.name.clone(),
            credential_type: self.credential_type.clone(),
            credential: self.credential.clone(),
            purpose: self.purpose.clone(),
            comment: clone_opt(&self.comment),
            owner: clone_opt(&self.owner),
            created_at: self.created_at,
            created_by: clone_opt(&self.created_by),
            updated_at: self.updated_at,
            updated_by: clone_opt(&self.updated_by),
        }
    }
}

} // verus!
