use crate::models::clone_opt;
use vstd::prelude::*;

verus! {

/// A registered model.
#[derive(Debug)]
pub struct RegisteredModelRow {
    pub id: u128,
    pub schema_id: u128,
    pub name: String,
    pub owner: Option<String>,
    pub created_at: Option<i64>,
    pub created_by: Option<String>,
    pub updated_at: Option<i64>,
    pub updated_by: Option<String>,
    pub comment: Option<String>,
    pub url: Option<String>,
    pub max_version_number: Option<i32>,
}

impl Clone for RegisteredModelRow {
    fn clone(&self) -> (r: Self)
        ensures
            r == *self,
    {
        RegisteredModelRow {
            id: self.id,
            schema_id: self.schema_id,
            name: self.name.clone(),
            owner: clone_opt(&self.owner),
            created_at: self.created_at,
            created_by: clone_opt(&self.created_by),
            updated_at: self.updated_at,
            updated_by: clone_opt(&self.updated_by),
            comment: clone_opt(&self.comment),
            url: clone_opt(&self.url),
            max_version_number: self.max_version_number,
        }
    }
}

/// One version of a registered model.
#[derive(Debug)]
pub struct ModelVersionRow {
    pub id: u128,
    pub registered_model_id: u128,
    pub version: Option<i32>,
    pub source: Option<String>,
    pub run_id: Option<String>,
    pub status: Option<String>,
    pub owner: Option<String>,
    pub created_at: Option<i64>,
    pub created_by: Option<String>,
    pub updated_at: Option<i64>,
    pub updated_by: Option<String>,
    pub comment: Option<String>,
    pub url: Option<String>,
}

impl Clone for ModelVersionRow {
    fn clone(&self) -> (r: Self)
        ensures
            r == *self,
    {
        ModelVersionRow {
            id: self.id,
            registered_model_id: self.registered_model_id,
            version: self.version,
            source: clone_opt(&self.source),
            run_id: clone_opt(&self.run_id),
            status: clone_opt(&self.status),
            owner: clone_opt(&self.owner),
            created_at: self.created_at,
            created_by: clone_opt(&self.created_by),
            updated_at: self.updated_at,
            updated_by: clone_opt(&self.updated_by),
            comment: clone_opt(&self.comment),
            url: clone_opt(&self.url),
        }
    }
}

} // verus!
