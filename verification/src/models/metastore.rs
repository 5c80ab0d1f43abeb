use crate::models::clone_opt;
use vstd::prelude::*;

verus! {

/// The singleton metastore.
#[derive(Debug)]
pub struct MetastoreRow {
    pub id: u128,
    pub name: String,
}

impl Clone for MetastoreRow {
    fn clone(&self) -> (r: Self)
        ensures
            r == *self,
    {
        MetastoreRow {
            id: self.id,
            name: self.name.clone(),
        }
    }
}

} // verus!
