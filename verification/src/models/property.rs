use crate::models::clone_opt;
use vstd::prelude::*;

verus! {

/// One property of an entity.
#[derive(Debug)]
pub struct PropertyRow {
    pub id: u128,
    pub entity_id: u128,
    pub entity_type: String,
    pub property_key: String,
    pub property_value: String,
}

impl Clone for PropertyRow {
    fn clone(&self) -> (r: Self)
        ensures
            r == *self,
    {
        PropertyRow {
            id: self.id,
            entity_id: self.entity_id,
            entity_type: self.entity_type.clone(),
            property_key: self.property_key.clone(),
            property_value: self.property_value.clone(),
        }
    }
}

} // verus!
