//! Typed rows, one struct per stored entity kind.

pub mod casbin;
pub mod catalog;
pub mod credential;
pub mod delta;
pub mod external_location;
pub mod function;
pub mod metastore;
pub mod model;
pub mod property;
pub mod schema;
pub mod staging;
pub mod table;
pub mod user;
pub mod volume;

use vstd::prelude::*;

verus! {

/// A copy of an optional string.
pub fn clone_opt(o: &Option<String>) -> (r: Option<String>)
    ensures
        r == *o,
{
    match o {
        Some(s) => Some(s.clone()),
        None => None,
    }
}

} // verus!
