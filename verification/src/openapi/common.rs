//! Shapes shared by several endpoints.

use vstd::prelude::*;

verus! {

/// Generic paginated list wrapper used by several list endpoints.
#[derive(Debug)]
pub struct PagedList<T> {
    pub items_field: T,
    pub next_page_token: Option<String>,
}

/// A JSON value carried through unchanged: free-form metadata, credential
/// configuration and metric reports, which nothing here reads.
#[verifier::external_type_specification]
#[verifier::external_body]
pub struct ExJsonValue(serde_json::Value);

} // verus!
