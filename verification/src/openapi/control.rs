//! Request and response shapes of the user and token exchange API.

use vstd::prelude::*;

verus! {

#[derive(Debug)]
pub struct OAuthTokenExchangeForm {
    pub grant_type: String,
    pub subject_token: String,
    pub subject_token_type: String,
    pub requested_token_type: Option<String>,
    pub scope: Option<String>,
    pub actor_token: Option<String>,
    pub actor_token_type: Option<String>,
}

#[derive(Debug)]
pub struct OAuthTokenExchangeResponse {
    pub access_token: String,
    pub token_type: String,
    pub expires_in: Option<i64>,
    pub scope: Option<String>,
    pub issued_token_type: String,
}

#[derive(Debug, Clone, Copy, PartialEq, Eq, Structural)]
pub enum UserState {
    Enabled,
    Disabled,
}

#[derive(Debug)]
pub struct ScimEmail {
    pub value: String,
    pub primary: Option<bool>,
    pub email_type: Option<String>,
}

#[derive(Debug)]
pub struct ScimName {
    pub given_name: Option<String>,
    pub family_name: Option<String>,
}

#[derive(Debug)]
pub struct UserResource {
    pub id: Option<String>,
    pub user_name: String,
    pub display_name: Option<String>,
    pub emails: Option<Vec<ScimEmail>>,
    pub name: Option<ScimName>,
    pub active: Option<bool>,
    pub external_id: Option<String>,
}

#[derive(Debug)]
pub struct UserResourceList {
    pub resources: Vec<UserResource>,
    pub total_results: i32,
    pub start_index: i32,
    pub items_per_page: i32,
    pub schemas: Vec<String>,
}

#[derive(Debug)]
pub struct ScimPatchOp {
    pub schemas: Vec<String>,
    pub operations: Vec<ScimPatchOperation>,
}

#[derive(Debug)]
pub struct ScimPatchOperation {
    pub op: String,
    pub path: Option<String>,
    pub value: Option<serde_json::Value>,
}

} // verus!
