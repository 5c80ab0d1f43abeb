use crate::models::clone_opt;
use crate::text::{eq_ignore_ascii_case, str_eq_ignore_ascii_case};
use vstd::prelude::*;

verus! {

/// A user.
#[derive(Debug)]
pub struct UserRow {
    pub id: u128,
    pub name: String,
    pub email: Option<String>,
    pub external_id: Option<String>,
    pub state: Option<String>,
    pub created_at: Option<i64>,
    pub updated_at: Option<i64>,
    pub picture_url: Option<String>,
}

impl Clone for UserRow {
    fn clone(&self) -> (r: Self)
        ensures
            r == *self,
    {
        UserRow {
            id: self.id,
            name: self.name.clone(),
            email: clone_opt(&self.email),
            external_id: clone_opt(&self.external_id),
            state: clone_opt(&self.state),
            created_at: self.created_at,
            updated_at: self.updated_at,
            picture_url: clone_opt(&self.picture_url),
        }
    }
}

/// Whether a user's state is `ENABLED`, ignoring ASCII case.
pub open spec fn state_is_enabled(state: Option<String>) -> bool {
    match state {
        Some(s) => eq_ignore_ascii_case(s@, "enabled"@),
        None => false,
    }
}

impl UserRow {
    pub fn is_enabled(&self) -> (r: bool)
        ensures
            r == state_is_enabled(self.state),
    {
        match &self.state {
            Some(s) => str_eq_ignore_ascii_case(s.as_str(), "enabled"),
            None => false,
        }
    }
}

} // verus!
