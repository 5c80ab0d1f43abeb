//! Who is making a change: recorded on each commit for provenance.

use vstd::prelude::*;

verus! {

/// The identity behind a commit, as it was when the change was made: the
/// stable id, and the name that was true then.
#[derive(Debug)]
pub struct Actor {
    pub id: Option<u128>,
    pub name: String,
}

impl Actor {
    pub fn new(id: Option<u128>, name: &str) -> (a: Actor)
        ensures
            a.id == id,
            a.name@ == name@,
    {
        Actor { id, name: name.to_string() }
    }
}

impl Clone for Actor {
    fn clone(&self) -> (r: Self)
        ensures
            r == *self,
    {
        Actor { id: self.id, name: self.name.clone() }
    }
}

} // verus!
