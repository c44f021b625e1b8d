//! Users with a linked Last.fm account.

use vstd::prelude::*;

verus! {

/// A Discord user who linked a Last.fm account: the user's id and the Last.fm session key.
pub struct User {
    pub id: i64,
    pub token: String,
}

impl User {
    pub fn new(id: i64, token: String) -> (u: Self)
        ensures
            u.id == id,
            u.token@ == token@,
    {
        Self { id, token }
    }
}

} // verus!
