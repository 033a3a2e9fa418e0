//! A logged-in session of the REST interface.
use vstd::prelude::*;

use crate::text::{chars_of, string_of};

verus! {

/// A session, identified by its token.
pub struct Session {
    token: String,
}

impl View for Session {
    type V = Seq<char>;

    closed spec fn view(&self) -> Seq<char> {
        self.token@
    }
}

impl Session {
    pub fn from_token(token: &str) -> (r: Session)
        ensures
            r@ == token@,
    {
        Session { token: string_of(&chars_of(token)) }
    }

    pub fn token(&self) -> (r: &String)
        ensures
            r@ == self@,
    {
        &self.token
    }
}

} // verus!
