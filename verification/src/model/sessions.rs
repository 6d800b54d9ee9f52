//! Session tokens.

use vstd::prelude::*;

use crate::model::random::{hex_id, random_hex_32};

verus! {

/// A session token has exactly 32 characters.
pub open spec fn valid_token(s: Seq<char>) -> bool {
    s.len() == 32
}

/// An opaque bearer credential proving a successful prior login: a
/// 32-character random hexadecimal string. Construction from text fails for
/// any string of a different shape, so downstream code never sees a
/// malformed token.
#[derive(Debug)]
pub struct SessionToken {
    token: String,
}

impl View for SessionToken {
    type V = Seq<char>;

    closed spec fn view(&self) -> Seq<char> {
        self.token@
    }
}

impl SessionToken {
    /// Every reachable token value has the valid 32-character shape.
    pub open spec fn wf(&self) -> bool {
        valid_token(self@)
    }

    /// Accepts exactly the strings with the valid token shape.
    pub fn from_str(token: &str) -> (r: Option<SessionToken>)
        ensures
            match r {
                Some(t) => valid_token(token@) && t@ == token@,
                None => !valid_token(token@),
            },
    {
        if !Self::is_valid_token(token) {
            return None;
        }

        Some(Self { token: token.to_owned() })
    }

    /// Draws a fresh random token: the lowercase hexadecimal encoding of
    /// 16 random bytes, so it always has the valid 32-character shape.
    pub fn generate_random() -> (t: SessionToken)
        ensures
            t.wf(),
            hex_id(t@),
    {
        Self { token: random_hex_32() }
    }

    fn is_valid_token(token: &str) -> (r: bool)
        ensures
            r == valid_token(token@),
    {
        // All tokens are of length 32.
        token.unicode_len() == 32
    }

    pub fn as_str(&self) -> (r: &str)
        ensures
            r@ == self@,
    {
        self.token.as_str()
    }
}

} // verus!
