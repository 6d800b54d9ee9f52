//! Opaque unique identifiers.

use vstd::prelude::*;

verus! {

/// A unique 64-bit integer identifier. Immutable once assigned; the users
/// repository allocates them and never reuses a value.
#[derive(Debug, Clone, Copy, PartialEq, Eq, Structural, Hash)]
pub struct UniqueId(i64);

impl UniqueId {
    pub fn from_raw(raw: i64) -> (id: Self)
        ensures
            id@ == raw as int,
    {
        Self(raw)
    }

    pub fn raw(&self) -> (raw: i64)
        ensures
            raw as int == self@,
    {
        self.0
    }
}

impl View for UniqueId {
    type V = int;

    closed spec fn view(&self) -> int {
        self.0 as int
    }
}

/// Identifier of a registered user.
pub type UserId = UniqueId;

} // verus!
