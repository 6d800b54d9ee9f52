//! Small text helpers.

use vstd::prelude::*;

verus! {

/// Character-for-character equality of two string slices. The comparison
/// goes through owned strings, whose equality vstd specifies.
pub fn str_eq(a: &str, b: &str) -> (r: bool)
    ensures
        r == (a@ == b@),
{
    let owned_a = a.to_owned();
    let owned_b = b.to_owned();
    owned_a == owned_b
}

} // verus!
