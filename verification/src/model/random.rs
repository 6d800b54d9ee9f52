//! Random hexadecimal identifiers.
//!
//! Session tokens and task/category identifiers are 32-character strings
//! obtained by hex-encoding 16 random bytes.

use vstd::prelude::*;

verus! {

/// The sixteen lowercase hexadecimal digit characters, in value order.
pub open spec fn hex_digits() -> Seq<char> {
    seq!['0', '1', '2', '3', '4', '5', '6', '7', '8', '9', 'a', 'b', 'c', 'd', 'e', 'f']
}

/// The lowercase hexadecimal digit for a value below sixteen.
pub open spec fn hex_digit(n: u8) -> char
    recommends
        n < 16,
{
    hex_digits()[n as int]
}

/// The lowercase hexadecimal encoding of a byte sequence: each byte becomes
/// two digits, high nibble first.
pub open spec fn hex_of(bytes: Seq<u8>) -> Seq<char>
    decreases bytes.len(),
{
    if bytes.len() == 0 {
        Seq::empty()
    } else {
        seq![hex_digit(bytes[0] / 16), hex_digit(bytes[0] % 16)] + hex_of(bytes.drop_first())
    }
}

pub proof fn lemma_hex_of_len(bytes: Seq<u8>)
    ensures
        hex_of(bytes).len() == 2 * bytes.len(),
    decreases bytes.len(),
{
    if bytes.len() > 0 {
        lemma_hex_of_len(bytes.drop_first());
    }
}

/// Relies on hex::encode: the result encodes each input byte as two lowercase
/// hexadecimal digits, high nibble first.
#[verifier::external_body]
fn hex_encode(bytes: &[u8]) -> (r: String)
    ensures
        r@ == hex_of(bytes@),
{
    hex::encode(bytes)
}

/// Relies on rand::fill: fills the buffer from the thread-local random
/// generator. Nothing is promised of the values.
#[verifier::external_body]
fn random_bytes_16() -> (r: [u8; 16])
{
    let mut bytes = [0u8; 16];
    rand::fill(&mut bytes[..]);
    bytes
}

/// The shape of every generated identifier and token: the lowercase
/// hexadecimal encoding of 16 bytes, hence exactly 32 characters.
pub open spec fn hex_id(s: Seq<char>) -> bool {
    &&& s.len() == 32
    &&& exists|bytes: Seq<u8>| bytes.len() == 16 && s == hex_of(bytes)
}

/// A freshly drawn 32-character lowercase hexadecimal string.
pub fn random_hex_32() -> (r: String)
    ensures
        r@.len() == 32,
        hex_id(r@),
{
    let bytes = random_bytes_16();
    let r = hex_encode(bytes.as_slice());
    proof {
        lemma_hex_of_len(bytes@);
        assert(bytes@.len() == 16 && r@ == hex_of(bytes@));
    }
    r
}

} // verus!
