//! Lowercase hex encoding of byte strings, as the wallet-instruction text
//! carries binary payloads.
//!
//! The encoding itself is the `hex` crate's; its output is pinned down
//! exactly: two lowercase digits per byte, high nibble first.
use vstd::prelude::*;

verus! {

/// The lowercase hex digit for a nibble.
pub open spec fn hex_digit(n: u8) -> char
    recommends
        n < 16,
{
    seq![
        '0', '1', '2', '3', '4', '5', '6', '7', '8', '9', 'a', 'b', 'c', 'd', 'e', 'f',
    ][n as int]
}

/// The lowercase hex encoding of a byte string: two digits per byte, high
/// nibble first, in byte order.
pub open spec fn hex_of(bytes: Seq<u8>) -> Seq<char>
    decreases bytes.len(),
{
    if bytes.len() == 0 {
        Seq::<char>::empty()
    } else {
        seq![hex_digit(bytes.first() / 16), hex_digit(bytes.first() % 16)]
            + hex_of(bytes.drop_first())
    }
}

/// Relies on `hex::encode`: it emits exactly two lowercase hex digits per
/// input byte, high nibble first, in byte order.
#[verifier::external_body]
pub fn hex_encode(bytes: &Vec<u8>) -> (r: String)
    ensures
        r@ == hex_of(bytes@),
{
    hex::encode(bytes)
}

} // verus!
