//! The identifier codec: a gibbername is the pronounceable encoding of the
//! ledger coordinate (block height, position in block) of its genesis
//! transaction.
//!
//! The word-list coding itself is the `gibbercode` crate's; this module pins
//! its two calls down with names for their results and proves that a
//! coordinate survives the round trip.
use vstd::prelude::*;
use crate::GibberError;

verus! {

/// The string `gibbercode::encode` produces for a pair of numbers.
pub uninterp spec fn gibber_encoding(major: u128, minor: u128) -> Seq<char>;

/// The pair of numbers `gibbercode::decode` reads out of a string.
pub uninterp spec fn gibber_decoding(s: Seq<char>) -> (u128, u128);

/// Relies on `gibbercode::encode`: the result depends on the two numbers
/// alone, and `gibbercode::decode` reads them back — decoding keeps exactly
/// the consonant and vowel digits that encoding emitted, so the two functions
/// invert each other on every pair.
#[verifier::external_body]
fn gibber_encode(major: u128, minor: u128) -> (r: String)
    ensures
        r@ == gibber_encoding(major, minor),
        gibber_decoding(r@) == (major, minor),
{
    gibbercode::encode(major, minor)
}

/// Relies on `gibbercode::decode`: it never fails (bytes outside its two
/// alphabets are ignored) and its result depends on the string alone.
#[verifier::external_body]
fn gibber_decode(s: &str) -> (r: (u128, u128))
    ensures
        r == gibber_decoding(s@),
{
    gibbercode::decode(s)
}

/// Encodes a ledger coordinate as a gibbername.
pub fn encode_gibbername(height: u64, index: u32) -> (r: String)
    ensures
        r@ == gibber_encoding(height as u128, index as u128),
        gibber_decoding(r@) == (height as u128, index as u128),
{
    gibber_encode(height as u128, index as u128)
}

/// Decodes a gibbername back into a ledger coordinate.
///
/// A string whose decoding lies outside the coordinate space the ledger can
/// produce names no transaction, and is rejected as an invalid identifier.
pub fn decode_gibbername(gname: &str) -> (r: Result<(u64, u32), GibberError>)
    ensures
        r is Ok <==> gibber_decoding(gname@).0 <= u64::MAX
            && gibber_decoding(gname@).1 <= u32::MAX,
        r matches Ok(c) ==> gibber_decoding(gname@) == (c.0 as u128, c.1 as u128),
        r is Err ==> r == Err::<(u64, u32), GibberError>(GibberError::InvalidIdentifier),
{
    let (major, minor) = gibber_decode(gname);
    if major <= u64::MAX as u128 && minor <= u32::MAX as u128 {
        Ok((major as u64, minor as u32))
    } else {
        Err(GibberError::InvalidIdentifier)
    }
}

/// Encoding a coordinate and decoding the result gives the coordinate back:
/// the codec never aliases two coordinates to one name.
pub fn codec_round_trip(height: u64, index: u32) -> (r: (u64, u32))
    ensures
        r == (height, index),
{
    let gname = encode_gibbername(height, index);
    let decoded = decode_gibbername(gname.as_str());
    match decoded {
        Ok(coord) => coord,
        Err(_) => {
            proof {
                assert(false);
            }
            (height, index)
        },
    }
}

} // verus!
