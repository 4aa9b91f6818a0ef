//! The one piece of serialization this crate performs itself: root
//! identifiers written into genesis storage are SCALE-encoded, as fixed-width
//! integers, by the codec the surrounding ecosystem uses.

use vstd::prelude::*;

verus! {

/// The little-endian bytes of a 64-bit integer.
pub open spec fn u64_le_bytes(x: u64) -> Seq<u8> {
    seq![
        (x & 0xff) as u8,
        ((x >> 8) & 0xff) as u8,
        ((x >> 16) & 0xff) as u8,
        ((x >> 24) & 0xff) as u8,
        ((x >> 32) & 0xff) as u8,
        ((x >> 40) & 0xff) as u8,
        ((x >> 48) & 0xff) as u8,
        ((x >> 56) & 0xff) as u8,
    ]
}

/// Relies on parity_scale_codec::Encode::encode for u64: SCALE encodes a
/// fixed-width integer as exactly its little-endian bytes.
#[verifier::external_body]
pub fn encode_u64(x: u64) -> (r: Vec<u8>)
    ensures
        r@ == u64_le_bytes(x),
        r@.len() == 8,
{
    parity_scale_codec::Encode::encode(&x)
}

} // verus!
