//! SCALE encodings of the values that token ids are derived from.
use parity_scale_codec::Encode;
use vstd::prelude::*;

verus! {

/// The four bytes of `n`, least significant first.
pub open spec fn le_bytes_u32(n: u32) -> Seq<u8> {
    seq![
        (n % 256) as u8,
        ((n / 256) % 256) as u8,
        ((n / 65536) % 256) as u8,
        (n / 16777216) as u8,
    ]
}

/// Calls `<u32 as parity_scale_codec::Encode>::encode`. The crate writes a
/// `u32` as `to_le_bytes`: four bytes, least significant first.
#[verifier::external_body]
pub(crate) fn scale_encode_u32(n: u32) -> (r: Vec<u8>)
    ensures
        r@ == le_bytes_u32(n),
{
    n.encode()
}

/// Calls `<[u8; 32] as parity_scale_codec::Encode>::encode`. The crate writes
/// a fixed-size array of bytes as those bytes, with no length in front.
#[verifier::external_body]
pub(crate) fn scale_encode_bytes32(a: &[u8; 32]) -> (r: Vec<u8>)
    ensures
        r@ == a@,
{
    a.encode()
}

} // verus!
