use vstd::prelude::*;

use sha3::Digest;

use crate::text::hex_of;

verus! {

/// The Keccak-256 digest of a byte string. The digest itself takes pages to
/// state; it is a function of the input bytes alone, so it only carries this
/// name here.
pub uninterp spec fn keccak256_of(data: Seq<u8>) -> Seq<u8>;

/// Relies on `sha3::Keccak256` through `Digest::digest`: the Keccak-256
/// digest of the input, 32 bytes, depending on the input bytes alone.
#[verifier::external_body]
pub(crate) fn keccak256(data: &[u8]) -> (r: Vec<u8>)
    ensures
        r@ == keccak256_of(data@),
        r@.len() == 32,
{
    sha3::Keccak256::digest(data).to_vec()
}

/// Relies on `hex::encode`: the lowercase hexadecimal rendering of the input
/// bytes, two digits per byte in byte order.
#[verifier::external_body]
pub(crate) fn hex_encode(data: &[u8]) -> (r: String)
    ensures
        r@ == hex_of(data@),
{
    hex::encode(data)
}

} // verus!
