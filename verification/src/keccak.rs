use vstd::prelude::*;
use sha3::Digest;

verus! {

/// The Keccak-256 digest of a byte sequence. The hash itself is outside
/// code; callers reason about it only through this name.
pub uninterp spec fn keccak256_of(data: Seq<u8>) -> Seq<u8>;

/// Relies on sha3::Keccak256 (through digest::Digest::digest): the
/// Keccak-256 variant (original padding, not the SHA3-256 one), a pure
/// function of its input with a 32-byte output.
#[verifier::external_body]
pub fn keccak256(data: &[u8]) -> (r: Vec<u8>)
    ensures
        r@ == keccak256_of(data@),
        r@.len() == 32,
{
    sha3::Keccak256::digest(data).to_vec()
}

} // verus!
