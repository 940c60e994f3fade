use vstd::prelude::*;
use sha3::Digest;

verus! {

/// What Keccak-256 returns on a byte sequence: the digest is a function of
/// the input bytes alone.
pub uninterp spec fn keccak_of(s: Seq<u8>) -> Seq<u8>;

/// Relies on sha3's Keccak256: a 32-byte digest of the input, depending on
/// the input bytes alone.
#[verifier::external_body]
pub fn keccak256(input: &[u8]) -> (r: Vec<u8>)
    ensures
        r@ == keccak_of(input@),
        r@.len() == 32,
{
    sha3::Keccak256::digest(input).to_vec()
}

} // verus!
