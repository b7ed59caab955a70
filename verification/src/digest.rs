//! The cryptographic digest used to seed the draw. The digest itself is
//! computed by an outside implementation of Keccak-256; this module only
//! names its result, so that the draw's contracts can be exact about
//! everything built on top of it.

use sha3::Digest;
use vstd::prelude::*;

verus! {

/// The Keccak-256 digest of a byte string. The digest is a fixed function
/// of the input bytes alone; nothing further is assumed about its value.
pub uninterp spec fn keccak256_of(input: Seq<u8>) -> Seq<u8>;

/// Relies on `sha3::Keccak256` (through the `Digest` trait): the digest is
/// 32 bytes long and depends on the input bytes alone.
#[verifier::external_body]
pub fn keccak256(input: &Vec<u8>) -> (r: Vec<u8>)
    ensures
        r@ == keccak256_of(input@),
        r@.len() == 32,
{
    sha3::Keccak256::digest(input.as_slice()).to_vec()
}

} // verus!
