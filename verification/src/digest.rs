//! Hashing and randomness from outside crates, behind trusted wrappers.

use vstd::prelude::*;
use sha2::Digest;
use getrandom::Error as RandomError;

verus! {

/// What SHA-256 (`sha2::Sha256`) gives for a sequence of bytes.
pub uninterp spec fn sha256_digest(data: Seq<u8>) -> Seq<u8>;

/// Calls `sha2::Sha256::digest`: the result is the SHA-256 digest of the
/// data, whose output size in that crate is 32 bytes.
#[verifier::external_body]
pub(crate) fn sha256(data: &[u8]) -> (r: Vec<u8>)
    ensures
        r@ == sha256_digest(data@),
        r@.len() == 32,
{
    sha2::Sha256::digest(data).to_vec()
}

#[verifier::external_type_specification]
#[verifier::external_body]
pub struct ExRandomError(RandomError);

/// Calls `getrandom::getrandom`, which fills the buffer from the operating
/// system's random source or reports that it could not; what the buffer
/// holds afterwards is left unsaid, only that its length is unchanged.
#[verifier::external_body]
pub(crate) fn fill_random(buf: &mut Vec<u8>) -> (r: Result<(), RandomError>)
    ensures
        final(buf)@.len() == old(buf)@.len(),
{
    getrandom::getrandom(buf.as_mut_slice())
}

} // verus!
