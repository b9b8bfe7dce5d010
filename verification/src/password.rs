//! One-way password hashing and verification.
//!
//! The hash is salted, so two hashes of one password differ; what is stable
//! is the relation between a plaintext and a hash, named by
//! [`bcrypt_matches`].

use vstd::prelude::*;

verus! {

/// What bcrypt's verification returns for a plaintext and a hash string:
/// true iff the string is a well-formed bcrypt hash whose digest is the
/// digest of the plaintext under the salt and cost held in the string. A
/// pure function of its two arguments; a malformed hash string matches no
/// plaintext.
pub uninterp spec fn bcrypt_matches(password: Seq<char>, hash: Seq<char>) -> bool;

/// Relies on bcrypt::hash: a freshly salted hash of the password at the
/// crate's default cost. Whatever salt was drawn, the result verifies
/// against the password it was made from; the call fails only if the
/// operating system's randomness does.
#[verifier::external_body]
pub(crate) fn hash_password(password: &str) -> (r: Option<String>)
    ensures
        r matches Some(h) ==> bcrypt_matches(password@, h@),
{
    bcrypt::hash(password, bcrypt::DEFAULT_COST).ok()
}

/// Relies on bcrypt::verify: re-derives the digest of the plaintext under
/// the salt and cost held in the hash string and compares in constant time.
/// A malformed hash string verifies as false rather than as an error.
#[verifier::external_body]
pub(crate) fn verify_password(password: &str, hash: &str) -> (r: bool)
    ensures
        r == bcrypt_matches(password@, hash@),
{
    bcrypt::verify(password, hash).unwrap_or(false)
}

} // verus!
