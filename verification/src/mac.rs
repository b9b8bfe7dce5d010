//! Keyed integrity tag over the token payload.

use vstd::prelude::*;

use hmac::Mac;

verus! {

/// The HMAC-SHA-256 tag of a message under a key. The tag is a pure function
/// of these two arguments; no statement is made here about what its bytes
/// are.
pub uninterp spec fn hmac_sha256_of(key: Seq<u8>, msg: Seq<u8>) -> Seq<u8>;

/// Relies on `Hmac::<Sha256>` of the hmac and sha2 crates: computes the
/// 32-byte HMAC-SHA-256 tag of `msg` under `key`. HMAC accepts keys of any
/// length, so the key-setup step cannot fail.
#[verifier::external_body]
pub(crate) fn hmac_sha256(key: &Vec<u8>, msg: &Vec<u8>) -> (r: Vec<u8>)
    ensures
        r@ == hmac_sha256_of(key@, msg@),
        r@.len() == 32,
{
    let mut mac = <hmac::Hmac<sha2::Sha256> as hmac::KeyInit>::new_from_slice(key.as_slice())
        .expect("HMAC accepts keys of any length");
    mac.update(msg.as_slice());
    mac.finalize().into_bytes().to_vec()
}

} // verus!
