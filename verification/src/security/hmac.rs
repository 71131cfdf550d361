//! Keyed message digests.

use hmac::Mac;
use vstd::prelude::*;
use vstd::string::StringSliceAdditionalSpecFns;

verus! {

/// The HMAC-SHA256 digest of `message` under `key`, as
/// `hmac::Hmac<sha2::Sha256>` computes it.
pub uninterp spec fn hmac_sha256(key: Seq<u8>, message: Seq<u8>) -> Seq<u8>;

/// Computes the HMAC-SHA256 digest with `hmac::Hmac<sha2::Sha256>`, through
/// `Mac::new_from_slice`, `Mac::update` and `Mac::verify_slice`, and says
/// whether `tag` is that digest. The key may have any length; the comparison
/// holds only for a tag of the digest's length that agrees with it in every
/// byte, and takes the same time whatever the tag.
#[verifier::external_body]
fn hmac_sha256_verify(key: &[u8], message: &[u8], tag: &[u8]) -> (valid: bool)
    ensures
        valid == (tag@ == hmac_sha256(key@, message@)),
{
    match hmac::Hmac::<sha2::Sha256>::new_from_slice(key) {
        Ok(mut mac) => {
            mac.update(message);
            mac.verify_slice(tag).is_ok()
        },
        Err(_) => false,
    }
}

/// Whether `digest` is the HMAC-SHA256 digest of `message` under the bytes of
/// `secret`. A message that could not be read has no valid digest.
pub fn check_hmac_sha256(secret: &str, message: Option<&[u8]>, digest: &[u8]) -> (valid: bool)
    ensures
        valid == (message matches Some(bytes) && digest@ == hmac_sha256(
            secret.spec_bytes(),
            bytes@,
        )),
{
    match message {
        Some(bytes) => hmac_sha256_verify(secret.as_bytes(), bytes, digest),
        None => false,
    }
}

} // verus!
