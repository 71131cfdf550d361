//! Signatures that prove who sent a request.

pub mod hmac;

use crate::security::hmac::{check_hmac_sha256, hmac_sha256};
use vstd::prelude::*;
use vstd::string::StringSliceAdditionalSpecFns;

verus! {

/// The digest that a request claims for its body.
#[derive(Debug)]
pub enum Signature {
    /// An HMAC-SHA256 digest of 32 bytes, sent in hexadecimal.
    HS256Hex([u8; 32]),
}

/// What a `Signature` stands for.
pub enum SignatureView {
    HS256Hex(Seq<u8>),
}

impl View for Signature {
    type V = SignatureView;

    open spec fn view(&self) -> SignatureView {
        match self {
            Signature::HS256Hex(digest) => SignatureView::HS256Hex(digest@),
        }
    }
}

impl SignatureView {
    /// Whether the signature is the digest of `message` under `secret`.
    pub open spec fn signs(self, secret: Seq<u8>, message: Seq<u8>) -> bool {
        match self {
            SignatureView::HS256Hex(digest) => digest == hmac_sha256(secret, message),
        }
    }
}

impl Signature {
    /// Whether the signature is that of `message` under `secret`. A message
    /// that could not be read matches no signature.
    pub fn matches(&self, secret: &str, message: Option<&[u8]>) -> (valid: bool)
        ensures
            valid == (message matches Some(bytes) && self@.signs(secret.spec_bytes(), bytes@)),
    {
        match self {
            Signature::HS256Hex(digest) => check_hmac_sha256(secret, message, digest.as_slice()),
        }
    }
}

/// Of two different signatures at most one is that of a given message under
/// a given secret: changing any bit of a valid signature makes it invalid.
pub proof fn lemma_altered_signature_fails(
    valid: SignatureView,
    altered: SignatureView,
    secret: Seq<u8>,
    message: Seq<u8>,
)
    requires
        valid.signs(secret, message),
        altered != valid,
    ensures
        !altered.signs(secret, message),
{
}

} // verus!
