//! Cryptographic primitives behind the envelope checks: SHA-256 digests,
//! secp256k1 key and signature parsing, and ECDSA verification.
//!
//! The curve and hash computations come from outside crates; each is named by
//! an uninterpreted function of its input bytes alone, so everything proved
//! about the callers holds of whatever those crates return.

use vstd::prelude::*;

use secp256k1::ecdsa::Signature;
use secp256k1::{Message, PublicKey};
use sha2::{Digest, Sha256};

verus! {

/// A failure in one of the curve operations.
#[derive(Clone, Copy, Debug, PartialEq, Eq)]
pub enum CryptoError {
    /// The public-key bytes do not encode a curve point.
    PubkeyDeserialization,
    /// The signature bytes do not encode a compact ECDSA signature.
    SigDeserialization,
    /// The signature does not verify over the digest under the key.
    Verification,
}

/// A failure while validating an authorization wrapper.
#[derive(Clone, Copy, Debug, PartialEq, Eq)]
pub enum ValidationError {
    /// The declared signature scheme is not supported.
    KeyType,
    /// A 32-byte declared payload digest does not match the payload.
    Preimage,
    /// The wrapper carries no payload.
    EmptyPayload,
    /// A curve operation failed.
    Crypto(CryptoError),
}

impl CryptoError {
    /// Folds this error into a [`ValidationError`].
    pub fn into_validation(self) -> (r: ValidationError)
        ensures
            r == ValidationError::Crypto(self),
    {
        ValidationError::Crypto(self)
    }
}

/// The SHA-256 digest of a byte sequence.
pub uninterp spec fn sha256_of(data: Seq<u8>) -> Seq<u8>;

/// Whether a byte sequence encodes a valid secp256k1 public key.
pub uninterp spec fn is_valid_pubkey(b: Seq<u8>) -> bool;

/// Whether a byte sequence encodes a compact ECDSA signature.
pub uninterp spec fn is_valid_signature(b: Seq<u8>) -> bool;

/// Whether the signature encoded by `sig` verifies over the 32-byte message
/// `msg` under the public key encoded by `pk`.
pub uninterp spec fn ecdsa_verifies(pk: Seq<u8>, sig: Seq<u8>, msg: Seq<u8>) -> bool;

/// Relies on sha2::Sha256::digest: the digest is a function of the input
/// bytes alone and is always 32 bytes long.
#[verifier::external_body]
pub(crate) fn sha256(data: &Vec<u8>) -> (r: Vec<u8>)
    ensures
        r@ == sha256_of(data@),
        r@.len() == 32,
{
    Sha256::digest(data.as_slice()).to_vec()
}

/// Relies on secp256k1::PublicKey::from_slice: it returns `Ok` exactly on
/// byte runs that encode a valid curve point.
#[verifier::external_body]
pub(crate) fn check_public_key(b: &Vec<u8>) -> (r: bool)
    ensures
        r == is_valid_pubkey(b@),
{
    PublicKey::from_slice(b.as_slice()).is_ok()
}

/// Relies on secp256k1::ecdsa::Signature::from_compact: it returns `Ok`
/// exactly on byte runs that encode a compact ECDSA signature.
#[verifier::external_body]
pub(crate) fn check_signature(b: &Vec<u8>) -> (r: bool)
    ensures
        r == is_valid_signature(b@),
{
    Signature::from_compact(b.as_slice()).is_ok()
}

/// Relies on secp256k1::ecdsa::verify (with PublicKey::from_slice,
/// Signature::from_compact and Message::from_digest to rebuild the values):
/// verification is deterministic in the key, signature and message bytes.
#[verifier::external_body]
pub(crate) fn verify_ecdsa(pk: &Vec<u8>, sig: &Vec<u8>, msg: &Vec<u8>) -> (r: bool)
    requires
        is_valid_pubkey(pk@),
        is_valid_signature(sig@),
        msg@.len() == 32,
    ensures
        r == ecdsa_verifies(pk@, sig@, msg@),
{
    let pk = PublicKey::from_slice(pk.as_slice()).unwrap();
    let sig = Signature::from_compact(sig.as_slice()).unwrap();
    let digest: [u8; 32] = msg.as_slice().try_into().unwrap();
    let msg = Message::from_digest(digest);
    secp256k1::ecdsa::verify(&sig, msg, &pk).is_ok()
}

} // verus!
