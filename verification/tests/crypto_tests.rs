use keyserver::crypto::{CryptoError, ValidationError};
use keyserver::net::PutMetadataError;
use keyserver::token::commitment;
use keyserver::wrapper::AuthWrapper;
use sha2::Digest;

/// A wrapper whose payload is genuinely signed by the embedded key.
fn signed_wrapper(payload: Vec<u8>) -> AuthWrapper {
    let sk = secp256k1::SecretKey::from_secret_bytes([7u8; 32]).unwrap();
    let pk = secp256k1::PublicKey::from_secret_key(&sk);
    let digest: [u8; 32] = sha2::Sha256::digest(&payload).as_slice().try_into().unwrap();
    let msg = secp256k1::Message::from_digest(digest);
    let sig = secp256k1::ecdsa::sign(msg, &sk);
    AuthWrapper {
        public_key: pk.serialize().to_vec(),
        signature: sig.serialize_compact().to_vec(),
        scheme: 1,
        payload,
        payload_digest: vec![],
    }
}

#[test]
fn parse_and_verify_accept_a_signed_wrapper() {
    let w = signed_wrapper(b"hello metadata".to_vec());
    let parsed = w.parse().unwrap();
    assert!(parsed.verify().is_ok());
    // verification is a function of the wrapper alone: a second run agrees
    let parsed_again = w.parse().unwrap();
    assert!(parsed_again.verify().is_ok());
}

#[test]
fn verify_rejects_a_tampered_payload() {
    let mut w = signed_wrapper(b"hello metadata".to_vec());
    w.payload[0] ^= 1;
    let parsed = w.parse().unwrap();
    assert_eq!(parsed.verify(), Err(CryptoError::Verification));
}

#[test]
fn parse_rejects_unsupported_scheme() {
    let mut w = signed_wrapper(b"x".to_vec());
    w.scheme = 2;
    assert_eq!(w.parse().unwrap_err(), ValidationError::KeyType);
    // and an unsupported scheme on a write surfaces as 501
    let e = PutMetadataError::InvalidAuthWrapper(ValidationError::KeyType);
    assert_eq!(e.to_status(), 501);
}

#[test]
fn parse_rejects_bad_public_key() {
    let mut w = signed_wrapper(b"x".to_vec());
    w.public_key = vec![0u8; 33];
    assert_eq!(
        w.parse().unwrap_err(),
        ValidationError::Crypto(CryptoError::PubkeyDeserialization)
    );
}

#[test]
fn parse_rejects_bad_signature_encoding() {
    let mut w = signed_wrapper(b"x".to_vec());
    w.signature = vec![0xFFu8; 63];
    assert_eq!(
        w.parse().unwrap_err(),
        ValidationError::Crypto(CryptoError::SigDeserialization)
    );
}

#[test]
fn declared_digest_must_match_payload() {
    // correct declared digest: accepted
    let mut w = signed_wrapper(b"abc".to_vec());
    let digest = sha2::Sha256::digest(b"abc").to_vec();
    w.payload_digest = digest.clone();
    assert!(w.parse().is_ok());

    // a 32-byte declared digest that mismatches: rejected
    let mut bad = digest.clone();
    bad[0] ^= 1;
    w.payload_digest = bad;
    assert_eq!(w.parse().unwrap_err(), ValidationError::Preimage);

    // any other length is treated as absent and the digest recomputed
    w.payload_digest = vec![1, 2, 3];
    let parsed = w.parse().unwrap();
    assert_eq!(parsed.payload_digest, digest);
    assert!(parsed.verify().is_ok());
}

#[test]
fn commitment_is_the_sha256_of_the_preimage() {
    // SHA-256 of the empty preimage, as the standard gives it
    let expected: [u8; 32] = [
        0xe3, 0xb0, 0xc4, 0x42, 0x98, 0xfc, 0x1c, 0x14, 0x9a, 0xfb, 0xf4, 0xc8, 0x99, 0x6f, 0xb9,
        0x24, 0x27, 0xae, 0x41, 0xe4, 0x64, 0x9b, 0x93, 0x4c, 0xa4, 0x95, 0x99, 0x1b, 0x78, 0x52,
        0xb8, 0x55,
    ];
    assert_eq!(commitment(&vec![], &vec![]), expected.to_vec());

    // and a non-empty preimage agrees with an independent digest
    let pk = vec![0x11u8; 32];
    let md = vec![0x22u8; 32];
    let mut preimage = pk.clone();
    preimage.extend_from_slice(&md);
    let independent = sha2::Sha256::digest(&preimage).to_vec();
    assert_eq!(commitment(&pk, &md), independent);
}
