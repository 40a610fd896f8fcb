//! The authorization wrapper: the signed envelope that binds an opaque
//! metadata payload to a public key.
//!
//! This module holds the envelope's wire codec. Parsing and signature
//! checking live in `verify`.

use vstd::prelude::*;

use crate::codec::{
    bytes_eq, decode_bytes_field, decode_varint_field, encode_bytes_field, encode_varint_field,
    lemma_bytes_field_roundtrip, lemma_varint_field_roundtrip, spec_bytes_field,
    spec_bytes_field_decode, spec_varint_field, spec_varint_field_decode,
};
use crate::crypto::{
    check_public_key, check_signature, ecdsa_verifies, is_valid_pubkey, is_valid_signature,
    sha256, sha256_of, verify_ecdsa, CryptoError, ValidationError,
};

verus! {

/// Tag of the `public_key` field: field 1, length-delimited.
pub const TAG_PUBLIC_KEY: u8 = 10;

/// Tag of the `signature` field: field 2, length-delimited.
pub const TAG_SIGNATURE: u8 = 18;

/// Tag of the `scheme` field: field 3, varint.
pub const TAG_SCHEME: u8 = 24;

/// Tag of the `payload` field: field 4, length-delimited.
pub const TAG_PAYLOAD: u8 = 34;

/// Tag of the `payload_digest` field: field 5, length-delimited.
pub const TAG_PAYLOAD_DIGEST: u8 = 42;

/// The signature scheme an envelope declares; only ECDSA is supported.
pub const SCHEME_ECDSA: u64 = 1;

/// The signed metadata envelope, as decoded from the wire.
#[derive(Clone, Debug, PartialEq, Eq)]
pub struct AuthWrapper {
    /// Raw bytes of a secp256k1 curve point.
    pub public_key: Vec<u8>,
    /// Raw signature bytes; compact ECDSA under the supported scheme.
    pub signature: Vec<u8>,
    /// Declared signature scheme.
    pub scheme: u64,
    /// The caller-supplied metadata, opaque to the server.
    pub payload: Vec<u8>,
    /// Optional SHA-256 of `payload`; meaningful only when 32 bytes long.
    pub payload_digest: Vec<u8>,
}

/// The mathematical value of an [`AuthWrapper`].
pub struct AuthWrapperView {
    /// Raw bytes of the curve point.
    pub public_key: Seq<u8>,
    /// Raw signature bytes.
    pub signature: Seq<u8>,
    /// Declared signature scheme.
    pub scheme: u64,
    /// The metadata payload.
    pub payload: Seq<u8>,
    /// The declared payload digest.
    pub payload_digest: Seq<u8>,
}

impl View for AuthWrapper {
    type V = AuthWrapperView;

    open spec fn view(&self) -> AuthWrapperView {
        AuthWrapperView {
            public_key: self.public_key@,
            signature: self.signature@,
            scheme: self.scheme,
            payload: self.payload@,
            payload_digest: self.payload_digest@,
        }
    }
}

/// Whether every field of `v` fits the wire format's length prefixes.
pub open spec fn wrapper_fits(v: AuthWrapperView) -> bool {
    &&& v.public_key.len() <= u64::MAX
    &&& v.signature.len() <= u64::MAX
    &&& v.payload.len() <= u64::MAX
    &&& v.payload_digest.len() <= u64::MAX
}

/// The canonical encoding of an envelope: its five fields in ascending tag
/// order.
pub open spec fn spec_wrapper_encode(v: AuthWrapperView) -> Seq<u8> {
    spec_bytes_field(TAG_PUBLIC_KEY, v.public_key) + spec_bytes_field(TAG_SIGNATURE, v.signature)
        + spec_varint_field(TAG_SCHEME, v.scheme) + spec_bytes_field(TAG_PAYLOAD, v.payload)
        + spec_bytes_field(TAG_PAYLOAD_DIGEST, v.payload_digest)
}

/// The envelope that decoding `s` yields, or `None` where `s` is not a
/// canonical encoding.
pub open spec fn spec_wrapper_decode(s: Seq<u8>) -> Option<AuthWrapperView> {
    match spec_bytes_field_decode(s, TAG_PUBLIC_KEY) {
        None => None,
        Some((public_key, n1)) => match spec_bytes_field_decode(s.skip(n1), TAG_SIGNATURE) {
            None => None,
            Some((signature, n2)) => match spec_varint_field_decode(s.skip(n1 + n2), TAG_SCHEME) {
                None => None,
                Some((scheme, n3)) => match spec_bytes_field_decode(
                    s.skip(n1 + n2 + n3),
                    TAG_PAYLOAD,
                ) {
                    None => None,
                    Some((payload, n4)) => match spec_bytes_field_decode(
                        s.skip(n1 + n2 + n3 + n4),
                        TAG_PAYLOAD_DIGEST,
                    ) {
                        None => None,
                        Some((payload_digest, n5)) => {
                            if n1 + n2 + n3 + n4 + n5 == s.len() {
                                Some(
                                    AuthWrapperView {
                                        public_key,
                                        signature,
                                        scheme,
                                        payload,
                                        payload_digest,
                                    },
                                )
                            } else {
                                None
                            }
                        },
                    },
                },
            },
        },
    }
}

impl AuthWrapper {
    /// Serializes the envelope into its canonical wire form.
    pub fn encode(&self) -> (r: Vec<u8>)
        ensures
            r@ == spec_wrapper_encode(self@),
    {
        let mut out: Vec<u8> = Vec::new();
        encode_bytes_field(TAG_PUBLIC_KEY, &self.public_key, &mut out);
        encode_bytes_field(TAG_SIGNATURE, &self.signature, &mut out);
        encode_varint_field(TAG_SCHEME, self.scheme, &mut out);
        encode_bytes_field(TAG_PAYLOAD, &self.payload, &mut out);
        encode_bytes_field(TAG_PAYLOAD_DIGEST, &self.payload_digest, &mut out);
        proof {
            assert(out@ =~= spec_wrapper_encode(self@));
        }
        out
    }

    /// Decodes an envelope from its wire form; `None` where the bytes are
    /// not a canonical encoding.
    pub fn decode(buf: &Vec<u8>) -> (r: Option<AuthWrapper>)
        ensures
            match spec_wrapper_decode(buf@) {
                None => r is None,
                Some(v) => r is Some && r.unwrap()@ == v,
            },
    {
        let ghost s = buf@;
        proof {
            assert(s.skip(0) =~= s);
        }
        let (public_key, p1) = match decode_bytes_field(buf, 0, TAG_PUBLIC_KEY) {
            None => {
                return None;
            },
            Some(x) => x,
        };
        let (signature, p2) = match decode_bytes_field(buf, p1, TAG_SIGNATURE) {
            None => {
                return None;
            },
            Some(x) => x,
        };
        let (scheme, p3) = match decode_varint_field(buf, p2, TAG_SCHEME) {
            None => {
                return None;
            },
            Some(x) => x,
        };
        let (payload, p4) = match decode_bytes_field(buf, p3, TAG_PAYLOAD) {
            None => {
                return None;
            },
            Some(x) => x,
        };
        let (payload_digest, p5) = match decode_bytes_field(buf, p4, TAG_PAYLOAD_DIGEST) {
            None => {
                return None;
            },
            Some(x) => x,
        };
        if p5 == buf.len() {
            Some(
                AuthWrapper {
                    public_key,
                    signature,
                    scheme,
                    payload,
                    payload_digest,
                },
            )
        } else {
            None
        }
    }
}

/// An envelope whose key and signature parsed, with the digest that the
/// signature is checked over.
#[derive(Clone, Debug)]
pub struct ParsedWrapper {
    /// Validated curve-point bytes.
    pub public_key: Vec<u8>,
    /// Validated compact-signature bytes.
    pub signature: Vec<u8>,
    /// The 32-byte SHA-256 digest of the payload: the declared one where it
    /// was declared and correct, the computed one otherwise.
    pub payload_digest: Vec<u8>,
}

/// The mathematical value of a [`ParsedWrapper`].
pub struct ParsedWrapperView {
    /// Validated curve-point bytes.
    pub public_key: Seq<u8>,
    /// Validated compact-signature bytes.
    pub signature: Seq<u8>,
    /// The digest the signature is checked over.
    pub payload_digest: Seq<u8>,
}

impl View for ParsedWrapper {
    type V = ParsedWrapperView;

    open spec fn view(&self) -> ParsedWrapperView {
        ParsedWrapperView {
            public_key: self.public_key@,
            signature: self.signature@,
            payload_digest: self.payload_digest@,
        }
    }
}

/// Well-formedness of a parsed wrapper: key and signature are valid and the
/// digest is 32 bytes.
pub open spec fn parsed_wf(p: ParsedWrapperView) -> bool {
    &&& is_valid_pubkey(p.public_key)
    &&& is_valid_signature(p.signature)
    &&& p.payload_digest.len() == 32
}

/// The digest that validation checks the signature over: the declared digest
/// where it is 32 bytes, the payload's own SHA-256 otherwise.
pub open spec fn spec_effective_digest(v: AuthWrapperView) -> Seq<u8> {
    if v.payload_digest.len() == 32 {
        v.payload_digest
    } else {
        sha256_of(v.payload)
    }
}

/// What parsing an envelope yields, for every envelope: the checks in order,
/// each with the error it fails with.
pub open spec fn spec_parse(v: AuthWrapperView) -> Result<ParsedWrapperView, ValidationError> {
    if !is_valid_pubkey(v.public_key) {
        Err(ValidationError::Crypto(CryptoError::PubkeyDeserialization))
    } else if v.scheme != SCHEME_ECDSA {
        Err(ValidationError::KeyType)
    } else if !is_valid_signature(v.signature) {
        Err(ValidationError::Crypto(CryptoError::SigDeserialization))
    } else if v.payload_digest.len() == 32 && v.payload_digest != sha256_of(v.payload) {
        Err(ValidationError::Preimage)
    } else {
        Ok(
            ParsedWrapperView {
                public_key: v.public_key,
                signature: v.signature,
                payload_digest: spec_effective_digest(v),
            },
        )
    }
}

/// Whether a parsed wrapper's signature verifies.
pub open spec fn spec_verify(p: ParsedWrapperView) -> bool {
    ecdsa_verifies(p.public_key, p.signature, p.payload_digest)
}

impl AuthWrapper {
    /// Parses the envelope: the public key must be a curve point, the scheme
    /// the supported one, the signature compact ECDSA, and a declared 32-byte
    /// payload digest must match the payload. Pure: the result is a function
    /// of the envelope alone.
    pub fn parse(&self) -> (r: Result<ParsedWrapper, ValidationError>)
        ensures
            match spec_parse(self@) {
                Ok(p) => r is Ok && r.unwrap()@ == p && parsed_wf(r.unwrap()@),
                Err(e) => r is Err && r.unwrap_err() == e,
            },
    {
        if !check_public_key(&self.public_key) {
            return Err(ValidationError::Crypto(CryptoError::PubkeyDeserialization));
        }
        if self.scheme != SCHEME_ECDSA {
            return Err(ValidationError::KeyType);
        }
        if !check_signature(&self.signature) {
            return Err(ValidationError::Crypto(CryptoError::SigDeserialization));
        }
        let computed = sha256(&self.payload);
        let payload_digest = if self.payload_digest.len() == 32 {
            if !bytes_eq(&self.payload_digest, &computed) {
                return Err(ValidationError::Preimage);
            }
            self.payload_digest.clone()
        } else {
            computed
        };
        Ok(
            ParsedWrapper {
                public_key: self.public_key.clone(),
                signature: self.signature.clone(),
                payload_digest,
            },
        )
    }
}

impl ParsedWrapper {
    /// Checks the ECDSA signature over the payload digest under the public
    /// key. Pure: the outcome is a function of the parsed wrapper alone,
    /// independent of clock and environment.
    pub fn verify(&self) -> (r: Result<(), CryptoError>)
        requires
            parsed_wf(self@),
        ensures
            r is Ok <==> spec_verify(self@),
            r is Err ==> r.unwrap_err() == CryptoError::Verification,
    {
        if verify_ecdsa(&self.public_key, &self.signature, &self.payload_digest) {
            Ok(())
        } else {
            Err(CryptoError::Verification)
        }
    }
}

/// Decoding a canonically encoded envelope gives back the envelope, so a
/// re-encoding gives back the bytes: for every `bytes` produced by `encode`,
/// `encode(decode(bytes)) == bytes`.
pub proof fn lemma_wrapper_roundtrip(v: AuthWrapperView)
    requires
        wrapper_fits(v),
    ensures
        spec_wrapper_decode(spec_wrapper_encode(v)) == Some(v),
        spec_wrapper_encode(spec_wrapper_decode(spec_wrapper_encode(v)).unwrap())
            == spec_wrapper_encode(v),
{
    let f1 = spec_bytes_field(TAG_PUBLIC_KEY, v.public_key);
    let f2 = spec_bytes_field(TAG_SIGNATURE, v.signature);
    let f3 = spec_varint_field(TAG_SCHEME, v.scheme);
    let f4 = spec_bytes_field(TAG_PAYLOAD, v.payload);
    let f5 = spec_bytes_field(TAG_PAYLOAD_DIGEST, v.payload_digest);
    let s = spec_wrapper_encode(v);

    assert(s =~= f1 + (f2 + f3 + f4 + f5));
    lemma_bytes_field_roundtrip(TAG_PUBLIC_KEY, v.public_key, f2 + f3 + f4 + f5);
    let n1 = f1.len() as int;
    assert(spec_bytes_field_decode(s, TAG_PUBLIC_KEY) == Some((v.public_key, n1)));

    assert(s.skip(n1) =~= f2 + (f3 + f4 + f5));
    lemma_bytes_field_roundtrip(TAG_SIGNATURE, v.signature, f3 + f4 + f5);
    let n2 = f2.len() as int;

    assert(s.skip(n1 + n2) =~= f3 + (f4 + f5));
    lemma_varint_field_roundtrip(TAG_SCHEME, v.scheme, f4 + f5);
    let n3 = f3.len() as int;

    assert(s.skip(n1 + n2 + n3) =~= f4 + f5);
    lemma_bytes_field_roundtrip(TAG_PAYLOAD, v.payload, f5);
    let n4 = f4.len() as int;

    assert(s.skip(n1 + n2 + n3 + n4) =~= f5 + Seq::<u8>::empty());
    assert(f5 =~= f5 + Seq::<u8>::empty());
    lemma_bytes_field_roundtrip(TAG_PAYLOAD_DIGEST, v.payload_digest, Seq::<u8>::empty());
    let n5 = f5.len() as int;

    assert(n1 + n2 + n3 + n4 + n5 == s.len());
}

} // verus!
