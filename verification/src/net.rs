//! The request surface: address decoding, the metadata read and write
//! handlers, the proof-of-payment guard in front of writes, and each error's
//! status.
//!
//! HTTP framing is the embedding program's concern; these functions take the
//! request's plain values and decide the response.

use vstd::prelude::*;

use crate::codec::copy_range;
use crate::crypto::{sha256, sha256_of, CryptoError, ValidationError};
use crate::models::{spec_db_wrapper_decode, DatabaseWrapper};
use crate::payments::construct_payment_response;
use crate::store::{spec_metadata_key, Store, StoreError};
use crate::token::{
    b64url_decode, b64url_of, decode_token, spec_token_decode, spec_token_header, token_header,
    TokenError,
};
use crate::token_cache::TokenCache;
use crate::wrapper::{spec_parse, spec_verify, spec_wrapper_decode, AuthWrapper};

verus! {

/// The header that suppresses peer sampling on a read miss.
pub const SAMPLING: &'static str = "Sample-Peers";

/// The header value that suppresses it; any other value permits sampling.
pub const HEADER_VALUE_FALSE: &'static str = "false";

/// The request path named an address that decodes under neither scheme.
#[derive(Clone, Copy, Debug, PartialEq, Eq)]
pub struct AddressDecode;

impl AddressDecode {
    /// The status this failure surfaces as.
    pub fn to_status(&self) -> (r: u16)
        ensures
            r == 400,
    {
        400
    }
}

/// The identity bytes an address string denotes, or `None` where it decodes
/// under neither the CashAddr nor the Base58Check scheme.
pub uninterp spec fn spec_addr_decode(s: Seq<char>) -> Option<Seq<u8>>;

/// The address string that identity bytes render as under the primary
/// scheme, or `None` where the length fits no address kind.
pub uninterp spec fn spec_addr_encode(body: Seq<u8>) -> Option<Seq<char>>;

/// Whether a string is even shaped like an address: pure ASCII, and behind
/// any `:` stand at least the 42 symbols of the shortest prefixed address
/// (a 21-byte payload in base32 plus the 8-symbol checksum). Every real
/// address satisfies this; the outside decoders index past their buffers on
/// some strings outside it, so only strings inside it reach them.
pub open spec fn spec_addr_str_plausible(s: &str) -> bool {
    &&& s.is_ascii()
    &&& forall|i: int| 0 <= i < s@.len() && s@[i] == ':' ==> s@.len() - i - 1 >= 42
}

/// Relies on bitcoincash_addr's Address::decode: it tries the CashAddr
/// codec, then Base58Check, and the result is a function of the string
/// alone. The `requires` keeps out the strings on which the callee indexes
/// past its buffers: a prefixed payload shorter than any address body, and
/// bytes outside ASCII.
#[verifier::external_body]
pub(crate) fn addr_decode_str(addr_str: &str) -> (r: Option<Vec<u8>>)
    requires
        spec_addr_str_plausible(addr_str),
    ensures
        match spec_addr_decode(addr_str@) {
            None => r is None,
            Some(b) => r is Some && r.unwrap()@ == b,
        },
{
    bitcoincash_addr::Address::decode(addr_str).map(|a| a.body).ok()
}

/// Relies on bitcoincash_addr's Address::encode under the default scheme
/// (CashAddr, key hash, main network): the rendering is a function of the
/// body bytes alone, failing exactly on unsupported body lengths — in
/// particular, every 20- and 32-byte body renders.
#[verifier::external_body]
pub(crate) fn addr_encode_body(body: &Vec<u8>) -> (r: Option<String>)
    ensures
        match spec_addr_encode(body@) {
            None => r is None,
            Some(s) => r is Some && r.unwrap()@ == s,
        },
        body@.len() == 20 || body@.len() == 32 ==> r is Some,
{
    let addr = bitcoincash_addr::Address {
        body: body.clone(),
        ..bitcoincash_addr::Address::default()
    };
    addr.encode().ok()
}

/// Decodes the address string naming an identity in a request path. A string
/// not even shaped like an address — bytes outside ASCII, or a `:` with
/// fewer symbols behind it than the shortest address payload — is refused
/// without consulting the decoders.
pub fn address_decode(addr_str: &str) -> (r: Result<Vec<u8>, AddressDecode>)
    ensures
        spec_addr_str_plausible(addr_str) ==> match spec_addr_decode(addr_str@) {
            None => r is Err,
            Some(b) => r is Ok && r.unwrap()@ == b,
        },
        !spec_addr_str_plausible(addr_str) ==> r is Err,
{
    if !addr_str.is_ascii() {
        return Err(AddressDecode);
    }
    let n = addr_str.unicode_len();
    let mut i: usize = 0;
    while i < n
        invariant
            addr_str.is_ascii(),
            n == addr_str@.len(),
            i <= n,
            forall|j: int| 0 <= j < i && addr_str@[j] == ':' ==> addr_str@.len() - j - 1 >= 42,
        decreases n - i,
    {
        if addr_str.get_ascii(i) == 58 && n - i - 1 < 42 {
            proof {
                assert(addr_str@[i as int] == ':') by {
                    assert(addr_str@[i as int] as u8 == 58);
                    vstd::utf8::char_is_scalar(addr_str@[i as int]);
                }
                assert(!spec_addr_str_plausible(addr_str));
            }
            return Err(AddressDecode);
        }
        proof {
            if addr_str@[i as int] == ':' {
                assert(addr_str@[i as int] as u8 == 58);
            }
        }
        i = i + 1;
    }
    match addr_decode_str(addr_str) {
        None => Err(AddressDecode),
        Some(b) => Ok(b),
    }
}

/// A failure while serving a metadata read.
#[derive(Clone, Copy, Debug, PartialEq, Eq)]
pub enum GetMetadataError {
    /// The identity is not held, here or at any sampled peer.
    NotFound,
    /// The store failed.
    Database(StoreError),
}

impl GetMetadataError {
    /// The status this failure surfaces as: miss 404, store fault 500.
    pub fn to_status(&self) -> (r: u16)
        ensures
            r == match *self {
                GetMetadataError::NotFound => 404u16,
                GetMetadataError::Database(_) => 500u16,
            },
    {
        match self {
            GetMetadataError::NotFound => 404,
            GetMetadataError::Database(_) => 500,
        }
    }
}

/// A failure while serving a metadata write.
#[derive(Clone, Copy, Debug, PartialEq, Eq)]
pub enum PutMetadataError {
    /// The store failed.
    Database(StoreError),
    /// The body is not an authorization wrapper.
    MetadataDecode,
    /// The wrapper does not parse.
    InvalidAuthWrapper(ValidationError),
    /// The wrapper fails signature verification.
    VerifyAuthWrapper(CryptoError),
}

impl PutMetadataError {
    /// The status this failure surfaces as: store fault 500, an unsupported
    /// signature scheme 501, everything else a client error 400.
    pub fn to_status(&self) -> (r: u16)
        ensures
            r == match *self {
                PutMetadataError::Database(_) => 500u16,
                PutMetadataError::InvalidAuthWrapper(ValidationError::KeyType) => 501u16,
                _ => 400u16,
            },
    {
        match self {
            PutMetadataError::Database(_) => 500,
            PutMetadataError::InvalidAuthWrapper(ValidationError::KeyType) => 501,
            _ => 400,
        }
    }
}

/// The legacy error vocabulary of the metadata routes, kept for callers that
/// map failures in one table.
#[derive(Clone, Copy, Debug, PartialEq, Eq)]
pub enum MetadataError {
    /// The identity is not held.
    NotFound,
    /// The store failed.
    Database(StoreError),
    /// The signature does not verify.
    InvalidSignature,
    /// The digest is not a usable message.
    Message,
    /// The body is not an authorization wrapper.
    MetadataDecode,
    /// The public key does not parse.
    PublicKey,
    /// The signature does not parse.
    Signature,
    /// The declared signature scheme is not supported.
    UnsupportedScheme,
}

impl MetadataError {
    /// The status this failure surfaces as: miss 404, store fault 500,
    /// unsupported scheme 501, everything else a client error 400.
    pub fn to_status(&self) -> (r: u16)
        ensures
            r == match *self {
                MetadataError::NotFound => 404u16,
                MetadataError::Database(_) => 500u16,
                MetadataError::UnsupportedScheme => 501u16,
                _ => 400u16,
            },
    {
        match self {
            MetadataError::NotFound => 404,
            MetadataError::Database(_) => 500,
            MetadataError::UnsupportedScheme => 501,
            _ => 400,
        }
    }
}

/// A read request's query: whether the caller wants the digest of the stored
/// value rather than the value.
#[derive(Clone, Copy, Debug, PartialEq, Eq)]
pub struct Query {
    /// Whether to respond with the SHA-256 of the stored bytes.
    pub digest: Option<bool>,
}

/// The body a read responds with under `query`: the stored bytes, or their
/// SHA-256 where the digest was asked for.
pub fn metadata_response_body(raw: &Vec<u8>, query: &Query) -> (r: Vec<u8>)
    ensures
        r@ == if query.digest == Some(true) {
            sha256_of(raw@)
        } else {
            raw@
        },
{
    match query.digest {
        Some(true) => sha256(raw),
        _ => copy_range(raw, 0, raw.len()),
    }
}

/// Serves a metadata read from the local store. A hit returns the stored
/// wrapper bytes and the token header to send with them. A miss returns
/// `Ok(None)` where peer sampling is permitted — the caller then samples and
/// answers 404 only if that fails too — and `NotFound` where the request
/// suppressed sampling.
pub fn get_metadata(addr: &Vec<u8>, sample_peers: bool, store: &Store) -> (r: Result<
    Option<(Vec<u8>, String)>,
    GetMetadataError,
>)
    requires
        store.wf(),
    ensures
        match r {
            Ok(Some((body, header))) => {
                &&& store@.dom().contains(spec_metadata_key(addr@))
                &&& spec_db_wrapper_decode(store@[spec_metadata_key(addr@)]) is Some
                &&& body@ == spec_db_wrapper_decode(
                    store@[spec_metadata_key(addr@)],
                ).unwrap().serialized_auth_wrapper
                &&& header@ == spec_token_header(
                    spec_db_wrapper_decode(store@[spec_metadata_key(addr@)]).unwrap().token,
                )
            },
            Ok(None) => {
                &&& !store@.dom().contains(spec_metadata_key(addr@))
                &&& sample_peers
            },
            Err(GetMetadataError::NotFound) => {
                &&& !store@.dom().contains(spec_metadata_key(addr@))
                &&& !sample_peers
            },
            Err(GetMetadataError::Database(_)) => {
                &&& store@.dom().contains(spec_metadata_key(addr@))
                &&& spec_db_wrapper_decode(store@[spec_metadata_key(addr@)]) is None
            },
        },
{
    match store.get_metadata(addr) {
        Err(e) => Err(GetMetadataError::Database(e)),
        Ok(Some(w)) => {
            let header = token_header(&w.token);
            Ok(Some((w.serialized_auth_wrapper, header)))
        },
        Ok(None) => {
            if sample_peers {
                Ok(None)
            } else {
                Err(GetMetadataError::NotFound)
            }
        },
    }
}

/// Serves a metadata write that already passed the payment guard: checks the
/// wrapper's signature, stores the wrapper with its token as one atomic
/// entry, and records the identity for deferred gossip. On failure nothing
/// changes.
pub fn put_metadata(
    addr: &Vec<u8>,
    auth_wrapper_raw: &Vec<u8>,
    token_raw: &Vec<u8>,
    store: &mut Store,
    token_cache: &mut TokenCache,
) -> (r: Result<(), PutMetadataError>)
    requires
        old(store).wf(),
        old(token_cache).wf(),
        old(token_cache)@.len() >= 1,
    ensures
        final(store).wf(),
        final(token_cache).wf(),
        final(token_cache)@.len() == old(token_cache)@.len(),
        match r {
            Ok(()) => {
                &&& spec_wrapper_decode(auth_wrapper_raw@) is Some
                &&& spec_parse(spec_wrapper_decode(auth_wrapper_raw@).unwrap()) is Ok
                &&& spec_verify(spec_parse(spec_wrapper_decode(auth_wrapper_raw@).unwrap()).unwrap())
                &&& final(store)@ == old(store)@.insert(
                    spec_metadata_key(addr@),
                    crate::models::spec_db_wrapper_encode(
                        crate::models::DatabaseWrapperView {
                            serialized_auth_wrapper: auth_wrapper_raw@,
                            token: token_raw@,
                        },
                    ),
                )
                &&& final(token_cache)@[0].contains(addr@)
                &&& final(token_cache)@[0] == if old(token_cache)@[0].contains(addr@) {
                    old(token_cache)@[0]
                } else {
                    old(token_cache)@[0].push(addr@)
                }
                &&& forall|i: int|
                    1 <= i < old(token_cache)@.len() ==> final(token_cache)@[i] == old(
                        token_cache,
                    )@[i]
            },
            Err(PutMetadataError::MetadataDecode) => {
                &&& spec_wrapper_decode(auth_wrapper_raw@) is None
                &&& final(store)@ == old(store)@
                &&& final(token_cache)@ == old(token_cache)@
            },
            Err(PutMetadataError::InvalidAuthWrapper(e)) => {
                &&& spec_wrapper_decode(auth_wrapper_raw@) is Some
                &&& spec_parse(spec_wrapper_decode(auth_wrapper_raw@).unwrap()) == Err::<
                    crate::wrapper::ParsedWrapperView,
                    ValidationError,
                >(e)
                &&& final(store)@ == old(store)@
                &&& final(token_cache)@ == old(token_cache)@
            },
            Err(PutMetadataError::VerifyAuthWrapper(_)) => {
                &&& spec_wrapper_decode(auth_wrapper_raw@) is Some
                &&& spec_parse(spec_wrapper_decode(auth_wrapper_raw@).unwrap()) is Ok
                &&& !spec_verify(
                    spec_parse(spec_wrapper_decode(auth_wrapper_raw@).unwrap()).unwrap(),
                )
                &&& final(store)@ == old(store)@
                &&& final(token_cache)@ == old(token_cache)@
            },
            Err(PutMetadataError::Database(_)) => false,
        },
{
    let auth_wrapper = match AuthWrapper::decode(auth_wrapper_raw) {
        None => {
            return Err(PutMetadataError::MetadataDecode);
        },
        Some(w) => w,
    };
    let parsed = match auth_wrapper.parse() {
        Err(e) => {
            return Err(PutMetadataError::InvalidAuthWrapper(e));
        },
        Ok(p) => p,
    };
    match parsed.verify() {
        Err(e) => {
            return Err(PutMetadataError::VerifyAuthWrapper(e));
        },
        Ok(()) => (),
    }
    let database_wrapper = DatabaseWrapper {
        serialized_auth_wrapper: copy_range(auth_wrapper_raw, 0, auth_wrapper_raw.len()),
        token: copy_range(token_raw, 0, token_raw.len()),
    };
    proof {
        assert(database_wrapper.serialized_auth_wrapper@ =~= auth_wrapper_raw@);
        assert(database_wrapper.token@ =~= token_raw@);
    }
    let raw_database_wrapper = database_wrapper.encode();
    store.put_metadata(addr, &raw_database_wrapper);
    let addr_copy = copy_range(addr, 0, addr.len());
    proof {
        assert(addr_copy@ =~= addr@);
    }
    token_cache.add_token(addr_copy);
    Ok(())
}

/// A failure at the proof-of-payment guard in front of writes.
#[derive(Clone, Debug, PartialEq, Eq)]
pub enum ProtectionError {
    /// No token was presented; carries the public-key digest and metadata
    /// digest the payment must commit to.
    MissingToken(Vec<u8>, Vec<u8>),
    /// The presented token did not validate.
    Validation(TokenError),
    /// The body is not an authorization wrapper.
    Decode,
    /// A 32-byte declared payload digest does not match the payload.
    Preimage,
}

/// A write whose offered token read cleanly and now needs its named
/// transaction fetched from the chain.
#[derive(Clone, Debug)]
pub struct ProtectionPending {
    /// The decoded envelope.
    pub auth_wrapper: AuthWrapper,
    /// SHA-256 of the envelope's public key.
    pub pubkey_digest: Vec<u8>,
    /// The effective payload digest.
    pub metadata_digest: Vec<u8>,
    /// The presented raw token.
    pub raw_token: Vec<u8>,
    /// The transaction the token names.
    pub tx_id: Vec<u8>,
    /// The output the token names.
    pub vout: u32,
}

/// Whether a header value opens with the token scheme's name and a space.
pub open spec fn spec_pop_prefixed(s: Seq<char>) -> bool {
    s.len() >= 4 && s.subrange(0, 4) == "POP "@
}

/// Splits a token header value at the scheme name: the value must read
/// `POP `, then the token's rendering.
fn strip_pop_prefix(s: &String) -> (r: Option<String>)
    ensures
        r is Some <==> spec_pop_prefixed(s@),
        r is Some ==> s@ == "POP "@ + r.unwrap()@,
{
    let st = s.as_str();
    let n = st.unicode_len();
    proof {
        reveal_strlit("POP ");
    }
    if n < 4 {
        return None;
    }
    if st.get_char(0) == 'P' && st.get_char(1) == 'O' && st.get_char(2) == 'P' && st.get_char(3)
        == ' ' {
        let rest = st.substring_char(4, n);
        proof {
            assert(s@.subrange(0, 4) =~= "POP "@);
            assert(s@ =~= "POP "@ + s@.skip(4));
        }
        Some(rest.to_owned())
    } else {
        proof {
            if spec_pop_prefixed(s@) {
                assert(s@[0] == s@.subrange(0, 4)[0] && s@[1] == s@.subrange(0, 4)[1] && s@[2]
                    == s@.subrange(0, 4)[2] && s@[3] == s@.subrange(0, 4)[3]);
            }
        }
        None
    }
}

/// Whether the envelope declares a 32-byte payload digest that does not
/// match the payload — the one envelope shape the guard itself rejects.
pub open spec fn spec_digest_mismatch(w: crate::wrapper::AuthWrapperView) -> bool {
    w.payload_digest.len() == 32 && w.payload_digest != sha256_of(w.payload)
}

/// The proof-of-payment guard in front of writes: decodes the offered
/// envelope, checks a declared payload digest against the payload, derives
/// the digests the payment must commit to, and reads the presented token. A
/// mismatched declared digest is rejected before any token handling — no
/// invoice is ever issued for a digest that cannot be honoured. A write
/// without a token is refused with the digests, so the caller can answer
/// with an invoice; a presented token still needs its transaction fetched
/// and validated, which is the caller's step.
pub fn pop_protection(auth_wrapper_raw: &Vec<u8>, authorization: Option<&String>) -> (r: Result<
    ProtectionPending,
    ProtectionError,
>)
    ensures
        match r {
            Ok(p) => {
                &&& spec_wrapper_decode(auth_wrapper_raw@) is Some
                &&& p.auth_wrapper@ == spec_wrapper_decode(auth_wrapper_raw@).unwrap()
                &&& !spec_digest_mismatch(p.auth_wrapper@)
                &&& p.pubkey_digest@ == sha256_of(p.auth_wrapper@.public_key)
                &&& p.metadata_digest@ == sha256_of(p.auth_wrapper@.payload)
                &&& authorization is Some
                &&& authorization.unwrap()@ == "POP "@ + b64url_of(p.raw_token@)
                &&& spec_token_decode(p.raw_token@) == Some((p.tx_id@, p.vout))
            },
            Err(ProtectionError::Decode) => spec_wrapper_decode(auth_wrapper_raw@) is None,
            Err(ProtectionError::Preimage) => {
                &&& spec_wrapper_decode(auth_wrapper_raw@) is Some
                &&& spec_digest_mismatch(spec_wrapper_decode(auth_wrapper_raw@).unwrap())
            },
            Err(ProtectionError::MissingToken(pk, md)) => {
                &&& spec_wrapper_decode(auth_wrapper_raw@) is Some
                &&& !spec_digest_mismatch(spec_wrapper_decode(auth_wrapper_raw@).unwrap())
                &&& pk@ == sha256_of(spec_wrapper_decode(auth_wrapper_raw@).unwrap().public_key)
                &&& md@ == sha256_of(spec_wrapper_decode(auth_wrapper_raw@).unwrap().payload)
                &&& (authorization is None || !spec_pop_prefixed(authorization.unwrap()@))
            },
            Err(ProtectionError::Validation(e)) => {
                &&& spec_wrapper_decode(auth_wrapper_raw@) is Some
                &&& !spec_digest_mismatch(spec_wrapper_decode(auth_wrapper_raw@).unwrap())
                &&& e == TokenError::TokenDecode
                &&& authorization is Some
                &&& spec_pop_prefixed(authorization.unwrap()@)
                &&& forall|b: Seq<u8>|
                    authorization.unwrap()@ == "POP "@ + b64url_of(b)
                        ==> spec_token_decode(b) is None
            },
        },
{
    let auth_wrapper = match AuthWrapper::decode(auth_wrapper_raw) {
        None => {
            return Err(ProtectionError::Decode);
        },
        Some(w) => w,
    };
    let metadata_digest = sha256(&auth_wrapper.payload);
    if auth_wrapper.payload_digest.len() == 32 {
        if !crate::codec::bytes_eq(&auth_wrapper.payload_digest, &metadata_digest) {
            return Err(ProtectionError::Preimage);
        }
    }
    let pubkey_digest = sha256(&auth_wrapper.public_key);
    let rendered = match authorization {
        None => {
            return Err(ProtectionError::MissingToken(pubkey_digest, metadata_digest));
        },
        Some(header) => match strip_pop_prefix(header) {
            None => {
                return Err(ProtectionError::MissingToken(pubkey_digest, metadata_digest));
            },
            Some(rest) => rest,
        },
    };
    let ghost header_chars = authorization.unwrap()@;
    proof {
        reveal_strlit("POP ");
        // behind the scheme name stands exactly the rendering
        assert(rendered@ =~= header_chars.skip(4));
    }
    let raw_token = match b64url_decode(rendered.as_str()) {
        None => {
            proof {
                assert forall|b: Seq<u8>|
                    header_chars == "POP "@ + b64url_of(b) implies spec_token_decode(
                    b,
                ) is None by {
                    assert(("POP "@ + b64url_of(b)).skip(4) =~= b64url_of(b));
                    assert(rendered@ == b64url_of(b));
                };
            }
            return Err(ProtectionError::Validation(TokenError::TokenDecode));
        },
        Some(raw) => raw,
    };
    let (tx_id, vout) = match decode_token(&raw_token) {
        None => {
            proof {
                assert forall|b: Seq<u8>|
                    header_chars == "POP "@ + b64url_of(b) implies spec_token_decode(
                    b,
                ) is None by {
                    assert(("POP "@ + b64url_of(b)).skip(4) =~= b64url_of(b));
                    assert(rendered@ == b64url_of(b));
                    assert(b == raw_token@);
                };
            }
            return Err(ProtectionError::Validation(TokenError::TokenDecode));
        },
        Some(x) => x,
    };
    Ok(
        ProtectionPending {
            auth_wrapper,
            pubkey_digest,
            metadata_digest,
            raw_token,
            tx_id,
            vout,
        },
    )
}

/// Answers a guard refusal: a missing token becomes a fresh invoice served
/// with 402, committing to the digests the guard derived; everything else is
/// a client error 400 with a short note.
pub fn protection_error_recovery(err: &ProtectionError, network: &str, time: u64) -> (r: (
    u16,
    Vec<u8>,
))
    ensures
        match *err {
            ProtectionError::MissingToken(_, _) => r.0 == 402,
            _ => r.0 == 400,
        },
        err matches ProtectionError::MissingToken(pk, md) ==> r.1@ == crate::payments::spec_request_encode(
            Some(1u64),
            Some("none"@),
            None,
            crate::payments::spec_details_encode(
                Some(network@),
                seq![(None, crate::token::spec_expected_script(pk@, md@))],
                time,
                None,
                None,
                Some("/payments"@),
                Some(crate::token::spec_commitment_preimage(pk@, md@)),
            ),
            None,
        ),
{
    match err {
        ProtectionError::MissingToken(pk, md) => {
            let body = construct_payment_response(pk, md, network, time);
            (402, body)
        },
        ProtectionError::Validation(_) => {
            let body = "validation failed".as_bytes_vec();
            (400, body)
        },
        ProtectionError::Decode => {
            let body = "failed to decode authorization wrapper".as_bytes_vec();
            (400, body)
        },
        ProtectionError::Preimage => {
            let body = "digest mismatch".as_bytes_vec();
            (400, body)
        },
    }
}

} // verus!
