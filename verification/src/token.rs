//! The chain-commitment token scheme: deriving the on-chain commitment for a
//! `(public-key hash, metadata digest)` pair, minting the bearer token that
//! points at the committing transaction output, and validating a presented
//! token against a fetched transaction.

use vstd::prelude::*;

use base64::Engine;

use crate::codec::{bytes_eq, copy_range, push_all};
use crate::crypto::{sha256, sha256_of};
use crate::tx::{compute_tx_id, parse_tx_outputs, spec_tx_id, spec_tx_outputs};

verus! {

/// The OP_RETURN opcode that opens the commitment script.
pub const OP_RETURN: u8 = 106;

/// Length of the commitment: one SHA-256 digest.
pub const COMMITMENT_SIZE: usize = 32;

/// Length of the commitment preimage: two digests, concatenated.
pub const COMMITMENT_PREIMAGE_SIZE: usize = 64;

/// Length of a raw token: a 32-byte transaction id and a 4-byte output index.
pub const TOKEN_SIZE: usize = 36;

/// The commitment preimage: the public-key hash, then the metadata digest.
pub open spec fn spec_commitment_preimage(pk_hash: Seq<u8>, md: Seq<u8>) -> Seq<u8> {
    pk_hash + md
}

/// The commitment: the SHA-256 of the preimage.
pub open spec fn spec_commitment(pk_hash: Seq<u8>, md: Seq<u8>) -> Seq<u8> {
    sha256_of(spec_commitment_preimage(pk_hash, md))
}

/// The expected commitment script: `OP_RETURN`, a 32-byte push, the
/// commitment.
pub open spec fn spec_expected_script(pk_hash: Seq<u8>, md: Seq<u8>) -> Seq<u8> {
    seq![OP_RETURN, COMMITMENT_SIZE as u8] + spec_commitment(pk_hash, md)
}

/// Builds the commitment preimage.
pub fn commitment_preimage(pk_hash: &Vec<u8>, md: &Vec<u8>) -> (r: Vec<u8>)
    ensures
        r@ == spec_commitment_preimage(pk_hash@, md@),
{
    let mut out = copy_range(pk_hash, 0, pk_hash.len());
    push_all(&mut out, md);
    proof {
        assert(out@ =~= spec_commitment_preimage(pk_hash@, md@));
    }
    out
}

/// Builds the commitment: the SHA-256 of `pk_hash ‖ md`.
pub fn commitment(pk_hash: &Vec<u8>, md: &Vec<u8>) -> (r: Vec<u8>)
    ensures
        r@ == spec_commitment(pk_hash@, md@),
        r@.len() == 32,
{
    let preimage = commitment_preimage(pk_hash, md);
    sha256(&preimage)
}

/// Builds the 34-byte commitment script.
pub fn expected_script(pk_hash: &Vec<u8>, md: &Vec<u8>) -> (r: Vec<u8>)
    ensures
        r@ == spec_expected_script(pk_hash@, md@),
        r@.len() == 34,
{
    let c = commitment(pk_hash, md);
    let mut out: Vec<u8> = Vec::new();
    out.push(OP_RETURN);
    out.push(32);
    push_all(&mut out, &c);
    proof {
        assert(out@ =~= spec_expected_script(pk_hash@, md@));
    }
    out
}

/// The big-endian bytes of a 32-bit integer.
pub open spec fn spec_be32(v: u32) -> Seq<u8> {
    seq![
        (v / 16777216) as u8,
        ((v / 65536) % 256) as u8,
        ((v / 256) % 256) as u8,
        (v % 256) as u8,
    ]
}

/// A raw token: the transaction id, then the output index, big-endian.
pub open spec fn spec_token(tx_id: Seq<u8>, vout: u32) -> Seq<u8> {
    tx_id + spec_be32(vout)
}

/// Mints the raw token pointing at output `vout` of transaction `tx_id`.
pub fn construct_token(tx_id: &Vec<u8>, vout: u32) -> (r: Vec<u8>)
    requires
        tx_id@.len() == 32,
    ensures
        r@ == spec_token(tx_id@, vout),
        r@.len() == 36,
{
    let mut out = copy_range(tx_id, 0, tx_id.len());
    out.push((vout / 16777216) as u8);
    out.push(((vout / 65536) % 256) as u8);
    out.push(((vout / 256) % 256) as u8);
    out.push((vout % 256) as u8);
    proof {
        assert(out@ =~= spec_token(tx_id@, vout));
    }
    out
}

/// The `(tx_id, vout)` a raw token denotes, or `None` where it is not 36
/// bytes.
pub open spec fn spec_token_decode(raw: Seq<u8>) -> Option<(Seq<u8>, u32)> {
    if raw.len() != 36 {
        None
    } else {
        Some(
            (
                raw.subrange(0, 32),
                (16777216 * raw[32] + 65536 * raw[33] + 256 * raw[34] + raw[35]) as u32,
            ),
        )
    }
}

/// Reads a raw token back into the transaction id and output index.
pub fn decode_token(raw: &Vec<u8>) -> (r: Option<(Vec<u8>, u32)>)
    ensures
        match spec_token_decode(raw@) {
            None => r is None,
            Some((tx_id, vout)) => {
                &&& r is Some
                &&& r.unwrap().0@ == tx_id
                &&& r.unwrap().1 == vout
            },
        },
{
    if raw.len() != TOKEN_SIZE {
        return None;
    }
    let tx_id = copy_range(raw, 0, 32);
    let vout: u32 = 16777216 * (raw[32] as u32) + 65536 * (raw[33] as u32) + 256 * (
    raw[34] as u32) + (raw[35] as u32);
    Some((tx_id, vout))
}

/// Minting then decoding gives back the transaction id and index.
pub proof fn lemma_token_roundtrip(tx_id: Seq<u8>, vout: u32)
    requires
        tx_id.len() == 32,
    ensures
        spec_token_decode(spec_token(tx_id, vout)) == Some((tx_id, vout)),
{
    let raw = spec_token(tx_id, vout);
    assert(raw.subrange(0, 32) =~= tx_id);
    assert(raw[32] == (vout / 16777216) as u8);
    assert(raw[33] == ((vout / 65536) % 256) as u8);
    assert(raw[34] == ((vout / 256) % 256) as u8);
    assert(raw[35] == (vout % 256) as u8);
    assert(16777216 * (vout / 16777216) + 65536 * ((vout / 65536) % 256) + 256 * ((vout / 256)
        % 256) + vout % 256 == vout) by (nonlinear_arith);
}

/// The base64url (unpadded) rendering of a byte run.
pub uninterp spec fn b64url_of(b: Seq<u8>) -> Seq<char>;

/// Relies on base64's URL_SAFE_NO_PAD engine encode: the rendering is a
/// function of the input bytes alone.
#[verifier::external_body]
pub(crate) fn b64url_encode(b: &Vec<u8>) -> (r: String)
    ensures
        r@ == b64url_of(b@),
{
    base64::engine::general_purpose::URL_SAFE_NO_PAD.encode(b.as_slice())
}

/// Relies on base64's URL_SAFE_NO_PAD engine decode: it is strict (canonical
/// alphabet, no padding, trailing bits rejected), so a decoded value
/// re-encodes to the input, every canonical rendering decodes, and a
/// rendering has exactly one preimage.
#[verifier::external_body]
pub(crate) fn b64url_decode(s: &str) -> (r: Option<Vec<u8>>)
    ensures
        r is Some ==> s@ == b64url_of(r.unwrap()@),
        r is Some ==> forall|b: Seq<u8>| s@ == b64url_of(b) ==> b == r.unwrap()@,
        r is None ==> forall|b: Seq<u8>| s@ != b64url_of(b),
{
    base64::engine::general_purpose::URL_SAFE_NO_PAD.decode(s.as_bytes()).ok()
}

/// The external rendering of a raw token: the token scheme's name, a space,
/// the base64url rendering.
pub open spec fn spec_token_header(raw: Seq<u8>) -> Seq<char> {
    "POP "@ + b64url_of(raw)
}

/// Renders a raw token as the header value `POP <base64url>`.
pub fn token_header(raw: &Vec<u8>) -> (r: String)
    ensures
        r@ == spec_token_header(raw@),
{
    let b64 = b64url_encode(raw);
    let prefix: String = "POP ".to_owned();
    prefix.concat(b64.as_str())
}

/// What validating a token against a fetched transaction turns on.
#[derive(Clone, Copy, Debug, PartialEq, Eq)]
pub enum TokenError {
    /// The token bytes are not a well-formed token.
    TokenDecode,
    /// The fetched transaction is not the one the token names, or is not a
    /// well-formed transaction.
    Chain,
    /// The named output does not exist or does not carry the expected
    /// commitment script.
    NoCommitment,
}

/// Whether `scripts[vout]` exists and is exactly the commitment script for
/// `(pk_hash, md)`.
pub open spec fn spec_output_commits(
    scripts: Seq<Seq<u8>>,
    vout: u32,
    pk_hash: Seq<u8>,
    md: Seq<u8>,
) -> bool {
    &&& vout < scripts.len()
    &&& scripts[vout as int] == spec_expected_script(pk_hash, md)
}

/// Validates a raw token against the transaction fetched for it: the token
/// must decode, the transaction must be the one it names, and the named
/// output must carry the commitment of `(pk_hash, md)`. Returns the token
/// bytes for storage.
///
/// Fetching the transaction from the chain node is the caller's step; this
/// function decides, and its outcome is a function of its inputs.
pub fn validate_token(pk_hash: &Vec<u8>, md: &Vec<u8>, raw_token: &Vec<u8>, raw_tx: &Vec<u8>) -> (r:
    Result<Vec<u8>, TokenError>)
    ensures
        match r {
            Ok(t) => {
                &&& t@ == raw_token@
                &&& spec_token_decode(raw_token@) is Some
                &&& spec_tx_outputs(raw_tx@) is Some
                &&& spec_tx_id(raw_tx@) == spec_token_decode(raw_token@).unwrap().0
                &&& spec_output_commits(
                    spec_tx_outputs(raw_tx@).unwrap(),
                    spec_token_decode(raw_token@).unwrap().1,
                    pk_hash@,
                    md@,
                )
            },
            Err(TokenError::TokenDecode) => spec_token_decode(raw_token@) is None,
            Err(TokenError::Chain) => {
                &&& spec_token_decode(raw_token@) is Some
                &&& (spec_tx_outputs(raw_tx@) is None || spec_tx_id(raw_tx@)
                    != spec_token_decode(raw_token@).unwrap().0)
            },
            Err(TokenError::NoCommitment) => {
                &&& spec_token_decode(raw_token@) is Some
                &&& spec_tx_outputs(raw_tx@) is Some
                &&& spec_tx_id(raw_tx@) == spec_token_decode(raw_token@).unwrap().0
                &&& !spec_output_commits(
                    spec_tx_outputs(raw_tx@).unwrap(),
                    spec_token_decode(raw_token@).unwrap().1,
                    pk_hash@,
                    md@,
                )
            },
        },
{
    let (tx_id, vout) = match decode_token(raw_token) {
        None => {
            return Err(TokenError::TokenDecode);
        },
        Some(x) => x,
    };
    let actual_id = compute_tx_id(raw_tx);
    if !bytes_eq(&actual_id, &tx_id) {
        return Err(TokenError::Chain);
    }
    let scripts = match parse_tx_outputs(raw_tx) {
        None => {
            return Err(TokenError::Chain);
        },
        Some(s) => s,
    };
    if (vout as usize) >= scripts.len() {
        return Err(TokenError::NoCommitment);
    }
    let expected = expected_script(pk_hash, md);
    proof {
        let specs = spec_tx_outputs(raw_tx@).unwrap();
        assert(scripts@.map_values(|v: Vec<u8>| v@)[vout as int] == specs[vout as int]);
    }
    if bytes_eq(&scripts[vout as usize], &expected) {
        Ok(copy_range(raw_token, 0, raw_token.len()))
    } else {
        Err(TokenError::NoCommitment)
    }
}

/// Commitment correctness: in the output that validation selects for a token
/// minted from `(pk_hash, md)`, the 32 bytes after the `OP_RETURN` push are
/// exactly `SHA256(pk_hash ‖ md)`.
pub proof fn lemma_commitment_correctness(
    scripts: Seq<Seq<u8>>,
    vout: u32,
    pk_hash: Seq<u8>,
    md: Seq<u8>,
)
    requires
        spec_output_commits(scripts, vout, pk_hash, md),
    ensures
        scripts[vout as int].len() == 2 + spec_commitment(pk_hash, md).len(),
        scripts[vout as int][0] == OP_RETURN,
        scripts[vout as int][1] == COMMITMENT_SIZE as u8,
        scripts[vout as int].skip(2) == spec_commitment(pk_hash, md),
{
    assert(scripts[vout as int].skip(2) =~= spec_commitment(pk_hash, md));
}

} // verus!
