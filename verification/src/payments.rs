//! The payment flow: the invoice that commits the server to a
//! `(public-key hash, metadata digest)` pair, and the settlement of a
//! submitted payment into a bearer token.
//!
//! Messages follow the BIP70 shapes. Broadcasting the settled transactions
//! to the chain node is the embedding program's step; everything decided
//! about the payment is here.

use vstd::prelude::*;

use vstd::utf8::{decode_utf8, encode_utf8, valid_utf8};

use crate::codec::{
    decode_bytes_field, decode_opt_bytes_field, decode_opt_varint_field, decode_varint_field,
    encode_bytes_field, encode_opt_bytes_field, encode_opt_varint_field, encode_varint_field,
    spec_bytes_field, spec_bytes_field_decode, spec_opt_bytes_field, spec_opt_bytes_field_decode,
    spec_opt_varint_field, spec_opt_varint_field_decode, spec_varint_field,
    spec_varint_field_decode,
};
use crate::models::bytes_to_string;
use crate::net::{addr_encode_body, spec_addr_encode};
use crate::token::{
    commitment_preimage, construct_token, expected_script, spec_commitment_preimage,
    spec_expected_script, spec_token,
};
use crate::tx::{compute_tx_id, parse_tx_outputs, scripts_of, spec_tx_id, spec_tx_outputs};

verus! {

/// Tag of `Output.amount`: field 1, varint.
pub const TAG_OUT_AMOUNT: u8 = 8;

/// Tag of `Output.script`: field 2, length-delimited.
pub const TAG_OUT_SCRIPT: u8 = 18;

/// Tag of `PaymentDetails.network`: field 1, length-delimited.
pub const TAG_DET_NETWORK: u8 = 10;

/// Tag of each `PaymentDetails.outputs` element: field 2, length-delimited.
pub const TAG_DET_OUTPUTS: u8 = 18;

/// Tag of `PaymentDetails.time`: field 3, varint.
pub const TAG_DET_TIME: u8 = 24;

/// Tag of `PaymentDetails.expires`: field 4, varint.
pub const TAG_DET_EXPIRES: u8 = 32;

/// Tag of `PaymentDetails.memo`: field 5, length-delimited.
pub const TAG_DET_MEMO: u8 = 42;

/// Tag of `PaymentDetails.payment_url`: field 6, length-delimited.
pub const TAG_DET_URL: u8 = 50;

/// Tag of `PaymentDetails.merchant_data`: field 7, length-delimited.
pub const TAG_DET_MERCHANT: u8 = 58;

/// Tag of `PaymentRequest.payment_details_version`: field 1, varint.
pub const TAG_REQ_VERSION: u8 = 8;

/// Tag of `PaymentRequest.pki_type`: field 2, length-delimited.
pub const TAG_REQ_PKI_TYPE: u8 = 18;

/// Tag of `PaymentRequest.pki_data`: field 3, length-delimited.
pub const TAG_REQ_PKI_DATA: u8 = 26;

/// Tag of `PaymentRequest.serialized_payment_details`: field 4,
/// length-delimited.
pub const TAG_REQ_DETAILS: u8 = 34;

/// Tag of `PaymentRequest.signature`: field 5, length-delimited.
pub const TAG_REQ_SIGNATURE: u8 = 42;

/// Tag of `Payment.merchant_data`: field 1, length-delimited.
pub const TAG_PAY_MERCHANT: u8 = 10;

/// Tag of each `Payment.transactions` element: field 2, length-delimited.
pub const TAG_PAY_TX: u8 = 18;

/// Tag of `Payment.memo`: field 4, length-delimited.
pub const TAG_PAY_MEMO: u8 = 34;

/// Tag of `PaymentAck.payment`: field 1, length-delimited.
pub const TAG_ACK_PAYMENT: u8 = 10;

/// Tag of `PaymentAck.memo`: field 2, length-delimited.
pub const TAG_ACK_MEMO: u8 = 18;

/// One requested transaction output.
#[derive(Clone, Debug, PartialEq, Eq)]
pub struct Output {
    /// The requested amount, where one is requested.
    pub amount: Option<u64>,
    /// The output script.
    pub script: Vec<u8>,
}

/// A client-submitted payment: raw transactions and the merchant data echoed
/// back from the invoice.
#[derive(Clone, Debug, PartialEq, Eq)]
pub struct Payment {
    /// The commitment preimage the server issued, echoed back.
    pub merchant_data: Option<Vec<u8>>,
    /// The raw transactions to broadcast.
    pub transactions: Vec<Vec<u8>>,
    /// A client memo.
    pub memo: Option<String>,
}

/// The view of an optional byte vector.
pub open spec fn opt_bytes_view(o: Option<Vec<u8>>) -> Option<Seq<u8>> {
    match o {
        None => None,
        Some(v) => Some(v@),
    }
}

/// The view of an optional string.
pub open spec fn opt_str_view(o: Option<String>) -> Option<Seq<char>> {
    match o {
        None => None,
        Some(s) => Some(s@),
    }
}

/// The UTF-8 bytes of an optional string.
pub open spec fn opt_str_bytes(o: Option<Seq<char>>) -> Option<Seq<u8>> {
    match o {
        None => None,
        Some(s) => Some(encode_utf8(s)),
    }
}

/// The views of a transaction list.
pub open spec fn txs_of(ts: Seq<Vec<u8>>) -> Seq<Seq<u8>> {
    ts.map_values(|t: Vec<u8>| t@)
}

/// The canonical encoding of one output message.
pub open spec fn spec_output_encode(amount: Option<u64>, script: Seq<u8>) -> Seq<u8> {
    spec_opt_varint_field(TAG_OUT_AMOUNT, amount) + spec_bytes_field(TAG_OUT_SCRIPT, script)
}

/// What decoding one output message (consumed whole) yields.
pub open spec fn spec_output_decode(s: Seq<u8>) -> Option<(Option<u64>, Seq<u8>)> {
    match spec_opt_varint_field_decode(s, TAG_OUT_AMOUNT) {
        None => None,
        Some((amount, n1)) => match spec_bytes_field_decode(s.skip(n1), TAG_OUT_SCRIPT) {
            None => None,
            Some((script, n2)) => {
                if n1 + n2 == s.len() {
                    Some((amount, script))
                } else {
                    None
                }
            },
        },
    }
}

impl Output {
    /// Serializes the output into its message form.
    pub fn encode(&self) -> (r: Vec<u8>)
        ensures
            r@ == spec_output_encode(self.amount, self.script@),
    {
        let mut out: Vec<u8> = Vec::new();
        encode_opt_varint_field(TAG_OUT_AMOUNT, &self.amount, &mut out);
        encode_bytes_field(TAG_OUT_SCRIPT, &self.script, &mut out);
        proof {
            assert(out@ =~= spec_output_encode(self.amount, self.script@));
        }
        out
    }

    /// Decodes one output message, consumed whole.
    pub fn decode(buf: &Vec<u8>) -> (r: Option<Output>)
        ensures
            match spec_output_decode(buf@) {
                None => r is None,
                Some((amount, script)) => {
                    &&& r is Some
                    &&& r.unwrap().amount == amount
                    &&& r.unwrap().script@ == script
                },
            },
    {
        proof {
            assert(buf@.skip(0) =~= buf@);
        }
        let (amount, p1) = match decode_opt_varint_field(buf, 0, TAG_OUT_AMOUNT) {
            None => {
                return None;
            },
            Some(x) => x,
        };
        let (script, p2) = match decode_bytes_field(buf, p1, TAG_OUT_SCRIPT) {
            None => {
                return None;
            },
            Some(x) => x,
        };
        if p2 == buf.len() {
            Some(Output { amount, script })
        } else {
            None
        }
    }
}

/// The views of an output list.
pub open spec fn outputs_of(os: Seq<Output>) -> Seq<(Option<u64>, Seq<u8>)> {
    os.map_values(|o: Output| (o.amount, o.script@))
}

/// The canonical encoding of an output list: one embedded message per
/// output, in order.
pub open spec fn spec_outputs_encode(os: Seq<(Option<u64>, Seq<u8>)>) -> Seq<u8>
    decreases os.len(),
{
    if os.len() == 0 {
        Seq::empty()
    } else {
        spec_bytes_field(TAG_DET_OUTPUTS, spec_output_encode(os[0].0, os[0].1))
            + spec_outputs_encode(os.drop_first())
    }
}

/// The outputs that decoding yields, with their total width: embedded output
/// messages as long as their tag opens the rest.
pub open spec fn spec_outputs_decode(s: Seq<u8>) -> Option<(Seq<(Option<u64>, Seq<u8>)>, int)>
    decreases s.len(),
{
    if s.len() == 0 || s[0] != TAG_DET_OUTPUTS {
        Some((Seq::empty(), 0))
    } else {
        match spec_bytes_field_decode(s, TAG_DET_OUTPUTS) {
            None => None,
            Some((om, k)) => {
                if k < 1 || k > s.len() {
                    None
                } else {
                    match spec_output_decode(om) {
                        None => None,
                        Some(o) => match spec_outputs_decode(s.skip(k)) {
                            None => None,
                            Some((rest, k2)) => Some((seq![o] + rest, k + k2)),
                        },
                    }
                }
            },
        }
    }
}

/// Serializes an output list.
fn encode_outputs(os: &Vec<Output>, out: &mut Vec<u8>)
    ensures
        final(out)@ == old(out)@ + spec_outputs_encode(outputs_of(os@)),
{
    let mut i: usize = 0;
    while i < os.len()
        invariant
            i <= os.len(),
            out@ == old(out)@ + spec_outputs_encode_prefix(outputs_of(os@), i as int),
        decreases os.len() - i,
    {
        let om = os[i].encode();
        encode_bytes_field(TAG_DET_OUTPUTS, &om, out);
        i = i + 1;
        proof {
            assert(outputs_of(os@)[i - 1] == (os@[i - 1].amount, os@[i - 1].script@));
            assert(out@ =~= old(out)@ + spec_outputs_encode_prefix(outputs_of(os@), i as int));
        }
    }
    proof {
        lemma_outputs_encode_prefix_full(outputs_of(os@), 0);
        assert(outputs_of(os@).skip(0) =~= outputs_of(os@));
        assert(spec_outputs_encode_prefix(outputs_of(os@), 0) + spec_outputs_encode(
            outputs_of(os@),
        ) =~= spec_outputs_encode(outputs_of(os@)));
    }
}

/// The encoding of the first `n` outputs.
pub open spec fn spec_outputs_encode_prefix(os: Seq<(Option<u64>, Seq<u8>)>, n: int) -> Seq<u8>
    decreases n,
{
    if n <= 0 {
        Seq::empty()
    } else {
        spec_outputs_encode_prefix(os, n - 1) + spec_bytes_field(
            TAG_DET_OUTPUTS,
            spec_output_encode(os[n - 1].0, os[n - 1].1),
        )
    }
}

proof fn lemma_outputs_encode_prefix_full(os: Seq<(Option<u64>, Seq<u8>)>, n: int)
    requires
        0 <= n <= os.len(),
    ensures
        spec_outputs_encode_prefix(os, os.len() as int) == spec_outputs_encode_prefix(os, n)
            + spec_outputs_encode(os.skip(n)),
    decreases os.len() - n,
{
    if n == os.len() {
        assert(spec_outputs_encode(os.skip(n)) =~= Seq::<u8>::empty());
        assert(spec_outputs_encode_prefix(os, n) + Seq::<u8>::empty()
            =~= spec_outputs_encode_prefix(os, n));
    } else {
        lemma_outputs_encode_prefix_full(os, n + 1);
        assert(os.skip(n)[0] == os[n]);
        assert(os.skip(n).drop_first() =~= os.skip(n + 1));
        assert(spec_outputs_encode_prefix(os, n) + spec_outputs_encode(os.skip(n))
            =~= spec_outputs_encode_prefix(os, n + 1) + spec_outputs_encode(os.skip(n + 1)));
    }
}

/// Reads outputs from `buf` at `pos`, appending to `acc`.
fn decode_outputs_from(buf: &Vec<u8>, pos: usize, acc: &mut Vec<Output>) -> (r: Option<usize>)
    requires
        pos <= buf.len(),
    ensures
        match spec_outputs_decode(buf@.skip(pos as int)) {
            None => r is None,
            Some((os, k)) => {
                &&& r is Some
                &&& r.unwrap() == pos + k
                &&& r.unwrap() <= buf.len()
                &&& outputs_of(final(acc)@) == outputs_of(old(acc)@) + os
            },
        },
    decreases buf.len() - pos,
{
    let ghost s = buf@.skip(pos as int);
    if pos == buf.len() || buf[pos] != TAG_DET_OUTPUTS {
        proof {
            if pos < buf.len() {
                assert(s[0] != TAG_DET_OUTPUTS);
            }
            assert(outputs_of(acc@) =~= outputs_of(acc@) + Seq::<(Option<u64>, Seq<u8>)>::empty());
        }
        return Some(pos);
    }
    assert(s[0] == TAG_DET_OUTPUTS);
    let (om, p1) = match decode_bytes_field(buf, pos, TAG_DET_OUTPUTS) {
        None => {
            return None;
        },
        Some(x) => x,
    };
    let output = match Output::decode(&om) {
        None => {
            return None;
        },
        Some(o) => o,
    };
    let ghost ov = (output.amount, output.script@);
    let ghost pre = acc@;
    acc.push(output);
    proof {
        assert(s.skip(p1 - pos) =~= buf@.skip(p1 as int));
        assert(outputs_of(acc@) =~= outputs_of(pre).push(ov));
    }
    let r = decode_outputs_from(buf, p1, acc);
    proof {
        if spec_outputs_decode(buf@.skip(p1 as int)) is Some {
            let (rest, k2) = spec_outputs_decode(buf@.skip(p1 as int)).unwrap();
            assert(outputs_of(acc@) =~= outputs_of(pre) + (seq![ov] + rest));
        }
    }
    r
}

/// The invoice's payload: what the server asks to be paid, and the merchant
/// data that binds the invoice to the identity and digest.
#[derive(Clone, Debug, PartialEq, Eq)]
pub struct PaymentDetails {
    /// The chain the request is for.
    pub network: Option<String>,
    /// The requested outputs.
    pub outputs: Vec<Output>,
    /// Seconds since the epoch when the invoice was created.
    pub time: u64,
    /// Seconds since the epoch when the invoice lapses, where one is set.
    pub expires: Option<u64>,
    /// A human-readable note.
    pub memo: Option<String>,
    /// Where to post the payment.
    pub payment_url: Option<String>,
    /// The commitment preimage the client must echo back.
    pub merchant_data: Option<Vec<u8>>,
}

/// The canonical encoding of the invoice payload.
pub open spec fn spec_details_encode(
    network: Option<Seq<char>>,
    outputs: Seq<(Option<u64>, Seq<u8>)>,
    time: u64,
    expires: Option<u64>,
    memo: Option<Seq<char>>,
    payment_url: Option<Seq<char>>,
    merchant_data: Option<Seq<u8>>,
) -> Seq<u8> {
    spec_opt_bytes_field(TAG_DET_NETWORK, opt_str_bytes(network)) + spec_outputs_encode(outputs)
        + spec_varint_field(TAG_DET_TIME, time) + spec_opt_varint_field(TAG_DET_EXPIRES, expires)
        + spec_opt_bytes_field(TAG_DET_MEMO, opt_str_bytes(memo)) + spec_opt_bytes_field(
        TAG_DET_URL,
        opt_str_bytes(payment_url),
    ) + spec_opt_bytes_field(TAG_DET_MERCHANT, merchant_data)
}

impl PaymentDetails {
    /// Serializes the invoice payload into its canonical wire form.
    pub fn encode(&self) -> (r: Vec<u8>)
        ensures
            r@ == spec_details_encode(
                opt_str_view(self.network),
                outputs_of(self.outputs@),
                self.time,
                self.expires,
                opt_str_view(self.memo),
                opt_str_view(self.payment_url),
                opt_bytes_view(self.merchant_data),
            ),
    {
        let mut out: Vec<u8> = Vec::new();
        encode_opt_str_field(TAG_DET_NETWORK, &self.network, &mut out);
        encode_outputs(&self.outputs, &mut out);
        encode_varint_field(TAG_DET_TIME, self.time, &mut out);
        encode_opt_varint_field(TAG_DET_EXPIRES, &self.expires, &mut out);
        encode_opt_str_field(TAG_DET_MEMO, &self.memo, &mut out);
        encode_opt_str_field(TAG_DET_URL, &self.payment_url, &mut out);
        encode_opt_bytes_field(TAG_DET_MERCHANT, &self.merchant_data, &mut out);
        proof {
            assert(out@ =~= spec_details_encode(
                opt_str_view(self.network),
                outputs_of(self.outputs@),
                self.time,
                self.expires,
                opt_str_view(self.memo),
                opt_str_view(self.payment_url),
                opt_bytes_view(self.merchant_data),
            ));
        }
        out
    }
}

/// Appends an optional string field (as its UTF-8 bytes) to `out`.
fn encode_opt_str_field(tag: u8, data: &Option<String>, out: &mut Vec<u8>)
    ensures
        final(out)@ == old(out)@ + spec_opt_bytes_field(tag, opt_str_bytes(opt_str_view(*data))),
{
    match data {
        None => {
            proof {
                assert(out@ =~= old(out)@ + Seq::<u8>::empty());
            }
        },
        Some(s) => {
            let bytes = s.as_str().as_bytes_vec();
            encode_bytes_field(tag, &bytes, out);
        },
    }
}

/// The payment request envelope around the serialized invoice payload.
#[derive(Clone, Debug, PartialEq, Eq)]
pub struct PaymentRequest {
    /// The payload version.
    pub payment_details_version: Option<u64>,
    /// How the request is signed; this server does not sign.
    pub pki_type: Option<String>,
    /// Certificate data, where the request is signed.
    pub pki_data: Option<Vec<u8>>,
    /// The serialized invoice payload.
    pub serialized_payment_details: Vec<u8>,
    /// The signature, where the request is signed.
    pub signature: Option<Vec<u8>>,
}

/// The canonical encoding of a payment request.
pub open spec fn spec_request_encode(
    version: Option<u64>,
    pki_type: Option<Seq<char>>,
    pki_data: Option<Seq<u8>>,
    details: Seq<u8>,
    signature: Option<Seq<u8>>,
) -> Seq<u8> {
    spec_opt_varint_field(TAG_REQ_VERSION, version) + spec_opt_bytes_field(
        TAG_REQ_PKI_TYPE,
        opt_str_bytes(pki_type),
    ) + spec_opt_bytes_field(TAG_REQ_PKI_DATA, pki_data) + spec_bytes_field(TAG_REQ_DETAILS, details)
        + spec_opt_bytes_field(TAG_REQ_SIGNATURE, signature)
}

impl PaymentRequest {
    /// Serializes the payment request into its canonical wire form.
    pub fn encode(&self) -> (r: Vec<u8>)
        ensures
            r@ == spec_request_encode(
                self.payment_details_version,
                opt_str_view(self.pki_type),
                opt_bytes_view(self.pki_data),
                self.serialized_payment_details@,
                opt_bytes_view(self.signature),
            ),
    {
        let mut out: Vec<u8> = Vec::new();
        encode_opt_varint_field(TAG_REQ_VERSION, &self.payment_details_version, &mut out);
        encode_opt_str_field(TAG_REQ_PKI_TYPE, &self.pki_type, &mut out);
        encode_opt_bytes_field(TAG_REQ_PKI_DATA, &self.pki_data, &mut out);
        encode_bytes_field(TAG_REQ_DETAILS, &self.serialized_payment_details, &mut out);
        encode_opt_bytes_field(TAG_REQ_SIGNATURE, &self.signature, &mut out);
        proof {
            assert(out@ =~= spec_request_encode(
                self.payment_details_version,
                opt_str_view(self.pki_type),
                opt_bytes_view(self.pki_data),
                self.serialized_payment_details@,
                opt_bytes_view(self.signature),
            ));
        }
        out
    }
}

/// The canonical encoding of a client payment.
pub open spec fn spec_payment_encode(
    merchant_data: Option<Seq<u8>>,
    transactions: Seq<Seq<u8>>,
    memo: Option<Seq<char>>,
) -> Seq<u8> {
    spec_opt_bytes_field(TAG_PAY_MERCHANT, merchant_data) + spec_txs_encode(transactions)
        + spec_opt_bytes_field(TAG_PAY_MEMO, opt_str_bytes(memo))
}

/// The canonical encoding of a transaction list: one byte field per
/// transaction, in order.
pub open spec fn spec_txs_encode(txs: Seq<Seq<u8>>) -> Seq<u8>
    decreases txs.len(),
{
    if txs.len() == 0 {
        Seq::empty()
    } else {
        spec_bytes_field(TAG_PAY_TX, txs[0]) + spec_txs_encode(txs.drop_first())
    }
}

/// The transactions that decoding yields, with their total width.
pub open spec fn spec_txs_decode(s: Seq<u8>) -> Option<(Seq<Seq<u8>>, int)>
    decreases s.len(),
{
    if s.len() == 0 || s[0] != TAG_PAY_TX {
        Some((Seq::empty(), 0))
    } else {
        match spec_bytes_field_decode(s, TAG_PAY_TX) {
            None => None,
            Some((t, k)) => {
                if k < 1 || k > s.len() {
                    None
                } else {
                    match spec_txs_decode(s.skip(k)) {
                        None => None,
                        Some((rest, k2)) => Some((seq![t] + rest, k + k2)),
                    }
                }
            },
        }
    }
}

/// What decoding a client payment yields.
pub open spec fn spec_payment_decode(s: Seq<u8>) -> Option<
    (Option<Seq<u8>>, Seq<Seq<u8>>, Option<Seq<char>>),
> {
    match spec_opt_bytes_field_decode(s, TAG_PAY_MERCHANT) {
        None => None,
        Some((md, n1)) => match spec_txs_decode(s.skip(n1)) {
            None => None,
            Some((txs, n2)) => match spec_opt_bytes_field_decode(s.skip(n1 + n2), TAG_PAY_MEMO) {
                None => None,
                Some((memo_bytes, n3)) => {
                    if n1 + n2 + n3 != s.len() {
                        None
                    } else {
                        match memo_bytes {
                            None => Some((md, txs, None)),
                            Some(mb) => {
                                if valid_utf8(mb) {
                                    Some((md, txs, Some(decode_utf8(mb))))
                                } else {
                                    None
                                }
                            },
                        }
                    }
                },
            },
        },
    }
}

/// Reads transactions from `buf` at `pos`, appending to `acc`.
fn decode_txs_from(buf: &Vec<u8>, pos: usize, acc: &mut Vec<Vec<u8>>) -> (r: Option<usize>)
    requires
        pos <= buf.len(),
    ensures
        match spec_txs_decode(buf@.skip(pos as int)) {
            None => r is None,
            Some((ts, k)) => {
                &&& r is Some
                &&& r.unwrap() == pos + k
                &&& r.unwrap() <= buf.len()
                &&& txs_of(final(acc)@) == txs_of(old(acc)@) + ts
            },
        },
    decreases buf.len() - pos,
{
    let ghost s = buf@.skip(pos as int);
    if pos == buf.len() || buf[pos] != TAG_PAY_TX {
        proof {
            if pos < buf.len() {
                assert(s[0] != TAG_PAY_TX);
            }
            assert(txs_of(acc@) =~= txs_of(acc@) + Seq::<Seq<u8>>::empty());
        }
        return Some(pos);
    }
    assert(s[0] == TAG_PAY_TX);
    let (t, p1) = match decode_bytes_field(buf, pos, TAG_PAY_TX) {
        None => {
            return None;
        },
        Some(x) => x,
    };
    let ghost tv = t@;
    let ghost pre = acc@;
    acc.push(t);
    proof {
        assert(s.skip(p1 - pos) =~= buf@.skip(p1 as int));
        assert(txs_of(acc@) =~= txs_of(pre).push(tv));
    }
    let r = decode_txs_from(buf, p1, acc);
    proof {
        if spec_txs_decode(buf@.skip(p1 as int)) is Some {
            let (rest, k2) = spec_txs_decode(buf@.skip(p1 as int)).unwrap();
            assert(txs_of(acc@) =~= txs_of(pre) + (seq![tv] + rest));
        }
    }
    r
}

impl Payment {
    /// Serializes the payment into its canonical wire form.
    pub fn encode(&self) -> (r: Vec<u8>)
        ensures
            r@ == spec_payment_encode(
                opt_bytes_view(self.merchant_data),
                txs_of(self.transactions@),
                opt_str_view(self.memo),
            ),
    {
        let mut out: Vec<u8> = Vec::new();
        encode_opt_bytes_field(TAG_PAY_MERCHANT, &self.merchant_data, &mut out);
        encode_txs(&self.transactions, &mut out);
        encode_opt_str_field(TAG_PAY_MEMO, &self.memo, &mut out);
        proof {
            assert(out@ =~= spec_payment_encode(
                opt_bytes_view(self.merchant_data),
                txs_of(self.transactions@),
                opt_str_view(self.memo),
            ));
        }
        out
    }

    /// Decodes a payment from its wire form.
    pub fn decode(buf: &Vec<u8>) -> (r: Option<Payment>)
        ensures
            match spec_payment_decode(buf@) {
                None => r is None,
                Some((md, txs, memo)) => {
                    &&& r is Some
                    &&& opt_bytes_view(r.unwrap().merchant_data) == md
                    &&& txs_of(r.unwrap().transactions@) == txs
                    &&& opt_str_view(r.unwrap().memo) == memo
                },
            },
    {
        proof {
            assert(buf@.skip(0) =~= buf@);
        }
        let (merchant_data, p1) = match decode_opt_bytes_field(buf, 0, TAG_PAY_MERCHANT) {
            None => {
                return None;
            },
            Some(x) => x,
        };
        let mut transactions: Vec<Vec<u8>> = Vec::new();
        proof {
            assert(txs_of(transactions@) =~= Seq::<Seq<u8>>::empty());
        }
        let p2 = match decode_txs_from(buf, p1, &mut transactions) {
            None => {
                return None;
            },
            Some(x) => x,
        };
        proof {
            let (ts, k) = spec_txs_decode(buf@.skip(p1 as int)).unwrap();
            assert(txs_of(transactions@) =~= ts);
        }
        let (memo_bytes, p3) = match decode_opt_bytes_field(buf, p2, TAG_PAY_MEMO) {
            None => {
                return None;
            },
            Some(x) => x,
        };
        if p3 != buf.len() {
            return None;
        }
        let memo = match memo_bytes {
            None => None,
            Some(mb) => match bytes_to_string(mb) {
                None => {
                    return None;
                },
                Some(m) => Some(m),
            },
        };
        Some(Payment { merchant_data, transactions, memo })
    }
}

/// Serializes a transaction list.
fn encode_txs(txs: &Vec<Vec<u8>>, out: &mut Vec<u8>)
    ensures
        final(out)@ == old(out)@ + spec_txs_encode(txs_of(txs@)),
{
    let mut i: usize = 0;
    while i < txs.len()
        invariant
            i <= txs.len(),
            out@ == old(out)@ + spec_txs_encode_prefix(txs_of(txs@), i as int),
        decreases txs.len() - i,
    {
        encode_bytes_field(TAG_PAY_TX, &txs[i], out);
        i = i + 1;
        proof {
            assert(txs_of(txs@)[i - 1] == txs@[i - 1]@);
            assert(out@ =~= old(out)@ + spec_txs_encode_prefix(txs_of(txs@), i as int));
        }
    }
    proof {
        lemma_txs_encode_prefix_full(txs_of(txs@), 0);
        assert(txs_of(txs@).skip(0) =~= txs_of(txs@));
        assert(spec_txs_encode_prefix(txs_of(txs@), 0) + spec_txs_encode(txs_of(txs@))
            =~= spec_txs_encode(txs_of(txs@)));
    }
}

/// The encoding of the first `n` transactions.
pub open spec fn spec_txs_encode_prefix(txs: Seq<Seq<u8>>, n: int) -> Seq<u8>
    decreases n,
{
    if n <= 0 {
        Seq::empty()
    } else {
        spec_txs_encode_prefix(txs, n - 1) + spec_bytes_field(TAG_PAY_TX, txs[n - 1])
    }
}

proof fn lemma_txs_encode_prefix_full(txs: Seq<Seq<u8>>, n: int)
    requires
        0 <= n <= txs.len(),
    ensures
        spec_txs_encode_prefix(txs, txs.len() as int) == spec_txs_encode_prefix(txs, n)
            + spec_txs_encode(txs.skip(n)),
    decreases txs.len() - n,
{
    if n == txs.len() {
        assert(spec_txs_encode(txs.skip(n)) =~= Seq::<u8>::empty());
        assert(spec_txs_encode_prefix(txs, n) + Seq::<u8>::empty() =~= spec_txs_encode_prefix(
            txs,
            n,
        ));
    } else {
        lemma_txs_encode_prefix_full(txs, n + 1);
        assert(txs.skip(n)[0] == txs[n]);
        assert(txs.skip(n).drop_first() =~= txs.skip(n + 1));
        assert(spec_txs_encode_prefix(txs, n) + spec_txs_encode(txs.skip(n))
            =~= spec_txs_encode_prefix(txs, n + 1) + spec_txs_encode(txs.skip(n + 1)));
    }
}

/// The settlement acknowledgement: the payment echoed back with a memo.
#[derive(Clone, Debug, PartialEq, Eq)]
pub struct PaymentAck {
    /// The payment being acknowledged.
    pub payment: Payment,
    /// The server's memo.
    pub memo: Option<String>,
}

/// The canonical encoding of an acknowledgement.
pub open spec fn spec_ack_encode(payment_msg: Seq<u8>, memo: Option<Seq<char>>) -> Seq<u8> {
    spec_bytes_field(TAG_ACK_PAYMENT, payment_msg) + spec_opt_bytes_field(
        TAG_ACK_MEMO,
        opt_str_bytes(memo),
    )
}

impl PaymentAck {
    /// Serializes the acknowledgement into its canonical wire form.
    pub fn encode(&self) -> (r: Vec<u8>)
        ensures
            r@ == spec_ack_encode(
                spec_payment_encode(
                    opt_bytes_view(self.payment.merchant_data),
                    txs_of(self.payment.transactions@),
                    opt_str_view(self.payment.memo),
                ),
                opt_str_view(self.memo),
            ),
    {
        let pm = self.payment.encode();
        let mut out: Vec<u8> = Vec::new();
        encode_bytes_field(TAG_ACK_PAYMENT, &pm, &mut out);
        encode_opt_str_field(TAG_ACK_MEMO, &self.memo, &mut out);
        proof {
            assert(out@ =~= spec_ack_encode(pm@, opt_str_view(self.memo)));
        }
        out
    }
}

/// A failure while preprocessing the request that carries a payment.
#[derive(Clone, Copy, Debug, PartialEq, Eq)]
pub enum PreprocessingError {
    /// The request names no acceptable response type.
    MissingAcceptHeader,
    /// The request names no content type.
    MissingContentTypeHeader,
    /// The body is not a payment message.
    PaymentDecode,
}

/// A failure while talking to the chain node.
#[derive(Clone, Copy, Debug, PartialEq, Eq)]
pub enum NodeError {
    /// The node answered and refused.
    Rpc,
    /// The node could not be reached.
    Connection,
}

/// A failure while settling a payment.
#[derive(Clone, Copy, Debug, PartialEq, Eq)]
pub enum PaymentError {
    /// The request around the payment was malformed.
    Preprocess(PreprocessingError),
    /// No provided transaction carries the expected commitment.
    MissingCommitment,
    /// A provided transaction does not parse.
    MalformedTx,
    /// The payment echoes no merchant data.
    MissingMerchantData,
    /// Broadcasting to the chain node failed.
    Node(NodeError),
    /// The echoed merchant data is not one commitment preimage long.
    IncorrectLengthPreimage,
    /// The identity bytes could not be rendered as an address.
    Address,
}

impl PaymentError {
    /// The status this failure surfaces as.
    pub fn to_status(&self) -> (r: u16)
        ensures
            r == spec_payment_status(*self),
    {
        match self {
            PaymentError::Address => 400,
            PaymentError::IncorrectLengthPreimage => 400,
            PaymentError::Preprocess(e) => match e {
                PreprocessingError::MissingAcceptHeader => 406,
                PreprocessingError::MissingContentTypeHeader => 415,
                PreprocessingError::PaymentDecode => 400,
            },
            PaymentError::MalformedTx => 400,
            PaymentError::MissingMerchantData => 400,
            PaymentError::MissingCommitment => 400,
            PaymentError::Node(e) => match e {
                NodeError::Rpc => 400,
                NodeError::Connection => 500,
            },
        }
    }
}

/// The status of each settlement failure: unacceptable response type 406,
/// missing content type 415, a node transport fault 500, everything else a
/// client error 400.
pub open spec fn spec_payment_status(e: PaymentError) -> u16 {
    match e {
        PaymentError::Preprocess(PreprocessingError::MissingAcceptHeader) => 406,
        PaymentError::Preprocess(PreprocessingError::MissingContentTypeHeader) => 415,
        PaymentError::Node(NodeError::Connection) => 500,
        _ => 400,
    }
}

/// Builds the payment-request body that answers a PUT without a token: an
/// invoice whose single output carries the commitment script for
/// `(pub_key_hash, metadata_digest)` and whose merchant data is the 64-byte
/// commitment preimage. Served with status 402.
pub fn construct_payment_response(
    pub_key_hash: &Vec<u8>,
    metadata_digest: &Vec<u8>,
    network: &str,
    time: u64,
) -> (r: Vec<u8>)
    ensures
        r@ == spec_request_encode(
            Some(1u64),
            Some("none"@),
            None,
            spec_details_encode(
                Some(network@),
                seq![(None, spec_expected_script(pub_key_hash@, metadata_digest@))],
                time,
                None,
                None,
                Some("/payments"@),
                Some(spec_commitment_preimage(pub_key_hash@, metadata_digest@)),
            ),
            None,
        ),
{
    let script = expected_script(pub_key_hash, metadata_digest);
    let output = Output { amount: None, script };
    let preimage = commitment_preimage(pub_key_hash, metadata_digest);
    let details = PaymentDetails {
        network: Some(network.to_owned()),
        outputs: vec![output],
        time,
        expires: None,
        memo: None,
        payment_url: Some("/payments".to_owned()),
        merchant_data: Some(preimage),
    };
    let serialized_payment_details = details.encode();
    proof {
        assert(outputs_of(details.outputs@) =~= seq![
            (None::<u64>, spec_expected_script(pub_key_hash@, metadata_digest@)),
        ]);
    }
    let request = PaymentRequest {
        payment_details_version: Some(1),
        pki_type: Some("none".to_owned()),
        pki_data: None,
        serialized_payment_details,
        signature: None,
    };
    request.encode()
}

/// A settled payment: which provided transaction commits, at which output,
/// and the minted token.
#[derive(Clone, Debug)]
pub struct PaymentProcessed {
    /// Index of the committing transaction among those provided.
    pub tx_index: usize,
    /// Its transaction id.
    pub tx_id: Vec<u8>,
    /// The committing output's index.
    pub vout: u32,
    /// The minted raw token.
    pub token: Vec<u8>,
    /// The identity the commitment binds: the first half of the preimage.
    pub pubkey_hash: Vec<u8>,
    /// The metadata digest the commitment binds: the second half.
    pub metadata_digest: Vec<u8>,
    /// The identity rendered as an address, for the response's location.
    pub address: String,
}

/// Whether the parsed transaction carries no commitment script at any output
/// index a token could name.
pub open spec fn spec_no_commitment(raw_tx: Seq<u8>, expected: Seq<u8>) -> bool {
    match spec_tx_outputs(raw_tx) {
        None => false,
        Some(scripts) => forall|j: int|
            0 <= j < scripts.len() && j <= u32::MAX ==> scripts[j] != expected,
    }
}

/// Settles a payment: checks the echoed preimage, parses every provided
/// transaction, and finds the first output carrying the expected commitment
/// script; mints the token that names it. Broadcasting the transactions is
/// the caller's step. An output index beyond the token's 32-bit range cannot
/// be named by a token and is passed over.
#[verifier::loop_isolation(false)]
#[verifier::rlimit(60)]
pub fn process_payment(payment: &Payment) -> (r: Result<PaymentProcessed, PaymentError>)
    ensures
        ({
            let txs = txs_of(payment.transactions@);
            match r {
                Ok(p) => {
                    let md = payment.merchant_data.unwrap()@;
                    let expected = spec_expected_script(md.subrange(0, 32), md.subrange(0, 64).skip(32));
                    &&& payment.merchant_data is Some
                    &&& md.len() == 64
                    &&& p.pubkey_hash@ == md.subrange(0, 32)
                    &&& p.metadata_digest@ == md.subrange(32, 64)
                    &&& spec_addr_encode(md.subrange(0, 32)) == Some(p.address@)
                    &&& (forall|t: int|
                        0 <= t < txs.len() ==> spec_tx_outputs(#[trigger] txs[t]) is Some)
                    &&& p.tx_index < txs.len()
                    &&& forall|t: int|
                        0 <= t < p.tx_index ==> spec_no_commitment(#[trigger] txs[t], expected)
                    &&& ({
                        let scripts = spec_tx_outputs(txs[p.tx_index as int]).unwrap();
                        &&& p.vout < scripts.len()
                        &&& scripts[p.vout as int] == expected
                        &&& forall|j: int| 0 <= j < p.vout ==> scripts[j] != expected
                    })
                    &&& p.tx_id@ == spec_tx_id(txs[p.tx_index as int])
                    &&& p.token@ == spec_token(p.tx_id@, p.vout)
                },
                Err(PaymentError::MalformedTx) => exists|t: int|
                    0 <= t < txs.len() && spec_tx_outputs(#[trigger] txs[t]) is None,
                Err(PaymentError::MissingMerchantData) => {
                    &&& (forall|t: int|
                        0 <= t < txs.len() ==> spec_tx_outputs(#[trigger] txs[t]) is Some)
                    &&& payment.merchant_data is None
                },
                Err(PaymentError::IncorrectLengthPreimage) => {
                    &&& (forall|t: int|
                        0 <= t < txs.len() ==> spec_tx_outputs(#[trigger] txs[t]) is Some)
                    &&& payment.merchant_data is Some
                    &&& payment.merchant_data.unwrap()@.len() != 64
                },
                Err(PaymentError::Address) => false,
                Err(PaymentError::MissingCommitment) => {
                    let md = payment.merchant_data.unwrap()@;
                    let expected = spec_expected_script(md.subrange(0, 32), md.subrange(0, 64).skip(32));
                    &&& payment.merchant_data is Some
                    &&& md.len() == 64
                    &&& (forall|t: int|
                        0 <= t < txs.len() ==> spec_tx_outputs(#[trigger] txs[t]) is Some)
                    &&& forall|t: int|
                        0 <= t < txs.len() ==> spec_no_commitment(#[trigger] txs[t], expected)
                },
                Err(_) => false,
            }
        }),
{
    // parse every transaction first; one bad transaction fails the payment
    let mut all_scripts: Vec<Vec<Vec<u8>>> = Vec::new();
    let mut t: usize = 0;
    while t < payment.transactions.len()
        invariant
            t <= payment.transactions.len(),
            all_scripts@.len() == t,
            forall|u: int|
                0 <= u < t ==> spec_tx_outputs(
                    #[trigger] txs_of(payment.transactions@)[u],
                ) is Some,
            forall|u: int|
                0 <= u < t ==> scripts_of(#[trigger] all_scripts@[u]@) == spec_tx_outputs(
                    txs_of(payment.transactions@)[u],
                ).unwrap(),
        decreases payment.transactions.len() - t,
    {
        proof {
            assert(txs_of(payment.transactions@)[t as int] == payment.transactions@[t as int]@);
        }
        match parse_tx_outputs(&payment.transactions[t]) {
            None => {
                return Err(PaymentError::MalformedTx);
            },
            Some(scripts) => {
                all_scripts.push(scripts);
            },
        }
        t = t + 1;
    }

    let md = match &payment.merchant_data {
        None => {
            return Err(PaymentError::MissingMerchantData);
        },
        Some(m) => m,
    };
    if md.len() != crate::token::COMMITMENT_PREIMAGE_SIZE {
        return Err(PaymentError::IncorrectLengthPreimage);
    }
    let pubkey_hash = crate::codec::copy_range(md, 0, 32);
    let metadata_digest = crate::codec::copy_range(md, 32, 64);
    proof {
        assert(md@.subrange(0, 64).skip(32) =~= md@.subrange(32, 64));
        assert(pubkey_hash@ =~= md@.subrange(0, 32));
    }
    // a 32-byte public-key hash always renders as an address
    assert(pubkey_hash@.len() == 32);
    let address = match addr_encode_body(&pubkey_hash) {
        None => {
            return Err(PaymentError::Address);
        },
        Some(a) => a,
    };
    let expected = expected_script(&pubkey_hash, &metadata_digest);

    // scan for the first committing output
    let mut t: usize = 0;
    while t < all_scripts.len()
        invariant
            all_scripts@.len() == payment.transactions@.len(),
            t <= all_scripts@.len(),
            expected@ == spec_expected_script(md@.subrange(0, 32), md@.subrange(32, 64)),
            forall|u: int|
                0 <= u < all_scripts@.len() ==> spec_tx_outputs(
                    #[trigger] txs_of(payment.transactions@)[u],
                ) is Some,
            forall|u: int|
                0 <= u < all_scripts@.len() ==> scripts_of(#[trigger] all_scripts@[u]@)
                    == spec_tx_outputs(txs_of(payment.transactions@)[u]).unwrap(),
            forall|u: int|
                0 <= u < t ==> spec_no_commitment(
                    #[trigger] txs_of(payment.transactions@)[u],
                    expected@,
                ),
        decreases all_scripts.len() - t,
    {
        let scripts = &all_scripts[t];
        let mut j: usize = 0;
        while j < scripts.len()
            invariant
                t < all_scripts@.len(),
                scripts == all_scripts@[t as int],
                forall|j2: int|
                    0 <= j2 < j && j2 <= u32::MAX ==> #[trigger] scripts@[j2]@ != expected@,
            decreases scripts.len() - j,
        {
            if j <= u32::MAX as usize && crate::codec::bytes_eq(&scripts[j], &expected) {
                let tx_id = compute_tx_id(&payment.transactions[t]);
                let vout = j as u32;
                let token = construct_token(&tx_id, vout);
                proof {
                    assert(txs_of(payment.transactions@)[t as int] == payment.transactions@[
                        t as int
                    ]@);
                    let sc = spec_tx_outputs(txs_of(payment.transactions@)[t as int]).unwrap();
                    assert(sc[j as int] == scripts_of(all_scripts@[t as int]@)[j as int]);
                    assert(forall|j2: int|
                        0 <= j2 < j ==> sc[j2] == #[trigger] scripts_of(all_scripts@[t as int]@)[
                            j2
                        ]);
                }
                return Ok(
                    PaymentProcessed {
                        tx_index: t,
                        tx_id,
                        vout,
                        token,
                        pubkey_hash,
                        metadata_digest,
                        address,
                    },
                );
            }
            j = j + 1;
        }
        t = t + 1;
        proof {
            let u = t - 1;
            let sc = spec_tx_outputs(txs_of(payment.transactions@)[u]).unwrap();
            assert(forall|j2: int|
                0 <= j2 < sc.len() ==> sc[j2] == #[trigger] scripts_of(all_scripts@[u]@)[j2]);
            assert(spec_no_commitment(txs_of(payment.transactions@)[u], expected@));
        }
    }
    Err(PaymentError::MissingCommitment)
}

/// What decoding the invoice payload yields.
pub open spec fn spec_details_decode(s: Seq<u8>) -> Option<
    (
        Option<Seq<char>>,
        Seq<(Option<u64>, Seq<u8>)>,
        u64,
        Option<u64>,
        Option<Seq<char>>,
        Option<Seq<char>>,
        Option<Seq<u8>>,
    ),
> {
    match spec_opt_str_field_decode(s, TAG_DET_NETWORK) {
        None => None,
        Some((network, n1)) => match spec_outputs_decode(s.skip(n1)) {
            None => None,
            Some((outputs, n2)) => match spec_varint_field_decode(s.skip(n1 + n2), TAG_DET_TIME) {
                None => None,
                Some((time, n3)) => match spec_opt_varint_field_decode(
                    s.skip(n1 + n2 + n3),
                    TAG_DET_EXPIRES,
                ) {
                    None => None,
                    Some((expires, n4)) => match spec_opt_str_field_decode(
                        s.skip(n1 + n2 + n3 + n4),
                        TAG_DET_MEMO,
                    ) {
                        None => None,
                        Some((memo, n5)) => match spec_opt_str_field_decode(
                            s.skip(n1 + n2 + n3 + n4 + n5),
                            TAG_DET_URL,
                        ) {
                            None => None,
                            Some((url, n6)) => match spec_opt_bytes_field_decode(
                                s.skip(n1 + n2 + n3 + n4 + n5 + n6),
                                TAG_DET_MERCHANT,
                            ) {
                                None => None,
                                Some((merchant, n7)) => {
                                    if n1 + n2 + n3 + n4 + n5 + n6 + n7 == s.len() {
                                        Some((network, outputs, time, expires, memo, url, merchant))
                                    } else {
                                        None
                                    }
                                },
                            },
                        },
                    },
                },
            },
        },
    }
}

/// What decoding an optional string field yields: the characters where the
/// field is present and valid UTF-8.
pub open spec fn spec_opt_str_field_decode(s: Seq<u8>, tag: u8) -> Option<
    (Option<Seq<char>>, int),
> {
    match spec_opt_bytes_field_decode(s, tag) {
        None => None,
        Some((None, k)) => Some((None, k)),
        Some((Some(b), k)) => {
            if valid_utf8(b) {
                Some((Some(decode_utf8(b)), k))
            } else {
                None
            }
        },
    }
}

/// Reads an optional string field from `buf` at `pos`.
fn decode_opt_str_field(buf: &Vec<u8>, pos: usize, tag: u8) -> (r: Option<(Option<String>, usize)>)
    requires
        pos <= buf.len(),
    ensures
        match spec_opt_str_field_decode(buf@.skip(pos as int), tag) {
            None => r is None,
            Some((v, k)) => {
                &&& r is Some
                &&& r.unwrap().1 == pos + k
                &&& opt_str_view(r.unwrap().0) == v
            },
        },
        r is Some ==> pos <= r.unwrap().1 <= buf.len(),
{
    match decode_opt_bytes_field(buf, pos, tag) {
        None => None,
        Some((None, p2)) => Some((None, p2)),
        Some((Some(b), p2)) => match bytes_to_string(b) {
            None => None,
            Some(st) => Some((Some(st), p2)),
        },
    }
}

impl PaymentDetails {
    /// Decodes the invoice payload from its wire form.
    pub fn decode(buf: &Vec<u8>) -> (r: Option<PaymentDetails>)
        ensures
            match spec_details_decode(buf@) {
                None => r is None,
                Some((network, outputs, time, expires, memo, url, merchant)) => {
                    &&& r is Some
                    &&& opt_str_view(r.unwrap().network) == network
                    &&& outputs_of(r.unwrap().outputs@) == outputs
                    &&& r.unwrap().time == time
                    &&& r.unwrap().expires == expires
                    &&& opt_str_view(r.unwrap().memo) == memo
                    &&& opt_str_view(r.unwrap().payment_url) == url
                    &&& opt_bytes_view(r.unwrap().merchant_data) == merchant
                },
            },
    {
        proof {
            assert(buf@.skip(0) =~= buf@);
        }
        let (network, p1) = match decode_opt_str_field(buf, 0, TAG_DET_NETWORK) {
            None => {
                return None;
            },
            Some(x) => x,
        };
        let mut outputs: Vec<Output> = Vec::new();
        proof {
            assert(outputs_of(outputs@) =~= Seq::<(Option<u64>, Seq<u8>)>::empty());
        }
        let p2 = match decode_outputs_from(buf, p1, &mut outputs) {
            None => {
                return None;
            },
            Some(x) => x,
        };
        proof {
            let (os, k) = spec_outputs_decode(buf@.skip(p1 as int)).unwrap();
            assert(outputs_of(outputs@) =~= os);
        }
        let (time, p3) = match decode_varint_field(buf, p2, TAG_DET_TIME) {
            None => {
                return None;
            },
            Some(x) => x,
        };
        let (expires, p4) = match decode_opt_varint_field(buf, p3, TAG_DET_EXPIRES) {
            None => {
                return None;
            },
            Some(x) => x,
        };
        let (memo, p5) = match decode_opt_str_field(buf, p4, TAG_DET_MEMO) {
            None => {
                return None;
            },
            Some(x) => x,
        };
        let (payment_url, p6) = match decode_opt_str_field(buf, p5, TAG_DET_URL) {
            None => {
                return None;
            },
            Some(x) => x,
        };
        let (merchant_data, p7) = match decode_opt_bytes_field(buf, p6, TAG_DET_MERCHANT) {
            None => {
                return None;
            },
            Some(x) => x,
        };
        if p7 == buf.len() {
            Some(
                PaymentDetails {
                    network,
                    outputs,
                    time,
                    expires,
                    memo,
                    payment_url,
                    merchant_data,
                },
            )
        } else {
            None
        }
    }
}

/// What decoding a payment request yields.
pub open spec fn spec_request_decode(s: Seq<u8>) -> Option<
    (Option<u64>, Option<Seq<char>>, Option<Seq<u8>>, Seq<u8>, Option<Seq<u8>>),
> {
    match spec_opt_varint_field_decode(s, TAG_REQ_VERSION) {
        None => None,
        Some((version, n1)) => match spec_opt_str_field_decode(s.skip(n1), TAG_REQ_PKI_TYPE) {
            None => None,
            Some((pki_type, n2)) => match spec_opt_bytes_field_decode(
                s.skip(n1 + n2),
                TAG_REQ_PKI_DATA,
            ) {
                None => None,
                Some((pki_data, n3)) => match spec_bytes_field_decode(
                    s.skip(n1 + n2 + n3),
                    TAG_REQ_DETAILS,
                ) {
                    None => None,
                    Some((details, n4)) => match spec_opt_bytes_field_decode(
                        s.skip(n1 + n2 + n3 + n4),
                        TAG_REQ_SIGNATURE,
                    ) {
                        None => None,
                        Some((signature, n5)) => {
                            if n1 + n2 + n3 + n4 + n5 == s.len() {
                                Some((version, pki_type, pki_data, details, signature))
                            } else {
                                None
                            }
                        },
                    },
                },
            },
        },
    }
}

impl PaymentRequest {
    /// Decodes a payment request from its wire form.
    pub fn decode(buf: &Vec<u8>) -> (r: Option<PaymentRequest>)
        ensures
            match spec_request_decode(buf@) {
                None => r is None,
                Some((version, pki_type, pki_data, details, signature)) => {
                    &&& r is Some
                    &&& r.unwrap().payment_details_version == version
                    &&& opt_str_view(r.unwrap().pki_type) == pki_type
                    &&& opt_bytes_view(r.unwrap().pki_data) == pki_data
                    &&& r.unwrap().serialized_payment_details@ == details
                    &&& opt_bytes_view(r.unwrap().signature) == signature
                },
            },
    {
        proof {
            assert(buf@.skip(0) =~= buf@);
        }
        let (payment_details_version, p1) = match decode_opt_varint_field(buf, 0, TAG_REQ_VERSION) {
            None => {
                return None;
            },
            Some(x) => x,
        };
        let (pki_type, p2) = match decode_opt_str_field(buf, p1, TAG_REQ_PKI_TYPE) {
            None => {
                return None;
            },
            Some(x) => x,
        };
        let (pki_data, p3) = match decode_opt_bytes_field(buf, p2, TAG_REQ_PKI_DATA) {
            None => {
                return None;
            },
            Some(x) => x,
        };
        let (serialized_payment_details, p4) = match decode_bytes_field(buf, p3, TAG_REQ_DETAILS) {
            None => {
                return None;
            },
            Some(x) => x,
        };
        let (signature, p5) = match decode_opt_bytes_field(buf, p4, TAG_REQ_SIGNATURE) {
            None => {
                return None;
            },
            Some(x) => x,
        };
        if p5 == buf.len() {
            Some(
                PaymentRequest {
                    payment_details_version,
                    pki_type,
                    pki_data,
                    serialized_payment_details,
                    signature,
                },
            )
        } else {
            None
        }
    }
}

} // verus!
