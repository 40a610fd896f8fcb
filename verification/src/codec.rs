//! Wire-format primitives shared by every message codec of the library.
//!
//! Values are framed in the protobuf style: a one-byte tag (field number and
//! wire type), then either a base-128 varint or a length-prefixed byte run.
//! Encoding is canonical: varints are minimal, fields stand in ascending tag
//! order, and decoding accepts exactly what encoding produces.

use vstd::prelude::*;

verus! {

/// Largest value `v` such that `128 * v + 127` still fits in a `u64`.
pub const VARINT_REST_MAX: u64 = 144115188075855871;

/// The minimal base-128 little-endian encoding of `n`: seven value bits per
/// byte, the high bit marking a continuation.
pub open spec fn spec_varint(n: u64) -> Seq<u8>
    decreases n,
{
    if n < 128 {
        seq![n as u8]
    } else {
        seq![(n % 128 + 128) as u8] + spec_varint(n / 128)
    }
}

/// The value and consumed length that varint decoding yields on `s`, or
/// `None` where `s` starts with no minimal varint.
pub open spec fn spec_varint_decode(s: Seq<u8>) -> Option<(u64, int)>
    decreases s.len(),
{
    if s.len() == 0 {
        None
    } else if s[0] < 128 {
        Some((s[0] as u64, 1))
    } else {
        match spec_varint_decode(s.drop_first()) {
            None => None,
            Some((v, k)) => {
                if 1 <= v <= VARINT_REST_MAX {
                    Some((((s[0] - 128) + 128 * v) as u64, k + 1))
                } else {
                    None
                }
            },
        }
    }
}

/// Decoding reads back exactly what encoding wrote, whatever follows it.
pub proof fn lemma_varint_roundtrip(n: u64, rest: Seq<u8>)
    ensures
        spec_varint_decode(spec_varint(n) + rest) == Some((n, spec_varint(n).len() as int)),
    decreases n,
{
    let s = spec_varint(n) + rest;
    if n < 128 {
        assert(s[0] == n as u8);
    } else {
        assert(s[0] == (n % 128 + 128) as u8);
        assert(s[0] >= 128);
        lemma_varint_roundtrip(n / 128, rest);
        assert(s.drop_first() =~= spec_varint(n / 128) + rest);
        assert(1 <= n / 128);
        assert(n / 128 <= VARINT_REST_MAX);
        assert((s[0] - 128) + 128 * (n / 128) == n) by {
            assert(s[0] - 128 == n % 128);
            assert(128 * (n / 128) + n % 128 == n) by (nonlinear_arith);
        };
    }
}

/// Appends the varint encoding of `n` to `out`.
pub fn encode_varint(n: u64, out: &mut Vec<u8>)
    ensures
        final(out)@ == old(out)@ + spec_varint(n),
    decreases n,
{
    if n < 128 {
        out.push(n as u8);
        assert(out@ =~= old(out)@ + spec_varint(n));
    } else {
        out.push((n % 128 + 128) as u8);
        encode_varint(n / 128, out);
        assert(out@ =~= old(out)@ + spec_varint(n));
    }
}

/// Reads a varint from `buf` at `pos`; returns the value and the position
/// after it.
pub fn decode_varint(buf: &Vec<u8>, pos: usize) -> (r: Option<(u64, usize)>)
    requires
        pos <= buf.len(),
    ensures
        match spec_varint_decode(buf@.skip(pos as int)) {
            None => r is None,
            Some((v, k)) => r is Some && r.unwrap().0 == v && r.unwrap().1 == pos + k,
        },
        r is Some ==> pos < r.unwrap().1 <= buf.len(),
    decreases buf.len() - pos,
{
    if pos == buf.len() {
        return None;
    }
    let b = buf[pos];
    assert(buf@.skip(pos as int)[0] == b);
    if b < 128 {
        Some((b as u64, pos + 1))
    } else {
        assert(buf@.skip(pos as int).drop_first() =~= buf@.skip(pos as int + 1));
        match decode_varint(buf, pos + 1) {
            None => None,
            Some((v, p2)) => {
                if 1 <= v && v <= VARINT_REST_MAX {
                    Some(((b - 128) as u64 + 128 * v, p2))
                } else {
                    None
                }
            },
        }
    }
}

/// A tagged, length-prefixed byte field: the tag, the length as a varint,
/// then the bytes themselves.
pub open spec fn spec_bytes_field(tag: u8, data: Seq<u8>) -> Seq<u8> {
    seq![tag] + spec_varint(data.len() as u64) + data
}

/// What decoding a tagged byte field at the head of `s` yields: the field's
/// bytes and the consumed length.
pub open spec fn spec_bytes_field_decode(s: Seq<u8>, tag: u8) -> Option<(Seq<u8>, int)> {
    if s.len() == 0 || s[0] != tag {
        None
    } else {
        match spec_varint_decode(s.drop_first()) {
            None => None,
            Some((l, k)) => {
                if 1 + k + l <= s.len() {
                    Some((s.subrange(1 + k, 1 + k + l), 1 + k + l))
                } else {
                    None
                }
            },
        }
    }
}

/// A tagged varint field.
pub open spec fn spec_varint_field(tag: u8, n: u64) -> Seq<u8> {
    seq![tag] + spec_varint(n)
}

/// What decoding a tagged varint field at the head of `s` yields.
pub open spec fn spec_varint_field_decode(s: Seq<u8>, tag: u8) -> Option<(u64, int)> {
    if s.len() == 0 || s[0] != tag {
        None
    } else {
        match spec_varint_decode(s.drop_first()) {
            None => None,
            Some((v, k)) => Some((v, k + 1)),
        }
    }
}

/// A successful varint decode consumes between one byte and the whole input.
pub proof fn lemma_varint_decode_len(s: Seq<u8>)
    requires
        spec_varint_decode(s) is Some,
    ensures
        1 <= spec_varint_decode(s).unwrap().1 <= s.len(),
    decreases s.len(),
{
    if s[0] >= 128 {
        lemma_varint_decode_len(s.drop_first());
    }
}

/// Byte-field decoding reads back exactly what byte-field encoding wrote.
pub proof fn lemma_bytes_field_roundtrip(tag: u8, data: Seq<u8>, rest: Seq<u8>)
    requires
        data.len() <= u64::MAX,
    ensures
        spec_bytes_field_decode(spec_bytes_field(tag, data) + rest, tag) == Some(
            (data, spec_bytes_field(tag, data).len() as int),
        ),
{
    let s = spec_bytes_field(tag, data) + rest;
    let lv = spec_varint(data.len() as u64);
    assert(s[0] == tag);
    assert(s.drop_first() =~= lv + (data + rest));
    lemma_varint_roundtrip(data.len() as u64, data + rest);
    let k = lv.len() as int;
    assert(spec_varint_decode(s.drop_first()) == Some((data.len() as u64, k)));
    assert(1 + k + data.len() <= s.len());
    assert(s.subrange(1 + k, 1 + k + data.len() as int) =~= data);
}

/// Varint-field decoding reads back exactly what varint-field encoding wrote.
pub proof fn lemma_varint_field_roundtrip(tag: u8, n: u64, rest: Seq<u8>)
    ensures
        spec_varint_field_decode(spec_varint_field(tag, n) + rest, tag) == Some(
            (n, spec_varint_field(tag, n).len() as int),
        ),
{
    let s = spec_varint_field(tag, n) + rest;
    assert(s[0] == tag);
    assert(s.drop_first() =~= spec_varint(n) + rest);
    lemma_varint_roundtrip(n, rest);
}

/// Whether two byte vectors hold the same bytes.
pub fn bytes_eq(a: &Vec<u8>, b: &Vec<u8>) -> (r: bool)
    ensures
        r == (a@ == b@),
{
    if a.len() != b.len() {
        return false;
    }
    let mut i: usize = 0;
    while i < a.len()
        invariant
            i <= a.len(),
            a.len() == b.len(),
            forall|j: int| 0 <= j < i ==> a@[j] == b@[j],
        decreases a.len() - i,
    {
        if a[i] != b[i] {
            return false;
        }
        i = i + 1;
    }
    proof {
        assert(a@ =~= b@);
    }
    true
}

/// Appends every byte of `data` to `out`.
pub fn push_all(out: &mut Vec<u8>, data: &Vec<u8>)
    ensures
        final(out)@ == old(out)@ + data@,
{
    let mut i: usize = 0;
    while i < data.len()
        invariant
            i <= data.len(),
            out@ == old(out)@ + data@.subrange(0, i as int),
        decreases data.len() - i,
    {
        out.push(data[i]);
        i = i + 1;
        proof {
            assert(data@.subrange(0, i as int) =~= data@.subrange(0, i - 1) + seq![data@[i - 1]]);
            assert(out@ =~= old(out)@ + data@.subrange(0, i as int));
        }
    }
    proof {
        assert(data@.subrange(0, data@.len() as int) =~= data@);
    }
}

/// Appends a tagged byte field holding `data` to `out`.
pub fn encode_bytes_field(tag: u8, data: &Vec<u8>, out: &mut Vec<u8>)
    ensures
        final(out)@ == old(out)@ + spec_bytes_field(tag, data@),
{
    out.push(tag);
    encode_varint(data.len() as u64, out);
    push_all(out, data);
    assert(out@ =~= old(out)@ + spec_bytes_field(tag, data@));
}

/// Appends a tagged varint field holding `n` to `out`.
pub fn encode_varint_field(tag: u8, n: u64, out: &mut Vec<u8>)
    ensures
        final(out)@ == old(out)@ + spec_varint_field(tag, n),
{
    out.push(tag);
    encode_varint(n, out);
    assert(out@ =~= old(out)@ + spec_varint_field(tag, n));
}

/// Copies `buf[from .. to]` into a fresh vector.
pub fn copy_range(buf: &Vec<u8>, from: usize, to: usize) -> (r: Vec<u8>)
    requires
        from <= to <= buf.len(),
    ensures
        r@ == buf@.subrange(from as int, to as int),
{
    let mut r: Vec<u8> = Vec::new();
    let mut i: usize = from;
    while i < to
        invariant
            from <= i <= to <= buf.len(),
            r@ == buf@.subrange(from as int, i as int),
        decreases to - i,
    {
        r.push(buf[i]);
        i = i + 1;
        proof {
            assert(buf@.subrange(from as int, i as int) =~= buf@.subrange(from as int, i - 1)
                + seq![buf@[i - 1]]);
        }
    }
    r
}

/// Reads a tagged byte field from `buf` at `pos`.
pub fn decode_bytes_field(buf: &Vec<u8>, pos: usize, tag: u8) -> (r: Option<(Vec<u8>, usize)>)
    requires
        pos <= buf.len(),
    ensures
        match spec_bytes_field_decode(buf@.skip(pos as int), tag) {
            None => r is None,
            Some((d, k)) => {
                &&& r is Some
                &&& r.unwrap().0@ == d
                &&& r.unwrap().1 == pos + k
            },
        },
        r is Some ==> pos < r.unwrap().1 <= buf.len(),
{
    let ghost s = buf@.skip(pos as int);
    if pos == buf.len() {
        return None;
    }
    if buf[pos] != tag {
        assert(s[0] != tag);
        return None;
    }
    assert(s.drop_first() =~= buf@.skip(pos as int + 1));
    match decode_varint(buf, pos + 1) {
        None => None,
        Some((l, p2)) => {
            proof {
                lemma_varint_decode_len(s.drop_first());
            }
            assert(p2 <= buf.len());
            if l <= (buf.len() - p2) as u64 {
                let end = p2 + (l as usize);
                let data = copy_range(buf, p2, end);
                proof {
                    let k = spec_varint_decode(s.drop_first()).unwrap().1;
                    assert(p2 == pos + 1 + k);
                    assert(s.subrange(1 + k, 1 + k + l as int) =~= buf@.subrange(
                        p2 as int,
                        end as int,
                    ));
                }
                Some((data, end))
            } else {
                None
            }
        },
    }
}

/// Reads a tagged varint field from `buf` at `pos`.
pub fn decode_varint_field(buf: &Vec<u8>, pos: usize, tag: u8) -> (r: Option<(u64, usize)>)
    requires
        pos <= buf.len(),
    ensures
        match spec_varint_field_decode(buf@.skip(pos as int), tag) {
            None => r is None,
            Some((v, k)) => r is Some && r.unwrap().0 == v && r.unwrap().1 == pos + k,
        },
        r is Some ==> pos < r.unwrap().1 <= buf.len(),
{
    let ghost s = buf@.skip(pos as int);
    if pos == buf.len() {
        return None;
    }
    if buf[pos] != tag {
        assert(s[0] != tag);
        return None;
    }
    assert(s.drop_first() =~= buf@.skip(pos as int + 1));
    match decode_varint(buf, pos + 1) {
        None => None,
        Some((v, p2)) => Some((v, p2)),
    }
}

/// What decoding an optional tagged byte field yields: the field where its
/// tag opens `s`, nothing otherwise.
pub open spec fn spec_opt_bytes_field_decode(s: Seq<u8>, tag: u8) -> Option<
    (Option<Seq<u8>>, int),
> {
    if s.len() > 0 && s[0] == tag {
        match spec_bytes_field_decode(s, tag) {
            None => None,
            Some((d, k)) => Some((Some(d), k)),
        }
    } else {
        Some((None, 0))
    }
}

/// What decoding an optional tagged varint field yields.
pub open spec fn spec_opt_varint_field_decode(s: Seq<u8>, tag: u8) -> Option<
    (Option<u64>, int),
> {
    if s.len() > 0 && s[0] == tag {
        match spec_varint_field_decode(s, tag) {
            None => None,
            Some((v, k)) => Some((Some(v), k)),
        }
    } else {
        Some((None, 0))
    }
}

/// The encoding of an optional tagged byte field: the field where present,
/// nothing otherwise.
pub open spec fn spec_opt_bytes_field(tag: u8, data: Option<Seq<u8>>) -> Seq<u8> {
    match data {
        None => Seq::empty(),
        Some(d) => spec_bytes_field(tag, d),
    }
}

/// The encoding of an optional tagged varint field.
pub open spec fn spec_opt_varint_field(tag: u8, n: Option<u64>) -> Seq<u8> {
    match n {
        None => Seq::empty(),
        Some(v) => spec_varint_field(tag, v),
    }
}

/// Appends an optional tagged byte field to `out`.
pub fn encode_opt_bytes_field(tag: u8, data: &Option<Vec<u8>>, out: &mut Vec<u8>)
    ensures
        final(out)@ == old(out)@ + spec_opt_bytes_field(
            tag,
            match data {
                Option::None => Option::None,
                Option::Some(d) => Option::Some(d@),
            },
        ),
{
    match data {
        None => {
            proof {
                assert(out@ =~= old(out)@ + Seq::<u8>::empty());
            }
        },
        Some(d) => {
            encode_bytes_field(tag, d, out);
        },
    }
}

/// Appends an optional tagged varint field to `out`.
pub fn encode_opt_varint_field(tag: u8, n: &Option<u64>, out: &mut Vec<u8>)
    ensures
        final(out)@ == old(out)@ + spec_opt_varint_field(tag, *n),
{
    match n {
        None => {
            proof {
                assert(out@ =~= old(out)@ + Seq::<u8>::empty());
            }
        },
        Some(v) => {
            encode_varint_field(tag, *v, out);
        },
    }
}

/// Reads an optional tagged byte field from `buf` at `pos`.
pub fn decode_opt_bytes_field(buf: &Vec<u8>, pos: usize, tag: u8) -> (r: Option<
    (Option<Vec<u8>>, usize),
>)
    requires
        pos <= buf.len(),
    ensures
        match spec_opt_bytes_field_decode(buf@.skip(pos as int), tag) {
            None => r is None,
            Some((d, k)) => {
                &&& r is Some
                &&& r.unwrap().1 == pos + k
                &&& match (r.unwrap().0, d) {
                    (Option::None, Option::None) => true,
                    (Option::Some(v), Option::Some(sv)) => v@ == sv,
                    _ => false,
                }
            },
        },
        r is Some ==> pos <= r.unwrap().1 <= buf.len(),
{
    if pos < buf.len() && buf[pos] == tag {
        assert(buf@.skip(pos as int)[0] == tag);
        match decode_bytes_field(buf, pos, tag) {
            None => None,
            Some((d, p2)) => Some((Some(d), p2)),
        }
    } else {
        proof {
            if pos < buf.len() {
                assert(buf@.skip(pos as int)[0] != tag);
            }
        }
        Some((None, pos))
    }
}

/// Reads an optional tagged varint field from `buf` at `pos`.
pub fn decode_opt_varint_field(buf: &Vec<u8>, pos: usize, tag: u8) -> (r: Option<
    (Option<u64>, usize),
>)
    requires
        pos <= buf.len(),
    ensures
        match spec_opt_varint_field_decode(buf@.skip(pos as int), tag) {
            None => r is None,
            Some((v, k)) => r is Some && r.unwrap().0 == v && r.unwrap().1 == pos + k,
        },
        r is Some ==> pos <= r.unwrap().1 <= buf.len(),
{
    if pos < buf.len() && buf[pos] == tag {
        assert(buf@.skip(pos as int)[0] == tag);
        match decode_varint_field(buf, pos, tag) {
            None => None,
            Some((v, p2)) => Some((Some(v), p2)),
        }
    } else {
        proof {
            if pos < buf.len() {
                assert(buf@.skip(pos as int)[0] != tag);
            }
        }
        Some((None, pos))
    }
}

} // verus!
