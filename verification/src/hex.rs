//! Hexadecimal rendering of byte runs, as the chain node's interface writes
//! transactions and their identifiers.

use vstd::prelude::*;

verus! {

/// The ASCII code of one lower-case hex digit.
pub open spec fn spec_hex_digit(n: u8) -> u8
    recommends
        n < 16,
{
    if n < 10 {
        (48 + n) as u8
    } else {
        (87 + n) as u8
    }
}

/// The hex rendering of a byte run: two digits per byte, high half first.
pub open spec fn spec_hex_encode(data: Seq<u8>) -> Seq<u8>
    decreases data.len(),
{
    if data.len() == 0 {
        Seq::empty()
    } else {
        seq![spec_hex_digit(data[0] / 16), spec_hex_digit(data[0] % 16)] + spec_hex_encode(
            data.drop_first(),
        )
    }
}

/// The value of one hex digit, either case, or `None` for any other byte.
pub open spec fn spec_hex_val(c: u8) -> Option<u8> {
    if 48 <= c <= 57 {
        Some((c - 48) as u8)
    } else if 97 <= c <= 102 {
        Some((c - 87) as u8)
    } else if 65 <= c <= 70 {
        Some((c - 55) as u8)
    } else {
        None
    }
}

/// The bytes a hex rendering denotes, or `None` where the run is odd or
/// holds a non-digit.
pub open spec fn spec_hex_decode(s: Seq<u8>) -> Option<Seq<u8>>
    decreases s.len(),
{
    if s.len() % 2 != 0 {
        None
    } else if s.len() == 0 {
        Some(Seq::empty())
    } else {
        match (spec_hex_val(s[0]), spec_hex_val(s[1])) {
            (Some(h), Some(l)) => match spec_hex_decode(s.skip(2)) {
                None => None,
                Some(rest) => Some(seq![(16 * h + l) as u8] + rest),
            },
            _ => None,
        }
    }
}

/// Appending a byte appends its two digits to the rendering.
proof fn lemma_hex_encode_snoc(data: Seq<u8>, x: u8)
    ensures
        spec_hex_encode(data.push(x)) == spec_hex_encode(data) + seq![
            spec_hex_digit(x / 16),
            spec_hex_digit(x % 16),
        ],
    decreases data.len(),
{
    let p = data.push(x);
    assert(p.len() == data.len() + 1);
    assert(spec_hex_encode(p) == seq![spec_hex_digit(p[0] / 16), spec_hex_digit(p[0] % 16)]
        + spec_hex_encode(p.drop_first()));
    if data.len() == 0 {
        assert(p[0] == x);
        assert(p.drop_first() =~= Seq::<u8>::empty());
        assert(spec_hex_encode(p.drop_first()) == Seq::<u8>::empty());
        assert(spec_hex_encode(data) == Seq::<u8>::empty());
        assert(spec_hex_encode(p) =~= spec_hex_encode(data) + seq![
            spec_hex_digit(x / 16),
            spec_hex_digit(x % 16),
        ]);
    } else {
        assert(p[0] == data[0]);
        assert(p.drop_first() =~= data.drop_first().push(x));
        lemma_hex_encode_snoc(data.drop_first(), x);
        assert(spec_hex_encode(data) == seq![
            spec_hex_digit(data[0] / 16),
            spec_hex_digit(data[0] % 16),
        ] + spec_hex_encode(data.drop_first()));
        assert(spec_hex_encode(p) =~= spec_hex_encode(data) + seq![
            spec_hex_digit(x / 16),
            spec_hex_digit(x % 16),
        ]);
    }
}

/// Decoding a rendering gives back the bytes, and a rendering is twice as
/// long as its bytes.
pub proof fn lemma_hex_roundtrip(data: Seq<u8>)
    ensures
        spec_hex_encode(data).len() == 2 * data.len(),
        spec_hex_decode(spec_hex_encode(data)) == Some(data),
    decreases data.len(),
{
    if data.len() > 0 {
        lemma_hex_roundtrip(data.drop_first());
        let s = spec_hex_encode(data);
        assert(s.skip(2) =~= spec_hex_encode(data.drop_first()));
        assert(spec_hex_val(s[0]) == Some(data[0] / 16));
        assert(spec_hex_val(s[1]) == Some(data[0] % 16));
        assert(16 * (data[0] / 16) + data[0] % 16 == data[0]) by (nonlinear_arith);
        assert(seq![data[0]] + data.drop_first() =~= data);
    }
}

/// Renders bytes as lower-case hex digits.
pub fn hex_encode(data: &Vec<u8>) -> (r: Vec<u8>)
    ensures
        r@ == spec_hex_encode(data@),
{
    let mut out: Vec<u8> = Vec::new();
    let mut i: usize = 0;
    while i < data.len()
        invariant
            i <= data.len(),
            out@ == spec_hex_encode(data@.subrange(0, i as int)),
        decreases data.len() - i,
    {
        let b = data[i];
        let hi = b / 16;
        let lo = b % 16;
        out.push(if hi < 10 {
            48 + hi
        } else {
            87 + hi
        });
        out.push(if lo < 10 {
            48 + lo
        } else {
            87 + lo
        });
        i = i + 1;
        proof {
            let cur = data@.subrange(0, i as int);
            assert(cur.drop_last() =~= data@.subrange(0, i - 1));
            assert(cur.last() == data@[i - 1]);
            lemma_hex_encode_snoc(cur.drop_last(), data@[i - 1]);
            assert(cur.drop_last().push(cur.last()) =~= cur);
            assert(out@ =~= spec_hex_encode(cur));
        }
    }
    proof {
        assert(data@.subrange(0, data@.len() as int) =~= data@);
    }
    out
}

/// The value of one hex digit byte.
fn hex_val(c: u8) -> (r: Option<u8>)
    ensures
        r == spec_hex_val(c),
{
    if 48 <= c && c <= 57 {
        Some(c - 48)
    } else if 97 <= c && c <= 102 {
        Some(c - 87)
    } else if 65 <= c && c <= 70 {
        Some(c - 55)
    } else {
        None
    }
}

/// Reads hex digits from `s` at `pos`, appending the bytes to `acc`.
fn hex_decode_at(s: &Vec<u8>, pos: usize, acc: &mut Vec<u8>) -> (ok: bool)
    requires
        pos <= s.len(),
    ensures
        match spec_hex_decode(s@.skip(pos as int)) {
            None => !ok,
            Some(d) => ok && final(acc)@ == old(acc)@ + d,
        },
    decreases s.len() - pos,
{
    let ghost tail = s@.skip(pos as int);
    if (s.len() - pos) % 2 != 0 {
        return false;
    }
    if pos == s.len() {
        proof {
            assert(acc@ =~= acc@ + Seq::<u8>::empty());
        }
        return true;
    }
    assert(tail[0] == s@[pos as int] && tail[1] == s@[pos as int + 1]);
    let h = match hex_val(s[pos]) {
        None => {
            return false;
        },
        Some(v) => v,
    };
    let l = match hex_val(s[pos + 1]) {
        None => {
            return false;
        },
        Some(v) => v,
    };
    let ghost pre = acc@;
    acc.push(16 * h + l);
    proof {
        assert(tail.skip(2) =~= s@.skip(pos as int + 2));
    }
    let ok = hex_decode_at(s, pos + 2, acc);
    proof {
        if spec_hex_decode(s@.skip(pos as int + 2)) is Some {
            let rest = spec_hex_decode(s@.skip(pos as int + 2)).unwrap();
            assert(acc@ =~= pre + (seq![(16 * h + l) as u8] + rest));
        }
    }
    ok
}

/// Reads a hex rendering back into bytes.
pub fn hex_decode(s: &Vec<u8>) -> (r: Option<Vec<u8>>)
    ensures
        match spec_hex_decode(s@) {
            None => r is None,
            Some(d) => r is Some && r.unwrap()@ == d,
        },
{
    let mut out: Vec<u8> = Vec::new();
    proof {
        assert(s@.skip(0) =~= s@);
        assert(out@ =~= Seq::<u8>::empty());
    }
    if hex_decode_at(s, 0, &mut out) {
        proof {
            if spec_hex_decode(s@) is Some {
                assert(out@ =~= spec_hex_decode(s@).unwrap());
            }
        }
        Some(out)
    } else {
        None
    }
}

} // verus!
