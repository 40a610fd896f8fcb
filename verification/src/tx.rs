//! A reader for raw chain transactions: enough of the wire layout to name a
//! transaction and list its output scripts, which is all that commitment
//! checking needs.
//!
//! Layout: a 4-byte version, a compact-size input count, that many inputs
//! (36-byte outpoint, compact-size-prefixed script, 4-byte sequence), a
//! compact-size output count, that many outputs (8-byte value,
//! compact-size-prefixed script), and a 4-byte lock time.

use vstd::prelude::*;

use crate::codec::copy_range;
use crate::crypto::{sha256, sha256_of};

verus! {

/// The byte views of a script list.
pub open spec fn scripts_of(v: Seq<Vec<u8>>) -> Seq<Seq<u8>> {
    v.map_values(|x: Vec<u8>| x@)
}

/// The compact-size integer at the head of `s`: its value and byte width.
pub open spec fn spec_compact_size(s: Seq<u8>) -> Option<(u64, int)> {
    if s.len() == 0 {
        None
    } else if s[0] < 253 {
        Some((s[0] as u64, 1))
    } else if s[0] == 253 {
        if s.len() >= 3 {
            Some(((s[1] + 256 * s[2]) as u64, 3))
        } else {
            None
        }
    } else if s[0] == 254 {
        if s.len() >= 5 {
            Some(((s[1] + 256 * s[2] + 65536 * s[3] + 16777216 * s[4]) as u64, 5))
        } else {
            None
        }
    } else {
        if s.len() >= 9 {
            Some(
                ((s[1] + 256 * s[2] + 65536 * s[3] + 16777216 * s[4] + 4294967296 * s[5]
                    + 1099511627776 * s[6] + 281474976710656 * s[7] + 72057594037927936
                    * s[8]) as u64, 9),
            )
        } else {
            None
        }
    }
}

/// Reads the compact-size integer at `pos`.
fn read_compact_size(buf: &Vec<u8>, pos: usize) -> (r: Option<(u64, usize)>)
    requires
        pos <= buf.len(),
    ensures
        match spec_compact_size(buf@.skip(pos as int)) {
            None => r is None,
            Some((v, k)) => r is Some && r.unwrap().0 == v && r.unwrap().1 == pos + k,
        },
{
    let n = buf.len();
    if pos == n {
        return None;
    }
    let b = buf[pos];
    let ghost s = buf@.skip(pos as int);
    assert(s[0] == b);
    if b < 253 {
        Some((b as u64, pos + 1))
    } else if b == 253 {
        if n - pos >= 3 {
            assert(s[1] == buf@[pos + 1] && s[2] == buf@[pos + 2]);
            Some((buf[pos + 1] as u64 + 256 * (buf[pos + 2] as u64), pos + 3))
        } else {
            None
        }
    } else if b == 254 {
        if n - pos >= 5 {
            assert(s[1] == buf@[pos + 1] && s[2] == buf@[pos + 2] && s[3] == buf@[pos + 3] && s[4]
                == buf@[pos + 4]);
            Some(
                (
                    buf[pos + 1] as u64 + 256 * (buf[pos + 2] as u64) + 65536 * (buf[pos
                        + 3] as u64) + 16777216 * (buf[pos + 4] as u64),
                    pos + 5,
                ),
            )
        } else {
            None
        }
    } else {
        if n - pos >= 9 {
            assert(s[1] == buf@[pos + 1] && s[2] == buf@[pos + 2] && s[3] == buf@[pos + 3] && s[4]
                == buf@[pos + 4] && s[5] == buf@[pos + 5] && s[6] == buf@[pos + 6] && s[7] == buf@[
                pos + 7] && s[8] == buf@[pos + 8]);
            Some(
                (
                    buf[pos + 1] as u64 + 256 * (buf[pos + 2] as u64) + 65536 * (buf[pos
                        + 3] as u64) + 16777216 * (buf[pos + 4] as u64) + 4294967296 * (buf[pos
                        + 5] as u64) + 1099511627776 * (buf[pos + 6] as u64) + 281474976710656
                        * (buf[pos + 7] as u64) + 72057594037927936 * (buf[pos + 8] as u64),
                    pos + 9,
                ),
            )
        } else {
            None
        }
    }
}

/// How many bytes the input at the head of `s` occupies.
pub open spec fn spec_input_skip(s: Seq<u8>) -> Option<int> {
    if s.len() < 36 {
        None
    } else {
        match spec_compact_size(s.skip(36)) {
            None => None,
            Some((l, k)) => {
                if 36 + k + l + 4 <= s.len() {
                    Some(36 + k + l + 4)
                } else {
                    None
                }
            },
        }
    }
}

/// How many bytes `n` inputs at the head of `s` occupy.
pub open spec fn spec_inputs_skip(s: Seq<u8>, n: u64) -> Option<int>
    decreases n,
{
    if n == 0 {
        Some(0)
    } else {
        match spec_input_skip(s) {
            None => None,
            Some(c) => {
                if c < 0 || c > s.len() {
                    None
                } else {
                    match spec_inputs_skip(s.skip(c), (n - 1) as u64) {
                        None => None,
                        Some(c2) => Some(c + c2),
                    }
                }
            },
        }
    }
}

/// The script of the output at the head of `s`, with its byte width.
pub open spec fn spec_output_decode(s: Seq<u8>) -> Option<(Seq<u8>, int)> {
    if s.len() < 8 {
        None
    } else {
        match spec_compact_size(s.skip(8)) {
            None => None,
            Some((l, k)) => {
                if 8 + k + l <= s.len() {
                    Some((s.subrange(8 + k, 8 + k + l), 8 + k + l))
                } else {
                    None
                }
            },
        }
    }
}

/// The scripts of `n` outputs at the head of `s`, with their total width.
pub open spec fn spec_outputs_decode(s: Seq<u8>, n: u64) -> Option<(Seq<Seq<u8>>, int)>
    decreases n,
{
    if n == 0 {
        Some((Seq::empty(), 0))
    } else {
        match spec_output_decode(s) {
            None => None,
            Some((sc, c)) => {
                if c < 0 || c > s.len() {
                    None
                } else {
                    match spec_outputs_decode(s.skip(c), (n - 1) as u64) {
                        None => None,
                        Some((rest, c2)) => Some((seq![sc] + rest, c + c2)),
                    }
                }
            },
        }
    }
}

/// The output scripts of the transaction `s`, or `None` where `s` is not a
/// whole well-formed transaction.
pub open spec fn spec_tx_outputs(s: Seq<u8>) -> Option<Seq<Seq<u8>>> {
    if s.len() < 4 {
        None
    } else {
        match spec_compact_size(s.skip(4)) {
            None => None,
            Some((n_in, k1)) => match spec_inputs_skip(s.skip(4 + k1), n_in) {
                None => None,
                Some(ci) => match spec_compact_size(s.skip(4 + k1 + ci)) {
                    None => None,
                    Some((n_out, k2)) => match spec_outputs_decode(
                        s.skip(4 + k1 + ci + k2),
                        n_out,
                    ) {
                        None => None,
                        Some((scripts, co)) => {
                            if 4 + k1 + ci + k2 + co + 4 == s.len() {
                                Some(scripts)
                            } else {
                                None
                            }
                        },
                    },
                },
            },
        }
    }
}

/// Skips the input at `pos`.
fn skip_input(buf: &Vec<u8>, pos: usize) -> (r: Option<usize>)
    requires
        pos <= buf.len(),
    ensures
        match spec_input_skip(buf@.skip(pos as int)) {
            None => r is None,
            Some(c) => r is Some && r.unwrap() == pos + c && r.unwrap() <= buf.len(),
        },
{
    let ghost s = buf@.skip(pos as int);
    if buf.len() - pos < 36 {
        return None;
    }
    proof {
        assert(s.skip(36) =~= buf@.skip(pos + 36));
    }
    match read_compact_size(buf, pos + 36) {
        None => None,
        Some((l, p2)) => {
            if l <= (buf.len() - p2) as u64 && (l as usize) + 4 <= buf.len() - p2 {
                Some(p2 + (l as usize) + 4)
            } else {
                None
            }
        },
    }
}

/// Skips `n` inputs starting at `pos`.
fn skip_inputs(buf: &Vec<u8>, pos: usize, n: u64) -> (r: Option<usize>)
    requires
        pos <= buf.len(),
    ensures
        match spec_inputs_skip(buf@.skip(pos as int), n) {
            None => r is None,
            Some(c) => r is Some && r.unwrap() == pos + c && r.unwrap() <= buf.len(),
        },
    decreases n,
{
    let ghost s = buf@.skip(pos as int);
    if n == 0 {
        return Some(pos);
    }
    match skip_input(buf, pos) {
        None => None,
        Some(p2) => {
            proof {
                assert(s.skip(p2 - pos) =~= buf@.skip(p2 as int));
            }
            skip_inputs(buf, p2, n - 1)
        },
    }
}

/// Reads the output at `pos`, returning its script.
fn read_output(buf: &Vec<u8>, pos: usize) -> (r: Option<(Vec<u8>, usize)>)
    requires
        pos <= buf.len(),
    ensures
        match spec_output_decode(buf@.skip(pos as int)) {
            None => r is None,
            Some((sc, c)) => {
                &&& r is Some
                &&& r.unwrap().0@ == sc
                &&& r.unwrap().1 == pos + c
                &&& r.unwrap().1 <= buf.len()
            },
        },
{
    let ghost s = buf@.skip(pos as int);
    if buf.len() - pos < 8 {
        return None;
    }
    proof {
        assert(s.skip(8) =~= buf@.skip(pos + 8));
    }
    match read_compact_size(buf, pos + 8) {
        None => None,
        Some((l, p2)) => {
            if l <= (buf.len() - p2) as u64 {
                let end = p2 + (l as usize);
                let script = copy_range(buf, p2, end);
                proof {
                    let k = spec_compact_size(s.skip(8)).unwrap().1;
                    assert(s.subrange(8 + k, 8 + k + l as int) =~= buf@.subrange(
                        p2 as int,
                        end as int,
                    ));
                }
                Some((script, end))
            } else {
                None
            }
        },
    }
}

/// Reads `n` outputs starting at `pos`, appending their scripts to `acc`.
fn read_outputs(buf: &Vec<u8>, pos: usize, n: u64, acc: &mut Vec<Vec<u8>>) -> (r: Option<usize>)
    requires
        pos <= buf.len(),
    ensures
        match spec_outputs_decode(buf@.skip(pos as int), n) {
            None => r is None,
            Some((scripts, c)) => {
                &&& r is Some
                &&& r.unwrap() == pos + c
                &&& r.unwrap() <= buf.len()
                &&& final(acc)@.map_values(|v: Vec<u8>| v@) == old(acc)@.map_values(
                    |v: Vec<u8>| v@,
                ) + scripts
            },
        },
    decreases n,
{
    let ghost s = buf@.skip(pos as int);
    if n == 0 {
        proof {
            assert(acc@.map_values(|v: Vec<u8>| v@) =~= acc@.map_values(|v: Vec<u8>| v@) + Seq::<
                Seq<u8>,
            >::empty());
        }
        return Some(pos);
    }
    match read_output(buf, pos) {
        None => None,
        Some((script, p2)) => {
            let ghost sc = script@;
            acc.push(script);
            let ghost mid = acc@;
            proof {
                assert(s.skip(p2 - pos) =~= buf@.skip(p2 as int));
                assert(mid.map_values(|v: Vec<u8>| v@) =~= old(acc)@.map_values(|v: Vec<u8>| v@)
                    + seq![sc]);
            }
            let r = read_outputs(buf, p2, n - 1, acc);
            proof {
                if spec_outputs_decode(buf@.skip(p2 as int), (n - 1) as u64) is Some {
                    let (rest, c2) = spec_outputs_decode(
                        buf@.skip(p2 as int),
                        (n - 1) as u64,
                    ).unwrap();
                    assert(acc@.map_values(|v: Vec<u8>| v@) =~= old(acc)@.map_values(
                        |v: Vec<u8>| v@,
                    ) + (seq![sc] + rest));
                }
            }
            r
        },
    }
}

/// Parses a whole raw transaction and returns its output scripts, or `None`
/// where the bytes are not one well-formed transaction.
pub fn parse_tx_outputs(buf: &Vec<u8>) -> (r: Option<Vec<Vec<u8>>>)
    ensures
        match spec_tx_outputs(buf@) {
            None => r is None,
            Some(scripts) => r is Some && r.unwrap()@.map_values(|v: Vec<u8>| v@) == scripts,
        },
{
    let ghost s = buf@;
    if buf.len() < 4 {
        return None;
    }
    proof {
        assert(s.skip(4) =~= buf@.skip(4int));
    }
    let (n_in, p1) = match read_compact_size(buf, 4) {
        None => {
            return None;
        },
        Some(x) => x,
    };
    proof {
        let k1 = spec_compact_size(s.skip(4)).unwrap().1;
        assert(s.skip(4 + k1) =~= buf@.skip(p1 as int));
    }
    let p2 = match skip_inputs(buf, p1, n_in) {
        None => {
            return None;
        },
        Some(x) => x,
    };
    proof {
        assert(buf@.skip(p2 as int) == s.skip(p2 as int));
    }
    let (n_out, p3) = match read_compact_size(buf, p2) {
        None => {
            return None;
        },
        Some(x) => x,
    };
    let mut scripts: Vec<Vec<u8>> = Vec::new();
    proof {
        assert(scripts@.map_values(|v: Vec<u8>| v@) =~= Seq::<Seq<u8>>::empty());
    }
    let p4 = match read_outputs(buf, p3, n_out, &mut scripts) {
        None => {
            return None;
        },
        Some(x) => x,
    };
    if buf.len() - p4 == 4 {
        proof {
            let spec_scripts = spec_tx_outputs(s).unwrap();
            assert(scripts@.map_values(|v: Vec<u8>| v@) =~= spec_scripts);
        }
        Some(scripts)
    } else {
        None
    }
}

/// The identifier of a raw transaction: its double SHA-256, byte-reversed.
pub open spec fn spec_tx_id(raw: Seq<u8>) -> Seq<u8> {
    sha256_of(sha256_of(raw)).reverse()
}

/// Computes the transaction identifier of a raw transaction.
pub fn compute_tx_id(raw: &Vec<u8>) -> (r: Vec<u8>)
    ensures
        r@ == spec_tx_id(raw@),
        r@.len() == 32,
{
    let first = sha256(raw);
    let second = sha256(&first);
    let mut out: Vec<u8> = Vec::new();
    let mut i: usize = second.len();
    while i > 0
        invariant
            i <= second.len(),
            second@.len() == 32,
            out@.len() == second@.len() - i,
            forall|j: int| 0 <= j < out@.len() ==> out@[j] == second@[second@.len() - 1 - j],
        decreases i,
    {
        i = i - 1;
        out.push(second[i]);
    }
    proof {
        assert(out@ =~= second@.reverse());
    }
    out
}

} // verus!
