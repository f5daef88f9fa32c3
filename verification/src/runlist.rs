//! The data-run encoding of non-resident attributes.
//!
//! A run list is a sequence of variable-length records. Each starts with a
//! header byte whose low nibble gives the byte count of the run length and
//! whose high nibble gives the byte count of the run offset. The offset is
//! a signed delta accumulated over the preceding runs; a zero offset nibble
//! marks a sparse hole, which leaves the accumulator untouched. The list
//! ends at a zero length nibble, an oversized nibble, or a zero run length.
//!
//! [`spec_decode_runs`] is the mathematical decoder. [`decode_runs`] is
//! proved against it, and [`encode_runs`] produces the minimum-byte
//! encoding whose decoding is proved to give back exactly the input runs,
//! sparse holes included.

use vstd::prelude::*;
use vstd::arithmetic::div_mod::lemma_breakdown;
use vstd::arithmetic::div_mod::lemma_div_denominator;
use vstd::arithmetic::div_mod::lemma_mod_multiples_vanish;
use vstd::arithmetic::div_mod::lemma_mod_twice;
use vstd::arithmetic::div_mod::lemma_small_mod;

use crate::attributecontent::RunList;
use crate::bytes::le_signed;
use crate::bytes::le_unsigned;
use crate::bytes::lemma_le_unsigned_bound;
use crate::bytes::lemma_pow256_pos;
use crate::bytes::pow256;
use crate::bytes::read_int_at;
use crate::bytes::read_uint_at;
use crate::error::NtfsError;

verus! {

/// The runs encoded in `s` from position `pos` with offset accumulator
/// `prev`, or `None` when the list runs off the end of the buffer or the
/// accumulator leaves the 64-bit signed range.
pub open spec fn spec_decode_runs(s: Seq<u8>, pos: int, prev: int) -> Option<Seq<RunList>>
    decreases s.len() - pos
        when 0 <= pos <= s.len()
{
    if pos >= s.len() {
        None
    } else {
        let hdr = s[pos];
        let l = (hdr % 16) as int;
        let o = (hdr / 16) as int;
        if l == 0 || l > 8 || o > 8 {
            Some(Seq::empty())
        } else if pos + 1 + l > s.len() {
            None
        } else {
            let run_length = le_unsigned(s.subrange(pos + 1, pos + 1 + l));
            if run_length == 0 {
                Some(Seq::empty())
            } else if o == 0 {
                match spec_decode_runs(s, pos + 1 + l, prev) {
                    Some(rest) => Some(seq![RunList { offset: 0, length: run_length as u64 }]
                        + rest),
                    None => None,
                }
            } else if pos + 1 + l + o > s.len() {
                None
            } else {
                let delta = le_signed(s.subrange(pos + 1 + l, pos + 1 + l + o));
                let newoff = prev + delta;
                if newoff < i64::MIN || newoff > i64::MAX {
                    None
                } else {
                    match spec_decode_runs(s, pos + 1 + l + o, newoff) {
                        Some(rest) => Some(
                            seq![RunList { offset: newoff as i64, length: run_length as u64 }]
                                + rest,
                        ),
                        None => None,
                    }
                }
            }
        }
    }
}

/// Prepends already-decoded runs to the result of decoding a tail.
pub open spec fn opt_prepend(a: Seq<RunList>, r: Option<Seq<RunList>>) -> Option<Seq<RunList>> {
    match r {
        Some(t) => Some(a + t),
        None => None,
    }
}

/// Decodes the run list of `data` starting at `start`, with the offset
/// accumulator starting at zero.
pub fn decode_runs(data: &Vec<u8>, start: usize) -> (r: Result<Vec<RunList>, NtfsError>)
    requires
        start <= data.len(),
        data.len() + 32 <= usize::MAX,
    ensures
        match r {
            Ok(runs) => spec_decode_runs(data@, start as int, 0) == Some(runs@),
            Err(e) => spec_decode_runs(data@, start as int, 0) is None && (e
                == NtfsError::ReadOutOfBounds || e
                == NtfsError::NonResidentAttributeOffsetTooLarge),
        },
{
    let mut acc: Vec<RunList> = Vec::new();
    let mut pos: usize = start;
    let mut prev: i64 = 0;
    loop
        invariant
            start <= pos <= data.len(),
            data.len() + 32 <= usize::MAX,
            spec_decode_runs(data@, start as int, 0) == opt_prepend(
                acc@,
                spec_decode_runs(data@, pos as int, prev as int),
            ),
        decreases data.len() - pos,
    {
        if pos >= data.len() {
            return Err(NtfsError::ReadOutOfBounds);
        }
        let hdr = data[pos];
        let l = (hdr % 16) as usize;
        let o = (hdr / 16) as usize;
        if l == 0 || l > 8 || o > 8 {
            proof {
                assert(acc@ + Seq::<RunList>::empty() =~= acc@);
            }
            return Ok(acc);
        }
        if pos + 1 + l > data.len() {
            return Err(NtfsError::ReadOutOfBounds);
        }
        let run_length = read_uint_at(data, pos + 1, l);
        if run_length == 0 {
            proof {
                assert(acc@ + Seq::<RunList>::empty() =~= acc@);
            }
            return Ok(acc);
        }
        if o == 0 {
            let run = RunList { offset: 0, length: run_length };
            let new_pos = pos + 1 + l;
            proof {
                let full = spec_decode_runs(data@, start as int, 0);
                let here = spec_decode_runs(data@, pos as int, prev as int);
                let next = spec_decode_runs(data@, new_pos as int, prev as int);
                assert(here == match next {
                    Some(rest) => Some(seq![run] + rest),
                    None => None,
                });
                assert forall|t: Seq<RunList>| acc@ + (seq![run] + t) =~= acc@.push(run) + t by {}
                assert(full == opt_prepend(acc@.push(run), next));
            }
            acc.push(run);
            pos = new_pos;
        } else {
            if pos + 1 + l + o > data.len() {
                return Err(NtfsError::ReadOutOfBounds);
            }
            let delta = read_int_at(data, pos + 1 + l, o);
            // The accumulator must stay inside the signed 64-bit range.
            let overflowed = if delta >= 0 {
                prev > i64::MAX - delta
            } else {
                prev < i64::MIN - delta
            };
            if overflowed {
                return Err(NtfsError::NonResidentAttributeOffsetTooLarge);
            }
            let newoff = prev + delta;
            let run = RunList { offset: newoff, length: run_length };
            let new_pos = pos + 1 + l + o;
            proof {
                let full = spec_decode_runs(data@, start as int, 0);
                let here = spec_decode_runs(data@, pos as int, prev as int);
                let next = spec_decode_runs(data@, new_pos as int, newoff as int);
                assert(here == match next {
                    Some(rest) => Some(seq![run] + rest),
                    None => None,
                });
                assert forall|t: Seq<RunList>| acc@ + (seq![run] + t) =~= acc@.push(run) + t by {}
                assert(full == opt_prepend(acc@.push(run), next));
            }
            acc.push(run);
            pos = new_pos;
            prev = newoff;
        }
    }
}

/// Whether the runs from index `i` on can be encoded: every run length is
/// at least one, and each non-sparse offset lies within a signed 64-bit
/// delta of the previous non-sparse offset (`prev`, initially zero).
pub open spec fn runs_encodable(runs: Seq<RunList>, i: int, prev: int) -> bool
    decreases runs.len() - i
        when 0 <= i <= runs.len()
{
    if i >= runs.len() {
        true
    } else {
        let run = runs[i];
        &&& run.length >= 1
        &&& if run.offset == 0 {
            runs_encodable(runs, i + 1, prev)
        } else {
            &&& i64::MIN <= run.offset - prev <= i64::MAX
            &&& runs_encodable(runs, i + 1, run.offset as int)
        }
    }
}

/// The smallest byte count (at least one) that can hold `v` unsigned.
fn min_len_bytes(v: u64) -> (n: u8)
    ensures
        1 <= n <= 8,
        v < pow256(n as nat),
        n > 1 ==> v >= pow256((n - 1) as nat),
{
    proof {
        reveal_with_fuel(pow256, 9);
    }
    if v < 0x100 {
        1
    } else if v < 0x1_0000 {
        2
    } else if v < 0x100_0000 {
        3
    } else if v < 0x1_0000_0000 {
        4
    } else if v < 0x100_0000_0000 {
        5
    } else if v < 0x1_0000_0000_0000 {
        6
    } else if v < 0x100_0000_0000_0000 {
        7
    } else {
        8
    }
}

/// The smallest byte count (at least one) that can hold `v` signed.
fn min_signed_bytes(v: i64) -> (n: u8)
    ensures
        1 <= n <= 8,
        -pow256(n as nat) <= 2 * v < pow256(n as nat),
        n > 1 ==> (2 * v < -pow256((n - 1) as nat) || 2 * v >= pow256((n - 1) as nat)),
{
    proof {
        reveal_with_fuel(pow256, 9);
    }
    if -0x80 <= v && v < 0x80 {
        1
    } else if -0x8000 <= v && v < 0x8000 {
        2
    } else if -0x80_0000 <= v && v < 0x80_0000 {
        3
    } else if -0x8000_0000 <= v && v < 0x8000_0000 {
        4
    } else if -0x80_0000_0000 <= v && v < 0x80_0000_0000 {
        5
    } else if -0x8000_0000_0000 <= v && v < 0x8000_0000_0000 {
        6
    } else if -0x80_0000_0000_0000 <= v && v < 0x80_0000_0000_0000 {
        7
    } else {
        8
    }
}

/// `le_unsigned` of a sequence extended by one byte at the high end.
proof fn lemma_le_unsigned_push(t: Seq<u8>, b: u8)
    ensures
        le_unsigned(t.push(b)) == le_unsigned(t) + b * pow256(t.len()),
    decreases t.len(),
{
    if t.len() == 0 {
        assert(t.push(b).drop_first() =~= Seq::<u8>::empty());
        assert(le_unsigned(Seq::<u8>::empty()) == 0);
        assert(t.push(b)[0] == b);
        assert(le_unsigned(t.push(b)) == b + 256 * le_unsigned(t.push(b).drop_first()));
        assert(pow256(0) == 1);
    } else {
        assert(t.push(b).drop_first() =~= t.drop_first().push(b));
        lemma_le_unsigned_push(t.drop_first(), b);
        let p1 = pow256((t.len() - 1) as nat);
        assert(pow256(t.len()) == 256 * p1);
        assert(b * (256 * p1) == 256 * (b * p1)) by (nonlinear_arith);
        assert(t.push(b)[0] == t[0]);
        assert(le_unsigned(t.push(b)) == t[0] + 256 * le_unsigned(t.drop_first().push(b)));
        assert(le_unsigned(t) == t[0] + 256 * le_unsigned(t.drop_first()));
    }
}

/// The signed reading of a byte sequence in terms of its unsigned reading:
/// values at or above half the range wrap to negative.
proof fn lemma_le_signed_from_unsigned(t: Seq<u8>)
    requires
        t.len() >= 1,
    ensures
        le_signed(t) == if 2 * le_unsigned(t) >= pow256(t.len()) {
            le_unsigned(t) - pow256(t.len())
        } else {
            le_unsigned(t)
        },
{
    let o = t.len();
    let h = t.drop_last();
    let b = t.last();
    assert(t =~= h.push(b));
    lemma_le_unsigned_push(h, b);
    lemma_le_unsigned_bound(h);
    lemma_pow256_pos((o - 1) as nat);
    assert(pow256(o) == 256 * pow256((o - 1) as nat));
    let p1 = pow256((o - 1) as nat);
    if b >= 0x80 {
        assert(b * p1 >= 128 * p1) by (nonlinear_arith)
            requires
                b >= 128,
                p1 >= 1,
        ;
        assert(2 * le_unsigned(t) >= pow256(o));
    } else {
        assert(b * p1 <= 127 * p1) by (nonlinear_arith)
            requires
                b <= 127,
                p1 >= 1,
        ;
        assert(2 * le_unsigned(t) < pow256(o));
    }
}

/// Appends the `n`-byte little-endian encoding of `v` to `out`.
fn push_le_bytes(out: &mut Vec<u8>, v: u64, n: u8)
    requires
        1 <= n <= 8,
        v < pow256(n as nat),
    ensures
        final(out)@.len() == old(out)@.len() + n,
        final(out)@.subrange(0, old(out)@.len() as int) == old(out)@,
        le_unsigned(final(out)@.subrange(old(out)@.len() as int, final(out)@.len() as int)) == v,
{
    let ghost gold = old(out)@;
    let ghost base = old(out)@.len() as int;
    let mut cur = v;
    let mut k: u8 = 0;
    while k < n
        invariant
            k <= n <= 8,
            out@.len() == base + k,
            0 <= base,
            out@.subrange(0, base) =~= gold,
            v < pow256(n as nat),
            le_unsigned(out@.subrange(base, base + k)) == (v as int) % pow256(k as nat),
            cur == (v as int) / pow256(k as nat),
        decreases n - k,
    {
        proof {
            lemma_pow256_pos(k as nat);
        }
        let b = (cur % 256) as u8;
        let ghost pre = out@;
        out.push(b);
        cur = cur / 256;
        proof {
            let p = pow256(k as nat);
            assert(pow256((k + 1) as nat) == 256 * p);
            assert(out@.subrange(0, base) =~= gold);
            assert(out@.subrange(base, base + k + 1) =~= pre.subrange(base, base + k).push(b));
            lemma_le_unsigned_push(pre.subrange(base, base + k), b);
            lemma_breakdown(v as int, p, 256);
            assert(b == ((v as int) / p) % 256);
            assert((v as int) % (p * 256) == p * (((v as int) / p) % 256) + (v as int) % p);
            assert(p * 256 == 256 * p);
            assert((((v as int) / p) % 256) * p == p * (((v as int) / p) % 256)) by (nonlinear_arith);
            lemma_div_denominator(v as int, p, 256);
            assert(cur == (v as int) / pow256((k + 1) as nat));
        }
        k = k + 1;
    }
    proof {
        lemma_small_mod(v as nat, pow256(n as nat) as nat);
        assert(out@.subrange(0, base) == gold);
    }
}

/// What the head bytes of one encoded run look like.
pub open spec fn head_encodes(head: Seq<u8>, run: RunList, prev: int) -> bool {
    &&& head.len() >= 2
    &&& run.length >= 1
    &&& {
        let l = (head[0] % 16) as int;
        let o = (head[0] / 16) as int;
        &&& 1 <= l <= 8
        &&& o <= 8
        &&& head.len() == 1 + l + o
        &&& le_unsigned(head.subrange(1, 1 + l)) == run.length
        &&& if run.offset == 0 {
            o == 0
        } else {
            &&& o >= 1
            &&& le_signed(head.subrange(1 + l, 1 + l + o)) == run.offset - prev
        }
    }
}

/// Decoding is oblivious to what lies before the current position: decoding
/// `s + t` from `s.len() + pos` is decoding `t` from `pos`.
pub proof fn lemma_decode_shift(s: Seq<u8>, t: Seq<u8>, pos: int, prev: int)
    requires
        0 <= pos <= t.len(),
    ensures
        spec_decode_runs(s + t, s.len() + pos, prev) == spec_decode_runs(t, pos, prev),
    decreases t.len() - pos,
{
    let u = s + t;
    let base = s.len() as int;
    if pos >= t.len() {
    } else {
        assert(u[base + pos] == t[pos]);
        let hdr = t[pos];
        let l = (hdr % 16) as int;
        let o = (hdr / 16) as int;
        if l == 0 || l > 8 || o > 8 {
        } else if pos + 1 + l > t.len() {
        } else {
            assert(u.subrange(base + pos + 1, base + pos + 1 + l) =~= t.subrange(
                pos + 1,
                pos + 1 + l,
            ));
            let run_length = le_unsigned(t.subrange(pos + 1, pos + 1 + l));
            if run_length == 0 {
            } else if o == 0 {
                lemma_decode_shift(s, t, pos + 1 + l, prev);
            } else if pos + 1 + l + o > t.len() {
            } else {
                assert(u.subrange(base + pos + 1 + l, base + pos + 1 + l + o) =~= t.subrange(
                    pos + 1 + l,
                    pos + 1 + l + o,
                ));
                let delta = le_signed(t.subrange(pos + 1 + l, pos + 1 + l + o));
                let newoff = prev + delta;
                if newoff < i64::MIN || newoff > i64::MAX {
                } else {
                    lemma_decode_shift(s, t, pos + 1 + l + o, newoff);
                }
            }
        }
    }
}

/// One encoded run followed by a correctly-decoding tail decodes to the run
/// followed by the tail's runs.
proof fn lemma_encode_step(
    runs: Seq<RunList>,
    i: int,
    prev: int,
    head: Seq<u8>,
    tail: Seq<u8>,
    run: RunList,
)
    requires
        0 <= i < runs.len(),
        run == runs[i],
        i64::MIN <= prev <= i64::MAX,
        head_encodes(head, run, prev),
        tail.len() >= 1,
        spec_decode_runs(
            tail,
            0,
            if run.offset == 0 {
                prev
            } else {
                run.offset as int
            },
        ) == Some(runs.skip(i + 1)),
    ensures
        spec_decode_runs(head + tail, 0, prev) == Some(runs.skip(i)),
{
    let s = head + tail;
    let hdr = s[0];
    assert(hdr == head[0]);
    let l = (hdr % 16) as int;
    let o = (hdr / 16) as int;
    let next_prev: int = if run.offset == 0 {
        prev
    } else {
        run.offset as int
    };
    assert(s.subrange(1, 1 + l) =~= head.subrange(1, 1 + l));
    assert(le_unsigned(s.subrange(1, 1 + l)) == run.length);
    if run.offset != 0 {
        assert(s.subrange(1 + l, 1 + l + o) =~= head.subrange(1 + l, 1 + l + o));
        assert(le_signed(s.subrange(1 + l, 1 + l + o)) == run.offset - prev);
        assert(prev + (run.offset - prev) == run.offset);
    }
    lemma_decode_shift(head, tail, 0, next_prev);
    assert(spec_decode_runs(s, head.len() as int, next_prev) == Some(runs.skip(i + 1)));
    assert(seq![run] + runs.skip(i + 1) =~= runs.skip(i));
}

fn append_bytes(out: &mut Vec<u8>, t: &Vec<u8>)
    ensures
        final(out)@ == old(out)@ + t@,
{
    let mut k: usize = 0;
    while k < t.len()
        invariant
            k <= t.len(),
            out@ == old(out)@ + t@.subrange(0, k as int),
        decreases t.len() - k,
    {
        out.push(t[k]);
        proof {
            assert(old(out)@ + t@.subrange(0, k + 1) =~= (old(out)@ + t@.subrange(0, k as int)).push(
                t@[k as int],
            ));
        }
        k = k + 1;
    }
    proof {
        assert(old(out)@ + t@.subrange(0, t@.len() as int) =~= old(out)@ + t@);
    }
}

/// Encodes `runs[i..]`, the accumulator standing at `prev`, and terminates
/// the list; decoding the result gives back exactly `runs[i..]`.
fn encode_from(runs: &Vec<RunList>, i: usize, prev: i64) -> (r: Vec<u8>)
    requires
        i <= runs.len(),
        runs_encodable(runs@, i as int, prev as int),
    ensures
        spec_decode_runs(r@, 0, prev as int) == Some(runs@.skip(i as int)),
        r@.len() >= 1,
    decreases runs.len() - i,
{
    if i == runs.len() {
        let mut out: Vec<u8> = Vec::new();
        out.push(0u8);
        proof {
            assert(runs@.skip(i as int) =~= Seq::<RunList>::empty());
            assert(spec_decode_runs(out@, 0, prev as int) == Some(Seq::<RunList>::empty()));
        }
        out
    } else {
        let run = runs[i];
        let l = min_len_bytes(run.length);
        let mut head: Vec<u8> = Vec::new();
        let next_prev: i64;
        if run.offset == 0 {
            head.push(l);
            let ghost h0 = head@;
            push_le_bytes(&mut head, run.length, l);
            next_prev = prev;
            proof {
                assert(head@.subrange(0, 1) == h0);
                assert(h0[0] == l);
                assert(head@.subrange(0, 1)[0] == head@[0]);
                assert(head@[0] == l);
                assert(head_encodes(head@, run, prev as int));
            }
        } else {
            let delta = run.offset - prev;
            let o = min_signed_bytes(delta);
            head.push(o * 16 + l);
            let ghost h0 = head@;
            push_le_bytes(&mut head, run.length, l);
            let ghost h1 = head@;
            // The delta is written as its two's-complement image reduced to
            // o bytes.
            let du: u64 = if delta >= 0 {
                delta as u64
            } else {
                let mag = (-(delta as i128)) as u64;
                (0xffff_ffff_ffff_ffffu64 - mag) + 1
            };
            let ghost p_o = pow256(o as nat);
            let du_mod: u64 = if o == 8 {
                du
            } else {
                let m = pow256_u64(o);
                du % m
            };
            proof {
                reveal_with_fuel(pow256, 9);
                lemma_pow256_pos(o as nat);
                if delta < 0 {
                    assert(du == delta + 0x1_0000_0000_0000_0000);
                }
                lemma_mod_wrap(delta as int, du as int, o as nat);
                assert(du_mod < p_o);
                assert((du_mod as int) % p_o == (delta as int) % p_o) by {
                    if o < 8 {
                        lemma_mod_twice(du as int, p_o);
                    } else {
                        lemma_small_mod(du as nat, p_o as nat);
                    }
                }
                lemma_small_mod(du_mod as nat, p_o as nat);
            }
            push_le_bytes(&mut head, du_mod, o);
            next_prev = run.offset;
            proof {
                assert(h1.subrange(0, 1) == h0);
                assert(head@.subrange(0, 1 + l as int) == h1);
                assert(h0[0] == o * 16 + l);
                assert(h1.subrange(0, 1)[0] == h1[0]);
                assert(head@.subrange(0, 1 + l as int)[0] == head@[0]);
                assert(head@[0] == o * 16 + l);
                assert((o * 16 + l) / 16 == o && (o * 16 + l) % 16 == l) by (nonlinear_arith)
                    requires
                        1 <= l <= 8,
                        1 <= o <= 8,
                ;
                assert(head@.subrange(1, 1 + l as int) =~= h1.subrange(1, 1 + l as int));
                let t = head@.subrange(1 + l as int, 1 + l + o as int);
                assert(le_unsigned(t) == du_mod);
                lemma_le_signed_from_unsigned(t);
                // du_mod is delta reduced modulo pow256(o); the signed
                // reading undoes the reduction because delta fits o bytes.
                assert(le_signed(t) == delta) by {
                    assert(pow256(o as nat) == p_o);
                    if delta >= 0 {
                        lemma_small_mod(delta as nat, p_o as nat);
                        assert(du_mod == delta);
                    } else {
                        lemma_mod_multiples_vanish(1, delta as int, p_o);
                        assert((delta + p_o) % p_o == (delta as int) % p_o);
                        lemma_small_mod((delta + p_o) as nat, p_o as nat);
                        assert(du_mod == delta + p_o);
                    }
                }
                assert(head_encodes(head@, run, prev as int));
            }
        }
        let tail = encode_from(runs, i + 1, next_prev);
        let ghost ghead = head@;
        let ghost gtail = tail@;
        let mut out = head;
        append_bytes(&mut out, &tail);
        proof {
            assert(out@ =~= ghead + gtail);
            lemma_encode_step(runs@, i as int, prev as int, ghead, gtail, run);
        }
        out
    }
}

/// 256 to the power `n`, for `n < 8`.
fn pow256_u64(n: u8) -> (r: u64)
    requires
        n < 8,
    ensures
        r == pow256(n as nat),
        r >= 1,
{
    proof {
        reveal_with_fuel(pow256, 9);
    }
    if n == 0 {
        1
    } else if n == 1 {
        0x100
    } else if n == 2 {
        0x1_0000
    } else if n == 3 {
        0x100_0000
    } else if n == 4 {
        0x1_0000_0000
    } else if n == 5 {
        0x100_0000_0000
    } else if n == 6 {
        0x1_0000_0000_0000
    } else {
        0x100_0000_0000_0000
    }
}

/// `delta` and its 64-bit two's-complement image agree modulo any
/// byte-width power.
proof fn lemma_mod_wrap(delta: int, du: int, o: nat)
    requires
        1 <= o <= 8,
        du == delta || du == delta + 0x1_0000_0000_0000_0000,
        0 <= du,
    ensures
        du % pow256(o) == delta % pow256(o),
{
    reveal_with_fuel(pow256, 9);
    if du != delta {
        lemma_pow256_pos(o);
        let p = pow256(o);
        let q = pow256((8 - o) as nat);
        assert(p * q == pow256(8)) by {
            lemma_pow256_mul(o, (8 - o) as nat);
        }
        lemma_mod_multiples_vanish(q, delta, p);
        assert(delta + q * p == du) by (nonlinear_arith)
            requires
                du == delta + 0x1_0000_0000_0000_0000,
                p * q == 0x1_0000_0000_0000_0000,
        ;
    }
}

proof fn lemma_pow256_mul(a: nat, b: nat)
    ensures
        pow256(a) * pow256(b) == pow256((a + b) as nat),
    decreases a,
{
    if a == 0 {
        assert(pow256(0) == 1);
    } else {
        lemma_pow256_mul((a - 1) as nat, b);
        assert(pow256(a) == 256 * pow256((a - 1) as nat));
        assert((256 * pow256((a - 1) as nat)) * pow256(b) == 256 * (pow256((a - 1) as nat)
            * pow256(b))) by (nonlinear_arith);
    }
}

/// Encodes a run list with minimum-byte delta encoding and a terminator.
/// Decoding the result yields exactly the input runs: the round trip holds
/// for every encodable run list, sparse holes included.
pub fn encode_runs(runs: &Vec<RunList>) -> (r: Vec<u8>)
    requires
        runs_encodable(runs@, 0, 0),
    ensures
        spec_decode_runs(r@, 0, 0) == Some(runs@),
{
    let r = encode_from(runs, 0, 0);
    proof {
        assert(runs@.skip(0) =~= runs@);
    }
    r
}

} // verus!
