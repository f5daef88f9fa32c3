//! Little-endian integer views of byte sequences.
//!
//! Every multi-byte integer in an NTFS volume is little-endian. The spec
//! functions here give the mathematical value of a byte sequence read that
//! way, unsigned or sign-extended, and the executable readers are proved
//! against them.

use vstd::prelude::*;

verus! {

/// 256 to the power `n`: the number of values of an `n`-byte field.
pub open spec fn pow256(n: nat) -> int
    decreases n,
{
    if n == 0 {
        1
    } else {
        256 * pow256((n - 1) as nat)
    }
}

/// 2 to the power `n`.
pub open spec fn pow2i(n: nat) -> int
    decreases n,
{
    if n == 0 {
        1
    } else {
        2 * pow2i((n - 1) as nat)
    }
}

/// The signed value of a single byte read as two's complement.
pub open spec fn sbyte(b: u8) -> int {
    if b >= 0x80 {
        b - 256
    } else {
        b as int
    }
}

/// Reads byte `i` of `d` as a signed 8-bit value.
pub fn read_i8_at(d: &Vec<u8>, i: usize) -> (r: i8)
    requires
        i < d.len(),
    ensures
        r == sbyte(d@[i as int]),
{
    let raw = d[i];
    if raw >= 0x80 {
        (raw as i16 - 256) as i8
    } else {
        raw as i8
    }
}

/// Computes 2 to the power `n` for `n < 32`.
pub fn pow2_u32(n: u8) -> (r: u32)
    requires
        n < 32,
    ensures
        r == pow2i(n as nat),
        r >= 1,
{
    let mut r: u32 = 1;
    let mut k: u8 = 0;
    while k < n
        invariant
            k <= n < 32,
            r == pow2i(k as nat),
        decreases n - k,
    {
        proof {
            lemma_pow2i_mono((k + 1) as nat, 31);
            reveal_with_fuel(pow2i, 33);
        }
        r = 2 * r;
        k = k + 1;
    }
    proof {
        lemma_pow2i_pos(n as nat);
    }
    r
}

pub proof fn lemma_pow2i_pos(n: nat)
    ensures
        pow2i(n) >= 1,
    decreases n,
{
    if n > 0 {
        lemma_pow2i_pos((n - 1) as nat);
    }
}

pub proof fn lemma_pow2i_mono(a: nat, b: nat)
    requires
        a <= b,
    ensures
        pow2i(a) <= pow2i(b),
    decreases b,
{
    if a < b {
        lemma_pow2i_mono(a, (b - 1) as nat);
        lemma_pow2i_pos((b - 1) as nat);
    }
}

/// The unsigned value of `s` read as a little-endian integer.
pub open spec fn le_unsigned(s: Seq<u8>) -> int
    decreases s.len(),
{
    if s.len() == 0 {
        0
    } else {
        s[0] + 256 * le_unsigned(s.drop_first())
    }
}

/// The signed value of `s` read as a little-endian two's-complement integer:
/// the high bit of the most significant byte is the sign.
pub open spec fn le_signed(s: Seq<u8>) -> int {
    if s.len() > 0 && s[s.len() - 1] >= 0x80 {
        le_unsigned(s) - pow256(s.len())
    } else {
        le_unsigned(s)
    }
}

/// The unsigned 16-bit field of `s` at byte offset `i`.
pub open spec fn le16_at(s: Seq<u8>, i: int) -> int {
    le_unsigned(s.subrange(i, i + 2))
}

/// The unsigned 32-bit field of `s` at byte offset `i`.
pub open spec fn le32_at(s: Seq<u8>, i: int) -> int {
    le_unsigned(s.subrange(i, i + 4))
}

/// The unsigned 48-bit field of `s` at byte offset `i`.
pub open spec fn le48_at(s: Seq<u8>, i: int) -> int {
    le_unsigned(s.subrange(i, i + 6))
}

/// The unsigned 64-bit field of `s` at byte offset `i`.
pub open spec fn le64_at(s: Seq<u8>, i: int) -> int {
    le_unsigned(s.subrange(i, i + 8))
}

pub proof fn lemma_pow256_pos(n: nat)
    ensures
        pow256(n) >= 1,
    decreases n,
{
    if n > 0 {
        lemma_pow256_pos((n - 1) as nat);
    }
}

pub proof fn lemma_pow256_mono(a: nat, b: nat)
    requires
        a <= b,
    ensures
        pow256(a) <= pow256(b),
    decreases b,
{
    if a < b {
        lemma_pow256_mono(a, (b - 1) as nat);
        lemma_pow256_pos((b - 1) as nat);
    }
}

/// An `n`-byte field holds a value in `[0, 256^n)`.
pub proof fn lemma_le_unsigned_bound(s: Seq<u8>)
    ensures
        0 <= le_unsigned(s) < pow256(s.len()),
    decreases s.len(),
{
    if s.len() > 0 {
        lemma_le_unsigned_bound(s.drop_first());
    }
}

/// A signed `n`-byte field holds a value in `[-256^n / 2, 256^n / 2)`.
pub proof fn lemma_le_signed_bound(s: Seq<u8>)
    requires
        s.len() >= 1,
    ensures
        -pow256(s.len()) <= 2 * le_signed(s) < pow256(s.len()),
    decreases s.len(),
{
    lemma_le_unsigned_bound(s);
    if s.len() == 1 {
        assert(le_unsigned(s) == s[0] + 256 * le_unsigned(s.drop_first()));
        assert(le_unsigned(s.drop_first()) == 0);
        assert(pow256(1) == 256 * pow256(0));
    } else {
        let t = s.drop_first();
        lemma_le_signed_bound(t);
        assert(t[t.len() - 1] == s[s.len() - 1]);
        assert(le_signed(s) == s[0] + 256 * le_signed(t)) by {
            if s[s.len() - 1] >= 0x80 {
                assert(le_unsigned(s) - pow256(s.len()) == s[0] + 256 * (le_unsigned(t) - pow256(
                    t.len(),
                )));
            }
        }
        // 2 * le_signed(t) is even and pow256(t.len()) is even, so the strict
        // bound tightens by one more unit before scaling by 256.
        assert(pow256(t.len()) == 256 * pow256((t.len() - 1) as nat));
        lemma_pow256_pos((t.len() - 1) as nat);
        assert(2 * le_signed(t) <= pow256(t.len()) - 2);
    }
}

/// Reads the `n`-byte little-endian unsigned field of `d` at offset `i`,
/// zero-extended to 64 bits.
pub fn read_uint_at(d: &Vec<u8>, i: usize, n: usize) -> (r: u64)
    requires
        n <= 8,
        i + n <= d.len(),
    ensures
        r == le_unsigned(d@.subrange(i as int, i + n)),
{
    proof {
        reveal_with_fuel(pow256, 9);
    }
    let mut acc: u64 = 0;
    let mut k: usize = n;
    while k > 0
        invariant
            k <= n <= 8,
            i + n <= d.len(),
            acc == le_unsigned(d@.subrange(i + k, i + n)),
            acc < pow256((n - k) as nat),
            pow256(8) == 0x1_0000_0000_0000_0000,
        decreases k,
    {
        k = k - 1;
        let b = d[i + k];
        proof {
            let s = d@.subrange(i + k, i + n);
            let t = d@.subrange(i + k + 1, i + n);
            assert(s.drop_first() =~= t);
            assert(s[0] == b);
            assert(pow256(((n - k) - 1) as nat) * 256 == pow256((n - k) as nat));
            lemma_pow256_mono((n - k) as nat, 8);
        }
        acc = b as u64 + 256 * acc;
    }
    proof {
        assert(d@.subrange(i as int, i + n) =~= d@.subrange(i + 0, i + n));
    }
    acc
}

/// Reads the `n`-byte little-endian signed field of `d` at offset `i`,
/// sign-extended to 64 bits.
pub fn read_int_at(d: &Vec<u8>, i: usize, n: usize) -> (r: i64)
    requires
        1 <= n <= 8,
        i + n <= d.len(),
    ensures
        r == le_signed(d@.subrange(i as int, i + n)),
{
    proof {
        reveal_with_fuel(pow256, 9);
    }
    let top = d[i + n - 1];
    let mut acc: i64 = if top >= 0x80 {
        top as i64 - 256
    } else {
        top as i64
    };
    proof {
        let s1 = d@.subrange(i + (n - 1), i + n);
        assert(s1.drop_first() =~= Seq::<u8>::empty());
        assert(le_unsigned(Seq::<u8>::empty()) == 0);
        assert(s1[0] == top);
        assert(le_unsigned(s1) == top);
        assert(acc == le_signed_suffix(d@, i as int, i + n, i + (n - 1)));
    }
    let mut k: usize = n - 1;
    while k > 0
        invariant
            k <= n - 1,
            n <= 8,
            i + n <= d.len(),
            acc == le_signed_suffix(d@, i as int, i + n, i + k),
            -128 * pow256((n - k - 1) as nat) <= acc < 128 * pow256((n - k - 1) as nat),
            pow256(8) == 0x1_0000_0000_0000_0000,
        decreases k,
    {
        k = k - 1;
        let b = d[i + k];
        proof {
            lemma_le_signed_suffix_step(d@, i as int, i + n, i + k);
            assert(pow256(((n - k) - 1) as nat) == 256 * pow256(((n - k) - 2) as nat));
            lemma_pow256_mono(((n - k) - 1) as nat, 7);
            reveal_with_fuel(pow256, 9);
        }
        acc = b as i64 + 256 * acc;
    }
    proof {
        lemma_le_signed_suffix_full(d@, i as int, i + n);
    }
    acc
}

/// The suffix `[k, end)` of the field `[start, end)` read as a signed value
/// whose sign is taken from the field's most significant byte.
pub open spec fn le_signed_suffix(s: Seq<u8>, start: int, end: int, k: int) -> int {
    if s[end - 1] >= 0x80 {
        le_unsigned(s.subrange(k, end)) - pow256((end - k) as nat)
    } else {
        le_unsigned(s.subrange(k, end))
    }
}

proof fn lemma_le_signed_suffix_step(s: Seq<u8>, start: int, end: int, k: int)
    requires
        start <= k < end - 1 <= s.len() - 1,
        0 <= start,
    ensures
        le_signed_suffix(s, start, end, k) == s[k] + 256 * le_signed_suffix(s, start, end, k + 1),
{
    let a = s.subrange(k, end);
    let b = s.subrange(k + 1, end);
    assert(a.drop_first() =~= b);
    assert(a[0] == s[k]);
}

proof fn lemma_le_signed_suffix_full(s: Seq<u8>, start: int, end: int)
    requires
        0 <= start < end <= s.len(),
    ensures
        le_signed_suffix(s, start, end, start) == le_signed(s.subrange(start, end)),
{
    let a = s.subrange(start, end);
    assert(a[a.len() - 1] == s[end - 1]);
}

/// Reads the unsigned 16-bit field of `d` at offset `i`.
pub fn read_u16_at(d: &Vec<u8>, i: usize) -> (r: u16)
    requires
        i + 2 <= d.len(),
    ensures
        r == le16_at(d@, i as int),
{
    let w = read_uint_at(d, i, 2);
    proof {
        reveal_with_fuel(pow256, 3);
        lemma_le_unsigned_bound(d@.subrange(i as int, i + 2));
    }
    w as u16
}

/// Reads the unsigned 32-bit field of `d` at offset `i`.
pub fn read_u32_at(d: &Vec<u8>, i: usize) -> (r: u32)
    requires
        i + 4 <= d.len(),
    ensures
        r == le32_at(d@, i as int),
{
    let w = read_uint_at(d, i, 4);
    proof {
        reveal_with_fuel(pow256, 5);
        lemma_le_unsigned_bound(d@.subrange(i as int, i + 4));
    }
    w as u32
}

/// Reads the unsigned 48-bit field of `d` at offset `i`, zero-extended.
pub fn read_u48_at(d: &Vec<u8>, i: usize) -> (r: u64)
    requires
        i + 6 <= d.len(),
    ensures
        r == le48_at(d@, i as int),
{
    read_uint_at(d, i, 6)
}

/// Reads the unsigned 64-bit field of `d` at offset `i`.
pub fn read_u64_at(d: &Vec<u8>, i: usize) -> (r: u64)
    requires
        i + 8 <= d.len(),
    ensures
        r == le64_at(d@, i as int),
{
    read_uint_at(d, i, 8)
}

/// The UTF-16LE code units of a byte sequence: unit `k` is the 16-bit
/// little-endian field at byte offset `2 * k`.
pub open spec fn spec_utf16_units(s: Seq<u8>) -> Seq<u16> {
    Seq::new((s.len() / 2) as nat, |k: int| le16_at(s, 2 * k) as u16)
}

/// Regroups a byte buffer into its UTF-16LE code units.
pub fn utf16_units(d: &Vec<u8>) -> (r: Vec<u16>)
    ensures
        r@ == spec_utf16_units(d@),
{
    let mut r: Vec<u16> = Vec::new();
    let count = d.len() / 2;
    let mut k: usize = 0;
    while k < count
        invariant
            k <= count,
            count == d@.len() / 2,
            2 * count <= usize::MAX,
            r@.len() == k,
            forall|j: int| 0 <= j < k ==> r@[j] == le16_at(d@, 2 * j) as u16,
        decreases count - k,
    {
        proof {
            assert(2 * (d@.len() / 2) <= d@.len());
        }
        let u = read_u16_at(d, 2 * k);
        r.push(u);
        k = k + 1;
    }
    proof {
        assert(r@ =~= spec_utf16_units(d@));
    }
    r
}

} // verus!
