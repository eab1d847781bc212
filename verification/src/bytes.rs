//! Little-endian byte encodings and bit-pattern reinterpretation.

use vstd::prelude::*;

verus! {

/// The value of the `n` bytes of `s` starting at `pos`, read little-endian.
pub open spec fn le_val(s: Seq<u8>, pos: int, n: int) -> int
    decreases n,
{
    if n <= 0 {
        0
    } else {
        s[pos] + 0x100 * le_val(s, pos + 1, n - 1)
    }
}

/// 256 raised to the power `n`: the number of values `n` bytes can hold.
pub open spec fn pow256(n: int) -> int
    decreases n,
{
    if n <= 0 {
        1
    } else {
        0x100 * pow256(n - 1)
    }
}

pub proof fn lemma_pow256_positive(n: int)
    ensures
        pow256(n) >= 1,
    decreases n,
{
    if n > 0 {
        lemma_pow256_positive(n - 1);
    }
}

pub proof fn lemma_pow256_mono(a: int, b: int)
    requires
        a <= b,
    ensures
        pow256(a) <= pow256(b),
    decreases b - a,
{
    if a < b {
        lemma_pow256_mono(a, b - 1);
        lemma_pow256_positive(b - 1);
    }
}

/// A little-endian value of `n` bytes lies below `pow256(n)`.
pub proof fn lemma_le_val_bound(s: Seq<u8>, pos: int, n: int)
    ensures
        0 <= le_val(s, pos, n) < pow256(n),
    decreases n,
{
    if n > 0 {
        lemma_le_val_bound(s, pos + 1, n - 1);
    }
}

/// Splitting a little-endian read: the low `m` bytes carry the value
/// modulo `pow256(m)`, the rest is scaled by `pow256(m)`.
pub proof fn lemma_le_val_split(s: Seq<u8>, pos: int, m: int, n: int)
    requires
        0 <= m,
        0 <= n,
    ensures
        le_val(s, pos, m + n) == le_val(s, pos, m) + pow256(m) * le_val(s, pos + m, n),
    decreases m,
{
    if m > 0 {
        lemma_le_val_split(s, pos + 1, m - 1, n);
        assert(le_val(s, pos, m + n) == s[pos] + 0x100 * le_val(s, pos + 1, m - 1 + n));
        let a = le_val(s, pos + 1, m - 1);
        let b = le_val(s, pos + m, n);
        let p = pow256(m - 1);
        assert(0x100 * (a + p * b) == 0x100 * a + (0x100 * p) * b) by (nonlinear_arith);
    }
}

/// Two sequences that agree on a byte range hold the same value there.
pub proof fn lemma_le_val_equal_ranges(s: Seq<u8>, t: Seq<u8>, pos: int, tpos: int, n: int)
    requires
        forall|i: int| 0 <= i < n ==> s[#[trigger] (pos + i)] == t[tpos + i],
    ensures
        le_val(s, pos, n) == le_val(t, tpos, n),
    decreases n,
{
    if n > 0 {
        assert(s[pos + 0] == t[tpos + 0]);
        assert(forall|i: int| 0 <= i < n - 1 ==> s[#[trigger] (pos + 1 + i)] == t[tpos + 1 + i])
            by {
            assert forall|i: int| 0 <= i < n - 1 implies s[#[trigger] (pos + 1 + i)] == t[tpos + 1
                + i] by {
                assert(s[pos + (i + 1)] == t[tpos + (i + 1)]);
            }
        }
        lemma_le_val_equal_ranges(s, t, pos + 1, tpos + 1, n - 1);
    }
}

/// Reads the `n`-byte little-endian value stored at `mem[pos..pos + n]`.
pub fn read_le(mem: &Vec<u8>, pos: usize, n: usize) -> (r: u64)
    requires
        n <= 8,
        pos + n <= mem@.len(),
    ensures
        r == le_val(mem@, pos as int, n as int),
        r < pow256(n as int),
{
    let len: usize = mem.len();
    let mut r: u64 = 0;
    let mut i: usize = n;
    while i > 0
        invariant
            i <= n,
            n <= 8,
            pos + n <= len,
            len == mem@.len(),
            r == le_val(mem@, pos + i, n - i),
        decreases i,
    {
        i = i - 1;
        proof {
            lemma_le_val_bound(mem@, pos + i + 1, n - i - 1);
            lemma_pow256_mono(n - i - 1, 7);
            reveal_with_fuel(pow256, 9);
            assert(pow256(7) == 0x100000000000000);
        }
        r = r * 0x100 + (mem[pos + i] as u64);
    }
    proof {
        lemma_le_val_bound(mem@, pos as int, n as int);
    }
    r
}

/// The `n` little-endian bytes a caller lays down for the value `v`,
/// zero-extended over any padding.
pub open spec fn le_bytes(v: int, n: int) -> Seq<u8>
    decreases n,
{
    if n <= 0 {
        Seq::empty()
    } else {
        seq![(v % 0x100) as u8] + le_bytes(v / 0x100, n - 1)
    }
}

pub proof fn lemma_le_bytes_len(v: int, n: int)
    requires
        0 <= n,
    ensures
        le_bytes(v, n).len() == n,
    decreases n,
{
    if n > 0 {
        lemma_le_bytes_len(v / 0x100, n - 1);
    }
}

/// Reading the low `m` bytes of an `n`-byte encoding recovers the
/// value, whenever the value fits `m` bytes.
pub proof fn lemma_le_bytes_read(v: int, n: int, m: int)
    requires
        0 <= m <= n,
        0 <= v < pow256(m),
    ensures
        le_val(le_bytes(v, n), 0, m) == v,
    decreases m,
{
    lemma_le_bytes_len(v, n);
    if m == 0 {
    } else {
        let s = le_bytes(v, n);
        let t = le_bytes(v / 0x100, n - 1);
        lemma_le_bytes_len(v / 0x100, n - 1);
        assert(forall|i: int| 0 <= i < m - 1 ==> s[#[trigger] (1 + i)] == t[0 + i]);
        lemma_le_val_equal_ranges(s, t, 1, 0, m - 1);
        vstd::arithmetic::div_mod::lemma_multiply_divide_lt(v, 0x100, pow256(m - 1));
        lemma_le_bytes_read(v / 0x100, n - 1, m - 1);
        vstd::arithmetic::div_mod::lemma_fundamental_div_mod(v, 0x100);
    }
}

/// The meaning of a 32-bit pattern reinterpreted as two's-complement.
pub open spec fn sign32(b: int) -> int {
    if b < 0x80000000 {
        b
    } else {
        b - 0x100000000
    }
}

/// The meaning of a 64-bit pattern reinterpreted as two's-complement.
pub open spec fn sign64(b: int) -> int {
    if b < 0x8000000000000000 {
        b
    } else {
        b - 0x10000000000000000
    }
}

/// Reinterprets a 32-bit pattern as a signed integer, bits unchanged.
pub fn reinterpret_i32(b: u32) -> (r: i32)
    ensures
        r as int == sign32(b as int),
{
    if b < 0x80000000 {
        b as i32
    } else {
        (b - 0x80000000) as i32 + i32::MIN
    }
}

/// Reinterprets a 64-bit pattern as a signed integer, bits unchanged.
pub fn reinterpret_i64(b: u64) -> (r: i64)
    ensures
        r as int == sign64(b as int),
{
    if b < 0x8000000000000000 {
        b as i64
    } else {
        (b - 0x8000000000000000) as i64 + i64::MIN
    }
}

} // verus!
