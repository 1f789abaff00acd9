//! IEEE-754 values held as their bit patterns.
//!
//! Coordinates, widths and sizes are binary64 / binary32 numbers in the
//! map model. The library keeps their bit patterns (`f64::to_bits`,
//! `f32::to_bits`) and states ordering and the few computations it makes
//! on them over these patterns.
use vstd::prelude::*;

verus! {

// ---------------------------------------------------------------------------
// binary64 ordering
// ---------------------------------------------------------------------------

/// Whether the sign bit of a binary64 pattern is set.
pub open spec fn f64_negative_bit(b: u64) -> bool {
    b >= 0x8000_0000_0000_0000
}

/// The pattern without its sign bit.
pub open spec fn f64_magnitude(b: u64) -> int {
    (b % 0x8000_0000_0000_0000) as int
}

/// Whether a binary64 pattern is a NaN (all exponent bits set, fraction not zero).
pub open spec fn f64_is_nan(b: u64) -> bool {
    f64_magnitude(b) > 0x7FF0_0000_0000_0000
}

/// An integer that orders the non-NaN binary64 values as the reals they denote;
/// both zeros map to 0.
pub open spec fn f64_key(b: u64) -> int {
    if f64_negative_bit(b) {
        -f64_magnitude(b)
    } else {
        f64_magnitude(b)
    }
}

/// `a < b` on binary64 values.
pub open spec fn f64_lt(a: u64, b: u64) -> bool {
    !f64_is_nan(a) && !f64_is_nan(b) && f64_key(a) < f64_key(b)
}

/// `a <= b` on binary64 values.
pub open spec fn f64_le(a: u64, b: u64) -> bool {
    !f64_is_nan(a) && !f64_is_nan(b) && f64_key(a) <= f64_key(b)
}

/// `a == b` on binary64 values (NaN equals nothing, the two zeros are equal).
pub open spec fn f64_eq(a: u64, b: u64) -> bool {
    !f64_is_nan(a) && !f64_is_nan(b) && f64_key(a) == f64_key(b)
}

/// Bits of `f64::INFINITY`.
pub open spec fn f64_infinity() -> u64 {
    0x7FF0_0000_0000_0000
}

/// Bits of `f64::NEG_INFINITY`.
pub open spec fn f64_neg_infinity() -> u64 {
    0xFFF0_0000_0000_0000
}

/// `f64::min` on patterns: a NaN operand yields the other operand, otherwise the
/// lesser value; of two equal values (the two zeros) this gives the first, which is
/// one of the two results that std allows.
pub open spec fn f64_min(a: u64, b: u64) -> u64 {
    if f64_is_nan(a) {
        b
    } else if f64_is_nan(b) {
        a
    } else if f64_key(b) < f64_key(a) {
        b
    } else {
        a
    }
}

/// `f64::max` on patterns, with the same conventions as `f64_min`.
pub open spec fn f64_max(a: u64, b: u64) -> u64 {
    if f64_is_nan(a) {
        b
    } else if f64_is_nan(b) {
        a
    } else if f64_key(b) > f64_key(a) {
        b
    } else {
        a
    }
}

fn f64_key_exec(b: u64) -> (k: i128)
    ensures
        k == f64_key(b),
{
    let m = (b % 0x8000_0000_0000_0000) as i128;
    if b >= 0x8000_0000_0000_0000 {
        -m
    } else {
        m
    }
}

/// Whether `b` is a NaN pattern.
pub fn f64_bits_is_nan(b: u64) -> (r: bool)
    ensures
        r == f64_is_nan(b),
{
    b % 0x8000_0000_0000_0000 > 0x7FF0_0000_0000_0000
}

/// `a < b` on binary64 patterns.
pub fn f64_bits_lt(a: u64, b: u64) -> (r: bool)
    ensures
        r == f64_lt(a, b),
{
    !f64_bits_is_nan(a) && !f64_bits_is_nan(b) && f64_key_exec(a) < f64_key_exec(b)
}

/// `a == b` on binary64 patterns.
pub fn f64_bits_eq(a: u64, b: u64) -> (r: bool)
    ensures
        r == f64_eq(a, b),
{
    !f64_bits_is_nan(a) && !f64_bits_is_nan(b) && f64_key_exec(a) == f64_key_exec(b)
}

/// `f64::min` on bit patterns.
pub fn f64_bits_min(a: u64, b: u64) -> (r: u64)
    ensures
        r == f64_min(a, b),
{
    if f64_bits_is_nan(a) {
        b
    } else if f64_bits_is_nan(b) {
        a
    } else if f64_key_exec(b) < f64_key_exec(a) {
        b
    } else {
        a
    }
}

/// `f64::max` on bit patterns.
pub fn f64_bits_max(a: u64, b: u64) -> (r: u64)
    ensures
        r == f64_max(a, b),
{
    if f64_bits_is_nan(a) {
        b
    } else if f64_bits_is_nan(b) {
        a
    } else if f64_key_exec(b) > f64_key_exec(a) {
        b
    } else {
        a
    }
}

// ---------------------------------------------------------------------------
// binary32: (x * 255.0) as u8
// ---------------------------------------------------------------------------

/// 2 to the power `k`.
pub open spec fn pow2n(k: nat) -> nat
    decreases k,
{
    if k == 0 {
        1
    } else {
        2 * pow2n((k - 1) as nat)
    }
}

/// Number of binary digits of `n` (0 for 0).
pub open spec fn bit_len(n: nat) -> nat
    decreases n,
{
    if n == 0 {
        0
    } else {
        1 + bit_len(n / 2)
    }
}

/// The value `n * 2^e` rounded to 24 significant bits, to nearest with ties to even,
/// as a pair `(q, s)` denoting `q * 2^s`.
pub open spec fn round_to_24_bits(n: nat, e: int) -> (nat, int) {
    let l = bit_len(n);
    if l <= 24 {
        (n, e)
    } else {
        let k = (l - 24) as nat;
        let p = pow2n(k);
        let q = n / p;
        let r = n % p;
        if 2 * r > p || (2 * r == p && q % 2 == 1) {
            (q + 1, e + k)
        } else {
            (q, e + k)
        }
    }
}

/// The integer part of `q * 2^s`.
pub open spec fn floor_scaled(q: nat, s: int) -> nat {
    if s >= 0 {
        q * pow2n(s as nat)
    } else {
        q / pow2n((-s) as nat)
    }
}

/// What `(f32::from_bits(b) * 255.0) as u8` gives: the product rounded to binary32
/// (nearest, ties to even), then truncated toward zero and saturated to 0..=255,
/// NaN giving 0.
pub open spec fn f32_times_255_byte(b: u32) -> u8 {
    let exp = (b / 0x80_0000) % 256;
    let frac = b % 0x80_0000;
    if b >= 0x8000_0000 {
        0
    } else if exp == 255 {
        if frac == 0 {
            255
        } else {
            0
        }
    } else {
        let m: nat = if exp == 0 {
            frac as nat
        } else {
            (frac + 0x80_0000) as nat
        };
        let e: int = (if exp == 0 {
            1int
        } else {
            exp as int
        }) - 150;
        let qs = round_to_24_bits(255 * m, e);
        let f = floor_scaled(qs.0, qs.1);
        if f >= 255 {
            255
        } else {
            f as u8
        }
    }
}

proof fn lemma_pow2n_pos(k: nat)
    ensures
        pow2n(k) >= 1,
    decreases k,
{
    if k > 0 {
        lemma_pow2n_pos((k - 1) as nat);
    }
}

proof fn lemma_pow2n_mono(a: nat, b: nat)
    requires
        a <= b,
    ensures
        pow2n(a) <= pow2n(b),
    decreases b,
{
    if a < b {
        lemma_pow2n_mono(a, (b - 1) as nat);
        lemma_pow2n_pos((b - 1) as nat);
    }
}

proof fn lemma_bit_len_bound(n: nat)
    ensures
        n < pow2n(bit_len(n)),
        n > 0 ==> pow2n((bit_len(n) - 1) as nat) <= n,
    decreases n,
{
    if n > 0 {
        lemma_bit_len_bound(n / 2);
        if n / 2 > 0 {
            assert(bit_len(n / 2) >= 1);
        }
    }
}

/// Computes `2^k`.
fn pow2_u64(k: u32) -> (p: u64)
    requires
        k < 64,
    ensures
        p == pow2n(k as nat),
{
    let mut p: u64 = 1;
    let mut i: u32 = 0;
    proof {
        lemma_pow2n_63();
    }
    while i < k
        invariant
            i <= k < 64,
            p == pow2n(i as nat),
            pow2n(63) == 0x8000_0000_0000_0000,
        decreases k - i,
    {
        proof {
            lemma_pow2n_mono((i + 1) as nat, 63);
        }
        p = p * 2;
        i = i + 1;
    }
    p
}

/// `(f32::from_bits(bits) * 255.0) as u8`, computed on the bit pattern.
pub fn f32_times_255_to_byte(bits: u32) -> (r: u8)
    ensures
        r == f32_times_255_byte(bits),
{
    if bits >= 0x8000_0000 {
        return 0;
    }
    let exp = (bits / 0x80_0000) % 256;
    let frac = bits % 0x80_0000;
    if exp == 255 {
        return if frac == 0 {
            255
        } else {
            0
        };
    }
    let m: u64 = if exp == 0 {
        frac as u64
    } else {
        (frac + 0x80_0000) as u64
    };
    let e: i64 = (if exp == 0 {
        1i64
    } else {
        exp as i64
    }) - 150;
    let n: u64 = 255 * m;
    if n == 0 {
        assert(bit_len(0) == 0);
        assert(floor_scaled(0, e as int) == 0) by {
            lemma_pow2n_pos((-e) as nat);
        };
        return 0;
    }
    // bit length of n
    proof {
        lemma_pow2n_32();
        lemma_bit_len_le(n as nat, 32);
    }
    let mut l: u64 = 0;
    let mut t: u64 = n;
    while t > 0
        invariant
            bit_len(n as nat) == l + bit_len(t as nat),
            bit_len(n as nat) <= 32,
        decreases t,
    {
        assert(bit_len(t as nat) == 1 + bit_len((t / 2) as nat));
        t = t / 2;
        l = l + 1;
    }
    assert(bit_len(0) == 0);
    proof {
        lemma_bit_len_bound(n as nat);
    }
    // rounding to 24 significant bits
    let (q, s): (u64, i64) = if l <= 24 {
        (n, e)
    } else {
        let k = (l - 24) as u32;
        let p = pow2_u64(k);
        proof {
            lemma_pow2n_pos(k as nat);
        }
        let q0 = n / p;
        let r = n % p;
        proof {
            lemma_pow2n_add(24, k as nat);
            lemma_pow2n_pos(k as nat);
            lemma_div_bound(n as nat, pow2n(24), p as nat);
        }
        if 2 * r > p || (2 * r == p && q0 % 2 == 1) {
            (q0 + 1, e + k as i64)
        } else {
            (q0, e + k as i64)
        }
    };
    assert(round_to_24_bits(255 * m as nat, e as int) == (q as nat, s as int));
    proof {
        lemma_pow2n_8();
        lemma_round_positive(n as nat, e as int);
    }
    assert(q >= 1 && q <= 0x1_0000_0000);
    if s >= 8 {
        proof {
            lemma_pow2n_mono(8, s as nat);
            assert(q * pow2n(s as nat) >= pow2n(s as nat)) by (nonlinear_arith)
                requires
                    q >= 1,
            ;
        }
        return 255;
    }
    if s >= 0 {
        let p = pow2_u64(s as u32);
        proof {
            lemma_pow2n_mono(s as nat, 8);
            assert(q * p <= 0x1_0000_0000 * 256) by (nonlinear_arith)
                requires
                    q <= 0x1_0000_0000,
                    p <= 256,
            ;
        }
        let f = q * p;
        return if f >= 255 {
            255
        } else {
            f as u8
        };
    }
    let ns: i64 = -s;
    if ns >= 40 {
        proof {
            lemma_pow2n_40();
            lemma_pow2n_mono(40, ns as nat);
            assert((q as nat) / pow2n(ns as nat) == 0) by (nonlinear_arith)
                requires
                    (q as nat) < pow2n(ns as nat),
            ;
        }
        return 0;
    }
    let p = pow2_u64(ns as u32);
    proof {
        lemma_pow2n_pos(ns as nat);
    }
    let f = q / p;
    proof {
        assert(f <= q) by (nonlinear_arith)
            requires
                p >= 1,
                f == q / p,
        ;
    }
    if f >= 255 {
        255
    } else {
        f as u8
    }
}

proof fn lemma_pow2n_63()
    ensures
        pow2n(63) == 0x8000_0000_0000_0000,
{
    reveal_with_fuel(pow2n, 64);
}

proof fn lemma_pow2n_8()
    ensures
        pow2n(8) == 256,
{
    reveal_with_fuel(pow2n, 9);
}

proof fn lemma_pow2n_32()
    ensures
        pow2n(24) == 0x100_0000,
        pow2n(32) == 0x1_0000_0000,
{
    reveal_with_fuel(pow2n, 33);
}

proof fn lemma_pow2n_40()
    ensures
        pow2n(40) == 0x100_0000_0000,
{
    reveal_with_fuel(pow2n, 41);
}

proof fn lemma_pow2n_add(a: nat, b: nat)
    ensures
        pow2n(a + b) == pow2n(a) * pow2n(b),
    decreases b,
{
    if b > 0 {
        let b1 = (b - 1) as nat;
        lemma_pow2n_add(a, b1);
        let x = pow2n(a);
        let y = pow2n(b1);
        assert(pow2n(a + b) == 2 * pow2n(a + b1));
        assert(pow2n(b) == 2 * y);
        assert(x * (2 * y) == 2 * (x * y)) by (nonlinear_arith);
        assert(pow2n(a) * pow2n(b) == x * (2 * y));
    } else {
        assert(pow2n(0) == 1);
        assert(a + b == a);
        assert(pow2n(a) * 1 == pow2n(a));
    }
}

proof fn lemma_bit_len_le(n: nat, k: nat)
    requires
        n < pow2n(k),
    ensures
        bit_len(n) <= k,
    decreases k,
{
    if n > 0 {
        assert(k > 0);
        lemma_bit_len_le(n / 2, (k - 1) as nat);
    }
}

proof fn lemma_div_bound(n: nat, a: nat, p: nat)
    requires
        p >= 1,
        n < a * p,
    ensures
        n / p < a,
{
    assert(n / p < a) by (nonlinear_arith)
        requires
            p >= 1,
            n < a * p,
    ;
}

proof fn lemma_round_positive(n: nat, e: int)
    requires
        n > 0,
        n < 0x1_0000_0000,
    ensures
        round_to_24_bits(n, e).0 >= 1,
        round_to_24_bits(n, e).0 <= 0x1_0000_0000,
{
    lemma_bit_len_bound(n);
    lemma_pow2n_32();
    let l = bit_len(n);
    if l > 24 {
        let k = (l - 24) as nat;
        lemma_pow2n_add(24, k);
        lemma_pow2n_add(k, (l - 1 - k) as nat);
        lemma_pow2n_pos(k);
        lemma_pow2n_pos((l - 1 - k) as nat);
        lemma_div_bound(n, pow2n(24), pow2n(k));
        assert(pow2n(k) <= pow2n((l - 1) as nat)) by {
            lemma_pow2n_mono(k, (l - 1) as nat);
        };
        assert(n / pow2n(k) >= 1) by (nonlinear_arith)
            requires
                pow2n(k) <= n,
                pow2n(k) >= 1,
        ;
    }
}

} // verus!
