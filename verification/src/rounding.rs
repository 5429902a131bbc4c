//! Binary floating-point rounding, computed exactly with integers.
//!
//! Scores from a fraction are defined by a conversion through binary
//! floating point: numerator and denominator are converted, divided, the
//! quotient is clamped to at most one and multiplied by 100, and the product
//! is rounded half away from zero.  Every floating-point step rounds to the
//! nearest representable value, ties to even.  The functions here reproduce
//! those steps on integers, for significands of `lo + 1` bits (24 for single
//! precision, 53 for double precision), on the normal range, which is all
//! that quotients of 64-bit integers reach.

use vstd::arithmetic::div_mod::{lemma_div_denominator, lemma_fundamental_div_mod};
use vstd::arithmetic::power2::{lemma_pow2_adds, lemma_pow2_pos, lemma_pow2_unfold, pow2};
use vstd::prelude::*;

verus! {

/// Fraction bits of a single-precision significand.
pub const SINGLE_FRACTION_BITS: u32 = 23;

/// Fraction bits of a double-precision significand.
pub const DOUBLE_FRACTION_BITS: u32 = 52;

/// `a / b` rounded to the nearest integer, ties to the even one.
pub open spec fn rne(a: nat, b: nat) -> nat {
    let q = a / b;
    let r = a % b;
    if 2 * r < b {
        q
    } else if 2 * r > b {
        q + 1
    } else if q % 2 == 0 {
        q
    } else {
        q + 1
    }
}

/// How many halvings bring the integer `x` below `2^(lo+1)`: the exponent of
/// the last significand bit of `x`.
pub open spec fn down_shift(x: nat, lo: nat) -> nat
    decreases x,
{
    if x < pow2(lo + 1) {
        0
    } else {
        proof {
            lemma_pow2_pos(lo + 1);
        }
        1 + down_shift(x / 2, lo)
    }
}

/// How many doublings bring `a / b` to at least `2^lo`.
pub open spec fn up_shift(a: nat, b: nat, lo: nat) -> nat
    decreases (if a < pow2(lo) * b { pow2(lo) * b - a } else { 0 }),
{
    if a == 0 || a >= pow2(lo) * b {
        0
    } else {
        1 + up_shift(2 * a, b, lo)
    }
}

/// The binary floating-point value nearest the integer `x`, with a
/// significand of `lo + 1` bits.
pub open spec fn round_int(x: nat, lo: nat) -> nat {
    let s = down_shift(x, lo);
    rne(x, pow2(s)) * pow2(s)
}

/// The score that the fraction `num / den` gets through binary floating
/// point with significands of `lo + 1` bits: `num` and `den` are converted,
/// the quotient is clamped to at most one, multiplied by 100, and rounded
/// half away from zero.  For a quotient below one, the rounded quotient is
/// `m / 2^q`, the rounded product `g / 2^q`.
pub open spec fn binary_fraction_score(num: nat, den: nat, lo: nat) -> nat {
    let n = round_int(num, lo);
    let d = round_int(den, lo);
    if n == 0 {
        0
    } else if n >= d {
        100
    } else {
        let q = up_shift(n, d, lo);
        let m = rne(n * pow2(q), d);
        let g = round_int(100 * m, lo);
        (2 * g + pow2(q)) / (2 * pow2(q))
    }
}

/// `a <= c * b` bounds the rounded quotient `a / b` by `c`.
proof fn lemma_rne_le(a: nat, b: nat, c: nat)
    requires
        b > 0,
        a <= c * b,
    ensures
        rne(a, b) <= c,
{
    lemma_fundamental_div_mod(a as int, b as int);
    let q = a / b;
    let r = a % b;
    assert(q <= c) by (nonlinear_arith)
        requires
            a == b * q + r,
            0 <= r < b,
            a <= c * b,
    ;
    if q == c {
        assert(r == 0) by (nonlinear_arith)
            requires
                a == b * q + r,
                0 <= r,
                a <= c * b,
                q == c,
        ;
    }
}

/// The rounded quotient `a / b` is at most one more than the quotient.
proof fn lemma_rne_bound(a: nat, b: nat)
    requires
        b > 0,
    ensures
        rne(a, b) <= a / b + 1,
        rne(a, b) * b <= a + b,
{
    lemma_fundamental_div_mod(a as int, b as int);
    let q = a / b;
    let r = a % b;
    assert((q + 1) * b <= a + b) by (nonlinear_arith)
        requires
            a == b * q + r,
            0 <= r,
    ;
    assert(rne(a, b) * b <= (q + 1) * b) by (nonlinear_arith)
        requires
            rne(a, b) <= q + 1,
            b > 0,
    ;
}

/// Below `2^(lo + 1 + k)`, an integer's last significand bit sits at most `k`
/// places up.
proof fn lemma_down_shift_le(x: nat, lo: nat, k: nat)
    requires
        x < pow2(lo + 1 + k),
    ensures
        down_shift(x, lo) <= k,
    decreases x,
{
    if x >= pow2(lo + 1) {
        lemma_pow2_pos(lo + 1);
        if k == 0 {
            assert(false);
        } else {
            lemma_pow2_unfold(lo + 1 + k);
            assert(pow2(lo + 1 + k) == 2 * pow2(lo + 1 + (k - 1) as nat));
            lemma_down_shift_le(x / 2, lo, (k - 1) as nat);
        }
    }
}

/// The powers of two that the two significand widths involve.
proof fn lemma_fraction_bits(lo: nat)
    requires
        lo == SINGLE_FRACTION_BITS || lo == DOUBLE_FRACTION_BITS,
    ensures
        0x80_0000 <= pow2(lo) <= 0x10_0000_0000_0000,
        pow2(lo + 1) == 2 * pow2(lo),
        pow2(lo + 8) == 256 * pow2(lo),
{
    vstd::arithmetic::power2::lemma2_to64();
    vstd::arithmetic::power2::lemma2_to64_rest();
    lemma_pow2_adds(lo, 1);
    lemma_pow2_adds(lo, 8);
    if lo == 23 {
        assert(pow2(23) == 0x80_0000);
    } else {
        assert(pow2(52) == 0x10_0000_0000_0000);
    }
}

/// `2^k` for `k < 128`.
fn pow2_u128(k: u32) -> (r: u128)
    requires
        k < 128,
    ensures
        r == pow2(k as nat),
{
    let mut r: u128 = 1;
    let mut i: u32 = 0;
    proof {
        vstd::arithmetic::power2::lemma2_to64();
    }
    while i < k
        invariant
            i <= k < 128,
            r == pow2(i as nat),
        decreases k - i,
    {
        proof {
            lemma_pow2_unfold((i + 1) as nat);
            vstd::arithmetic::power2::lemma_pow2_strictly_increases((i + 1) as nat, 128);
            assert(pow2(128) == 0x1_0000_0000_0000_0000_0000_0000_0000_0000) by {
                lemma_pow2_adds(64, 64);
                vstd::arithmetic::power2::lemma2_to64();
            }
        }
        r = r * 2;
        i = i + 1;
    }
    r
}

/// `a / b` rounded to the nearest integer, ties to even.
fn rne_u128(a: u128, b: u128) -> (r: u128)
    requires
        0 < b < 0x8000_0000_0000_0000_0000_0000_0000_0000,
        a < 0xffff_ffff_ffff_ffff_ffff_ffff_ffff_ffff,
    ensures
        r == rne(a as nat, b as nat),
{
    let q = a / b;
    let r = a % b;
    if 2 * r < b {
        q
    } else if 2 * r > b {
        q + 1
    } else if q % 2 == 0 {
        q
    } else {
        q + 1
    }
}

/// The binary floating-point value nearest `x` (see [`round_int`]).
fn round_int_u128(x: u128, lo: u32) -> (r: u128)
    requires
        x <= 0x4_0000_0000_0000_0000,
        lo == SINGLE_FRACTION_BITS || lo == DOUBLE_FRACTION_BITS,
    ensures
        r == round_int(x as nat, lo as nat),
        r <= 2 * x,
{
    let top = pow2_u128(lo + 1);
    let mut y = x;
    let mut d: u128 = 1;
    let mut s: u32 = 0;
    proof {
        lemma_fraction_bits(lo as nat);
        vstd::arithmetic::power2::lemma2_to64();
    }
    while y >= top
        invariant
            top == pow2((lo + 1) as nat),
            top >= 2,
            lo == SINGLE_FRACTION_BITS || lo == DOUBLE_FRACTION_BITS,
            x <= 0x4_0000_0000_0000_0000,
            d == pow2(s as nat),
            d >= 1,
            y == x / d,
            d == 1 || 2 * d <= 2 * x,
            d <= x || d == 1,
            s <= 67,
            down_shift(x as nat, lo as nat) == s + down_shift(y as nat, lo as nat),
        decreases y,
    {
        proof {
            lemma_div_denominator(x as int, d as int, 2);
            lemma_fundamental_div_mod(x as int, d as int);
            assert(2 * d <= x) by (nonlinear_arith)
                requires
                    x == d * (x / d) + x % d,
                    x / d >= 2,
                    x % d >= 0,
                    d >= 1,
            ;
            lemma_pow2_unfold((s + 1) as nat);
            assert(d * 2 <= 0x4_0000_0000_0000_0000);
            if s >= 67 {
                vstd::arithmetic::power2::lemma_pow2_strictly_increases(66, s as nat);
                lemma_pow2_adds(2, 64);
                vstd::arithmetic::power2::lemma2_to64();
                assert(pow2(66) == 0x4_0000_0000_0000_0000);
            }
        }
        y = y / 2;
        d = d * 2;
        s = s + 1;
    }
    proof {
        lemma_rne_bound(x as nat, d as nat);
    }
    let m = rne_u128(x, d);
    proof {
        assert(m * d <= x + d);
    }
    m * d
}

/// The score the fraction `num / den` gets through binary floating point
/// with significands of `lo + 1` bits (see [`binary_fraction_score`]).
pub fn binary_fraction(num: u64, den: u64, lo: u32) -> (r: u8)
    requires
        den > 0,
        lo == SINGLE_FRACTION_BITS || lo == DOUBLE_FRACTION_BITS,
    ensures
        r == binary_fraction_score(num as nat, den as nat, lo as nat),
        r <= 100,
{
    let n = round_int_u128(num as u128, lo);
    let d = round_int_u128(den as u128, lo);
    if n == 0 {
        return 0;
    }
    if n >= d {
        return 100;
    }
    let top = pow2_u128(lo);
    let mut a = n;
    let mut pq: u128 = 1;
    let ghost mut q: nat = 0;
    proof {
        lemma_fraction_bits(lo as nat);
        vstd::arithmetic::power2::lemma2_to64();
        assert(top * d <= 0x20_0000_0000_0000_0000_0000_0000_0000) by (nonlinear_arith)
            requires
                top <= 0x10_0000_0000_0000,
                d <= 0x2_0000_0000_0000_0000,
        ;
        assert(n < 2 * top * d) by (nonlinear_arith)
            requires
                n < d,
                top >= 1,
        ;
    }
    while a < top * d
        invariant
            top == pow2(lo as nat),
            0x80_0000 <= top <= 0x10_0000_0000_0000,
            lo == SINGLE_FRACTION_BITS || lo == DOUBLE_FRACTION_BITS,
            0 < n < d,
            d <= 0x2_0000_0000_0000_0000,
            top * d <= 0x20_0000_0000_0000_0000_0000_0000_0000,
            a == n * pq,
            pq == pow2(q),
            pq >= 1,
            a < 2 * top * d,
            pq <= a,
            up_shift(n as nat, d as nat, lo as nat) == q + up_shift(a as nat, d as nat, lo as nat),
        decreases 2 * top * d - a,
    {
        proof {
            lemma_pow2_unfold(q + 1);
            assert(2 * a < 2 * top * d) by (nonlinear_arith)
                requires
                    a < top * d,
            ;
            assert(2 * a == n * (2 * pq)) by (nonlinear_arith)
                requires
                    a == n * pq,
            ;
        }
        a = 2 * a;
        pq = 2 * pq;
        proof {
            q = q + 1;
        }
    }
    proof {
        assert(a <= pq * d) by (nonlinear_arith)
            requires
                a == n * pq,
                n < d,
        ;
        lemma_rne_le(a as nat, d as nat, pq as nat);
        assert(a <= (2 * top) * d) by (nonlinear_arith)
            requires
                a < 2 * top * d,
        ;
        lemma_rne_le(a as nat, d as nat, (2 * top) as nat);
        assert(2 * top * d <= 0x40_0000_0000_0000_0000_0000_0000_0000) by (nonlinear_arith)
            requires
                top * d <= 0x20_0000_0000_0000_0000_0000_0000_0000,
        ;
    }
    let m = rne_u128(a, d);
    let g = round_int_u128(100 * m, lo);
    proof {
        // The product's last significand bit sits at most 7 places up, and the
        // quotient's scale is at least 2^lo, so rounding cannot pass 100 * 2^q.
        let p = (100 * m) as nat;
        let sh = down_shift(p, lo as nat);
        lemma_down_shift_le(p, lo as nat, 7);
        assert(top * d >= top * n + top) by (nonlinear_arith)
            requires
                d >= n + 1,
                top >= 0,
        ;
        assert(pq > top) by (nonlinear_arith)
            requires
                n * pq >= top * n + top,
                n > 0,
                top > 0,
        ;
        if q < 7 {
            vstd::arithmetic::power2::lemma_pow2_strictly_increases(q, 7);
            vstd::arithmetic::power2::lemma2_to64();
            assert(false);
        }
        lemma_pow2_adds(sh, (q - sh) as nat);
        lemma_pow2_pos(sh);
        let c = (100 * pow2((q - sh) as nat)) as nat;
        assert(p <= c * pow2(sh)) by (nonlinear_arith)
            requires
                p == 100 * m,
                m <= pq,
                pq == pow2(sh) * pow2((q - sh) as nat),
                c == 100 * pow2((q - sh) as nat),
        ;
        lemma_rne_le(p, pow2(sh), c);
        assert(g <= 100 * pq) by (nonlinear_arith)
            requires
                g == rne(p, pow2(sh)) * pow2(sh),
                rne(p, pow2(sh)) <= c,
                c == 100 * pow2((q - sh) as nat),
                pq == pow2(sh) * pow2((q - sh) as nat),
        ;
        assert((2 * g + pq) / (2 * pq) <= 100) by (nonlinear_arith)
            requires
                g <= 100 * pq,
                pq >= 1,
        ;
    }
    assert(g <= 0x2000_0000_0000_0000) by (nonlinear_arith)
        requires
            g <= 2 * (100 * m),
            m <= 2 * top,
            top <= 0x10_0000_0000_0000,
    ;
    assert(pq <= 0x40_0000_0000_0000_0000_0000_0000_0000);
    let r = (2 * g + pq) / (2 * pq);
    (r as u8)
}

/// One half scores 50 in double precision: it is exact, and so is 100 times it.
pub proof fn lemma_half_scores_fifty()
    ensures
        binary_fraction_score(1, 2, DOUBLE_FRACTION_BITS as nat) == 50,
{
    vstd::arithmetic::power2::lemma2_to64();
    vstd::arithmetic::power2::lemma2_to64_rest();
    assert(down_shift(1, 52) == 0);
    assert(down_shift(2, 52) == 0);
    assert(round_int(1, 52) == 1);
    assert(round_int(2, 52) == 2);
    reveal_with_fuel(up_shift, 55);
    assert(up_shift(1, 2, 52) == 53);
    assert(rne(1 * pow2(53), 2) == pow2(52));
    reveal_with_fuel(down_shift, 8);
    assert(down_shift(100 * pow2(52), 52) == 6);
    assert(rne(100 * pow2(52), pow2(6)) == 100 * pow2(46));
    assert(round_int(100 * pow2(52), 52) == 100 * pow2(52));
    let p = pow2(52);
    assert(pow2(53) == 2 * p);
    assert((2 * (100 * p) + 2 * p) / (2 * (2 * p)) == 50) by (nonlinear_arith)
        requires
            p > 0,
    ;
    assert(DOUBLE_FRACTION_BITS as nat == 52);
    assert(100 * rne(1 * pow2(53), 2) == 100 * pow2(52));
}

} // verus!
