//! Signed 16.16 fixed-point arithmetic.
//!
//! Every coordinate, scale factor and interpolation parameter of the engine
//! is an `i64` carrying a real value times [`FX_ONE`].  The helpers here give
//! the two integer divisions the pipeline needs — rounding to nearest (what a
//! floating-point `round` would do) and truncation toward zero — together
//! with the lemmas the rest of the crate uses to bound them.

use vstd::arithmetic::div_mod::{
    lemma_div_is_ordered, lemma_div_multiples_vanish, lemma_div_pos_is_pos,
    lemma_fundamental_div_mod, lemma_fundamental_div_mod_converse, lemma_mod_bound,
};
use vstd::prelude::*;

verus! {

/// One unit of the 16.16 fixed-point format: the real value `x` is stored as
/// `x * FX_ONE` rounded to an integer.
pub const FX_ONE: i64 = 65536;

/// Division of `n` by a positive `d`, rounded to the nearest integer with
/// halves away from zero.
pub open spec fn round_div(n: int, d: int) -> int
    recommends
        d > 0,
{
    if n >= 0 {
        (2 * n + d) / (2 * d)
    } else {
        -((2 * (-n) + d) / (2 * d))
    }
}

/// Division of `n` by a positive `d`, truncated toward zero.
pub open spec fn trunc_div(n: int, d: int) -> int
    recommends
        d > 0,
{
    if n >= 0 {
        n / d
    } else {
        -((-n) / d)
    }
}

/// The product of two fixed-point values, brought back to the fixed-point
/// scale with rounding.
pub open spec fn fx_mul_spec(a: int, b: int) -> int {
    round_div(a * b, FX_ONE as int)
}

/// The whole number nearest to a fixed-point value.
pub open spec fn fx_round_spec(a: int) -> int {
    round_div(a, FX_ONE as int)
}

/// The magnitude of a value.
pub open spec fn fx_abs(v: int) -> int {
    if v >= 0 {
        v
    } else {
        -v
    }
}

/// A value clamped to the unit interval `[0, FX_ONE]`.
pub open spec fn clamp_fx_spec(v: int) -> int {
    if v < 0 {
        0
    } else if v > FX_ONE {
        FX_ONE as int
    } else {
        v
    }
}

/// Clamps a fixed-point value to the unit interval `[0, FX_ONE]`.
pub fn clamp_fx(v: i64) -> (r: i64)
    ensures
        r == clamp_fx_spec(v as int),
        0 <= r <= FX_ONE,
{
    if v < 0 {
        0
    } else if v > FX_ONE {
        FX_ONE
    } else {
        v
    }
}

/// A nonnegative quotient never exceeds its dividend, and rounding keeps the
/// sign of the dividend.
pub proof fn lemma_round_div_mag(n: int, d: int)
    requires
        d >= 1,
    ensures
        n >= 0 ==> 0 <= round_div(n, d) <= n,
        n < 0 ==> n <= round_div(n, d) <= 0,
{
    if n >= 0 {
        lemma_round_div_mag_nonneg(n, d);
    } else {
        lemma_round_div_mag_nonneg(-n, d);
    }
}

proof fn lemma_round_div_mag_nonneg(n: int, d: int)
    requires
        d >= 1,
        n >= 0,
    ensures
        0 <= round_div(n, d) <= n,
{
    lemma_div_pos_is_pos(2 * n + d, 2 * d);
    assert(2 * n <= 2 * d * n) by (nonlinear_arith)
        requires
            d >= 1,
            n >= 0,
    ;
    lemma_fundamental_div_mod_converse(2 * d * n + (2 * d - 1), 2 * d, n, 2 * d - 1);
    lemma_div_is_ordered(2 * n + d, 2 * d * n + (2 * d - 1), 2 * d);
}

/// Rounding division is exact on whole multiples of the divisor.
pub proof fn lemma_round_div_exact(k: int, d: int)
    requires
        d >= 1,
    ensures
        round_div(k * d, d) == k,
{
    if k >= 0 {
        assert(k * d >= 0) by (nonlinear_arith)
            requires
                k >= 0,
                d >= 1,
        ;
        assert(2 * (k * d) + d == k * (2 * d) + d) by (nonlinear_arith);
        lemma_fundamental_div_mod_converse(2 * (k * d) + d, 2 * d, k, d);
    } else {
        assert(k * d < 0) by (nonlinear_arith)
            requires
                k < 0,
                d >= 1,
        ;
        assert(2 * (-(k * d)) + d == (-k) * (2 * d) + d) by (nonlinear_arith);
        lemma_fundamental_div_mod_converse(2 * (-(k * d)) + d, 2 * d, -k, d);
    }
}

/// Rounding division is monotone in the dividend.
pub proof fn lemma_round_div_ordered(n1: int, n2: int, d: int)
    requires
        d >= 1,
        n1 <= n2,
    ensures
        round_div(n1, d) <= round_div(n2, d),
{
    if n1 >= 0 {
        lemma_div_is_ordered(2 * n1 + d, 2 * n2 + d, d * 2);
    } else if n2 < 0 {
        lemma_div_is_ordered(2 * (-n2) + d, 2 * (-n1) + d, d * 2);
    } else {
        lemma_round_div_mag(n1, d);
        lemma_round_div_mag(n2, d);
    }
}

/// A dividend within `m` multiples of the divisor rounds to within `m`.
pub proof fn lemma_round_div_scaled(n: int, d: int, m: int)
    requires
        d >= 1,
        -(m * d) <= n <= m * d,
    ensures
        -m <= round_div(n, d) <= m,
{
    lemma_round_div_exact(m, d);
    lemma_round_div_exact(-m, d);
    lemma_round_div_ordered(n, m * d, d);
    lemma_round_div_ordered(-(m * d), n, d);
    assert(-m * d == -(m * d)) by (nonlinear_arith);
}

/// A nonnegative truncated quotient never exceeds its dividend, and
/// truncation keeps the sign of the dividend.
pub proof fn lemma_trunc_div_mag(n: int, d: int)
    requires
        d >= 1,
    ensures
        n >= 0 ==> 0 <= trunc_div(n, d) <= n,
        n < 0 ==> n <= trunc_div(n, d) <= 0,
{
    if n >= 0 {
        lemma_trunc_div_mag_nonneg(n, d);
    } else {
        lemma_trunc_div_mag_nonneg(-n, d);
    }
}

proof fn lemma_trunc_div_mag_nonneg(n: int, d: int)
    requires
        d >= 1,
        n >= 0,
    ensures
        0 <= n / d <= n,
{
    lemma_div_pos_is_pos(n, d);
    assert(n <= d * n) by (nonlinear_arith)
        requires
            d >= 1,
            n >= 0,
    ;
    lemma_fundamental_div_mod_converse(d * n + (d - 1), d, n, d - 1);
    lemma_div_is_ordered(n, d * n + (d - 1), d);
}

/// A nonnegative dividend within `m` multiples of the divisor truncates to
/// within `m`.
pub proof fn lemma_trunc_div_le(n: int, d: int, m: int)
    requires
        d >= 1,
        0 <= n <= m * d,
    ensures
        0 <= trunc_div(n, d) <= m,
{
    lemma_div_pos_is_pos(n, d);
    lemma_div_is_ordered(n, m * d, d);
    assert(m * d == d * m) by (nonlinear_arith);
    lemma_div_multiples_vanish(m, d);
}

/// Rounding division of `n` by a positive `d`, computed through unsigned
/// magnitudes so that no signed machine division is needed.
pub fn round_div_i128(n: i128, d: i128) -> (r: i128)
    requires
        1 <= d <= 0x4000_0000_0000_0000_0000_0000_0000,
        -0x4000_0000_0000_0000_0000_0000_0000 <= n <= 0x4000_0000_0000_0000_0000_0000_0000,
    ensures
        r == round_div(n as int, d as int),
{
    let dd = d as u128;
    if n >= 0 {
        let nn = n as u128;
        let q = (2 * nn + dd) / (2 * dd);
        proof {
            lemma_round_div_mag(n as int, d as int);
        }
        q as i128
    } else {
        let nn = (-n) as u128;
        let q = (2 * nn + dd) / (2 * dd);
        proof {
            lemma_round_div_mag(n as int, d as int);
        }
        -(q as i128)
    }
}

/// Rounding division on 64-bit values.
pub fn round_div_i64(n: i64, d: i64) -> (r: i64)
    requires
        1 <= d,
        -0x4000_0000_0000_0000 <= n <= 0x4000_0000_0000_0000,
    ensures
        r == round_div(n as int, d as int),
        -0x4000_0000_0000_0000 <= r <= 0x4000_0000_0000_0000,
{
    let q = round_div_i128(n as i128, d as i128);
    proof {
        lemma_round_div_mag(n as int, d as int);
    }
    q as i64
}

/// Truncating division of `n` by a positive `d`, through unsigned magnitudes.
pub fn trunc_div_i64(n: i64, d: i64) -> (r: i64)
    requires
        1 <= d,
        -0x4000_0000_0000_0000 <= n <= 0x4000_0000_0000_0000,
    ensures
        r == trunc_div(n as int, d as int),
{
    let dd = d as u64;
    if n >= 0 {
        let q = (n as u64) / dd;
        proof {
            lemma_trunc_div_mag(n as int, d as int);
        }
        q as i64
    } else {
        let q = ((-n) as u64) / dd;
        proof {
            lemma_trunc_div_mag(n as int, d as int);
        }
        -(q as i64)
    }
}

/// Euclidean remainder of `h` by a positive modulus, always in `[0, b)`,
/// computed through unsigned magnitudes.
pub fn euclid_mod_i64(h: i64, b: i64) -> (r: i64)
    requires
        1 <= b <= 0x4000_0000_0000_0000,
        -0x4000_0000_0000_0000 <= h <= 0x4000_0000_0000_0000,
    ensures
        r == h as int % b as int,
        0 <= r < b,
{
    proof {
        lemma_mod_bound(h as int, b as int);
    }
    if h >= 0 {
        let m = (h as u64) % (b as u64);
        m as i64
    } else {
        let m = (((-h) as u64) % (b as u64)) as i64;
        proof {
            lemma_mod_bound(-h as int, b as int);
            let q = (-h) as int / b as int;
            lemma_fundamental_div_mod(-h as int, b as int);
            if m as int == 0 {
                assert((-q) * b as int + 0 == -(b as int * q)) by (nonlinear_arith);
                lemma_fundamental_div_mod_converse(h as int, b as int, -q, 0);
            } else {
                assert((-q - 1) * b as int + (b as int - m as int) == -(b as int * q) - m as int)
                    by (nonlinear_arith);
                lemma_fundamental_div_mod_converse(h as int, b as int, -q - 1, b as int - m as int);
            }
        }
        if m == 0 {
            0
        } else {
            b - m
        }
    }
}

/// Fixed-point multiplication: `a * b` rescaled with rounding.
pub fn fx_mul(a: i64, b: i64) -> (r: i64)
    requires
        -0x4000_0000_0000_0000 <= a * b <= 0x4000_0000_0000_0000,
    ensures
        r == fx_mul_spec(a as int, b as int),
        -0x4000_0000_0000_0000 <= r <= 0x4000_0000_0000_0000,
{
    let p = (a as i128) * (b as i128);
    let q = round_div_i128(p, FX_ONE as i128);
    proof {
        lemma_round_div_mag(p as int, FX_ONE as int);
    }
    q as i64
}

/// The whole number nearest to the fixed-point value `a`.
pub fn fx_round(a: i64) -> (r: i64)
    ensures
        r == fx_round_spec(a as int),
        -0x7fff_ffff_ffff_ffff <= r <= 0x7fff_ffff_ffff_ffff,
{
    let q = round_div_i128(a as i128, FX_ONE as i128);
    proof {
        lemma_round_div_mag(a as int, FX_ONE as int);
    }
    q as i64
}

} // verus!
