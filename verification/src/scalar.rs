//! Saturating fixed-point scalar arithmetic.
//!
//! A scalar is an `i64` holding a real quantity scaled by [`UNIT`]
//! (so the raw value `UNIT` stands for `1.0`).  Every arithmetic
//! operation computes the exact mathematical result in wide integers
//! and then clamps it to the world range `[-SCALAR_MAX, SCALAR_MAX]`,
//! so all operations are total: nothing overflows and nothing panics.

use vstd::prelude::*;

verus! {

/// Fixed-point scale: the raw value `UNIT` represents `1.0`.
pub const UNIT: i64 = 1_000_000;

/// Bound of the world range: every scalar operation clamps its result
/// to `[-SCALAR_MAX, SCALAR_MAX]`.
pub const SCALAR_MAX: i64 = 1_000_000_000_000_000;

/// The gravitational constant of the simulation, as a raw scalar
/// (`UNIT` raw units, i.e. `1.0` in simulation units).
pub const G: i64 = 1_000_000;

/// Saturate `x` into the world range.
pub open spec fn clamp_spec(x: int) -> int {
    if x > SCALAR_MAX as int {
        SCALAR_MAX as int
    } else if x < -(SCALAR_MAX as int) {
        -(SCALAR_MAX as int)
    } else {
        x
    }
}

/// Sign of `x`: `-1`, `0` or `1`.
pub open spec fn sgn(x: int) -> int {
    if x > 0 {
        1
    } else if x < 0 {
        -1
    } else {
        0
    }
}

/// Absolute value of `x`.
pub open spec fn abs_int(x: int) -> int {
    if x < 0 {
        -x
    } else {
        x
    }
}

/// Saturating fixed-point addition.
pub open spec fn add_fp(a: int, b: int) -> int {
    clamp_spec(a + b)
}

/// Saturating fixed-point subtraction.
pub open spec fn sub_fp(a: int, b: int) -> int {
    clamp_spec(a - b)
}

/// Saturating fixed-point negation.
pub open spec fn neg_fp(a: int) -> int {
    clamp_spec(-a)
}

/// Saturating fixed-point multiplication: the exact product, scaled
/// back down by `UNIT` (magnitude rounded toward zero), then clamped.
pub open spec fn mul_fp(a: int, b: int) -> int {
    clamp_spec(sgn(a * b) * (abs_int(a * b) / (UNIT as int)))
}

/// Saturating fixed-point division by a positive scalar: the exact
/// quotient scaled up by `UNIT` (magnitude rounded toward zero), then
/// clamped.
pub open spec fn div_fp(a: int, b: int) -> int
    recommends
        b > 0,
{
    clamp_spec(sgn(a) * ((abs_int(a) * (UNIT as int)) / b))
}

/// Saturating scaling of `a` by the dimensionless ratio `b / d`
/// (magnitude rounded toward zero, `d > 0`), then clamped.  No `UNIT`
/// factor is involved: the two scales of `b` and `d` cancel.
pub open spec fn mul_div_fp(a: int, b: int, d: int) -> int
    recommends
        d > 0,
{
    clamp_spec(sgn(a * b) * ((abs_int(a) * abs_int(b)) / d))
}

/// Floor of the square root of a natural number, defined by the
/// classic digit-pair recursion.
pub open spec fn sqrt_floor(n: nat) -> nat
    decreases n,
{
    if n == 0 {
        0
    } else {
        let r: nat = 2 * sqrt_floor(n / 4);
        if (r + 1) * (r + 1) <= n {
            r + 1
        } else {
            r
        }
    }
}

/// Fixed-point square root of a non-negative scalar: with `x` raw
/// standing for `x / UNIT`, the raw root is `sqrt_floor(x * UNIT)`.
pub open spec fn sqrt_fp(x: int) -> int
    recommends
        x >= 0,
{
    sqrt_floor((x * (UNIT as int)) as nat) as int
}

/// `sqrt_floor(n)` really is the floor of the square root of `n`.
pub proof fn lemma_sqrt_floor_bounds(n: nat)
    ensures
        sqrt_floor(n) * sqrt_floor(n) <= n,
        n < (sqrt_floor(n) + 1) * (sqrt_floor(n) + 1),
    decreases n,
{
    if n == 0 {
        assert(sqrt_floor(n) == 0);
        assert((sqrt_floor(n) + 1) * (sqrt_floor(n) + 1) == 1) by (nonlinear_arith)
            requires
                sqrt_floor(n) == 0,
        ;
    } else {
        let m: nat = n / 4;
        vstd::arithmetic::div_mod::lemma_fundamental_div_mod(n as int, 4);
        vstd::arithmetic::div_mod::lemma_mod_division_less_than_divisor(n as int, 4);
        assert(4 * m <= n);
        assert(n < 4 * m + 4);
        lemma_sqrt_floor_bounds(m);
        let r0: nat = sqrt_floor(m);
        let r: nat = 2 * r0;
        assert(r * r <= n) by (nonlinear_arith)
            requires
                r == 2 * r0,
                r0 * r0 <= m,
                n >= 4 * m,
        ;
        assert(n < (r + 2) * (r + 2)) by (nonlinear_arith)
            requires
                r == 2 * r0,
                m < (r0 + 1) * (r0 + 1),
                n < 4 * m + 4,
        ;
        let s: nat = sqrt_floor(n);
        if (r + 1) * (r + 1) <= n {
            assert(s == r + 1);
            assert(n < (s + 1) * (s + 1));
        } else {
            assert(s == r);
            assert(n < (s + 1) * (s + 1));
        }
    }
}

/// The floor square root is unique: any `r` with `r^2 <= n < (r+1)^2`
/// equals `sqrt_floor(n)`.
pub proof fn lemma_sqrt_floor_unique(n: nat, r: nat)
    requires
        r * r <= n,
        n < (r + 1) * (r + 1),
    ensures
        r == sqrt_floor(n),
{
    let s: nat = sqrt_floor(n);
    lemma_sqrt_floor_bounds(n);
    if r < s {
        assert(false) by (nonlinear_arith)
            requires
                r < s,
                s * s <= n,
                n < (r + 1) * (r + 1),
        ;
    }
    if s < r {
        assert(false) by (nonlinear_arith)
            requires
                s < r,
                r * r <= n,
                n < (s + 1) * (s + 1),
        ;
    }
}

/// The fixed-point square of a scalar is never negative.
pub proof fn lemma_mul_fp_self_nonneg(t: int)
    ensures
        mul_fp(t, t) >= 0,
{
    assert(t * t >= 0) by (nonlinear_arith);
    vstd::arithmetic::div_mod::lemma_div_pos_is_pos(abs_int(t * t), UNIT as int);
}

/// Squaring a scalar and squaring its negation agree.
pub proof fn lemma_mul_fp_opposite(t: int)
    ensures
        mul_fp(-t, -t) == mul_fp(t, t),
{
    assert((-t) * (-t) == t * t) by (nonlinear_arith);
}

/// Fixed-point multiplication of non-negative scalars is non-negative.
pub proof fn lemma_mul_fp_nonneg(a: int, b: int)
    requires
        a >= 0,
        b >= 0,
    ensures
        mul_fp(a, b) >= 0,
{
    assert(a * b >= 0) by (nonlinear_arith)
        requires
            a >= 0,
            b >= 0,
    ;
    vstd::arithmetic::div_mod::lemma_div_pos_is_pos(abs_int(a * b), UNIT as int);
}

/// Fixed-point multiplication does not depend on the operand order.
pub proof fn lemma_mul_fp_commutes(a: int, b: int)
    ensures
        mul_fp(a, b) == mul_fp(b, a),
{
    assert(a * b == b * a) by (nonlinear_arith);
}

/// Fixed-point squaring is monotone on non-negative scalars.
pub proof fn lemma_mul_fp_square_monotone(a: int, b: int)
    requires
        0 <= a <= b,
    ensures
        mul_fp(a, a) <= mul_fp(b, b),
{
    assert(a * a <= b * b) by (nonlinear_arith)
        requires
            0 <= a <= b,
    ;
    assert(a * a >= 0) by (nonlinear_arith)
        requires
            a >= 0,
    ;
    vstd::arithmetic::div_mod::lemma_div_is_ordered(a * a, b * b, UNIT as int);
    vstd::arithmetic::div_mod::lemma_div_pos_is_pos(a * a, UNIT as int);
    vstd::arithmetic::div_mod::lemma_div_pos_is_pos(b * b, UNIT as int);
}

/// Dividing a non-negative scalar by a positive one gives a
/// non-negative result.
pub proof fn lemma_div_fp_nonneg(a: int, b: int)
    requires
        a >= 0,
        b > 0,
    ensures
        div_fp(a, b) >= 0,
{
    assert(a * (UNIT as int) >= 0) by (nonlinear_arith)
        requires
            a >= 0,
            UNIT as int > 0,
    ;
    vstd::arithmetic::div_mod::lemma_div_pos_is_pos(a * (UNIT as int), b);
}

/// Dividing a non-negative scalar by a larger positive denominator
/// gives a result at most as large.
pub proof fn lemma_div_fp_antitone_denominator(a: int, b1: int, b2: int)
    requires
        a >= 0,
        0 < b1 <= b2,
    ensures
        div_fp(a, b1) >= div_fp(a, b2),
{
    assert(a * (UNIT as int) >= 0) by (nonlinear_arith)
        requires
            a >= 0,
            UNIT as int > 0,
    ;
    vstd::arithmetic::div_mod::lemma_div_is_ordered_by_denominator(a * (UNIT as int), b1, b2);
    vstd::arithmetic::div_mod::lemma_div_pos_is_pos(a * (UNIT as int), b2);
}

/// Saturate a wide intermediate result into the world range.
fn clamp_i128(x: i128) -> (r: i64)
    ensures
        r as int == clamp_spec(x as int),
{
    if x > SCALAR_MAX as i128 {
        SCALAR_MAX
    } else if x < -(SCALAR_MAX as i128) {
        -SCALAR_MAX
    } else {
        x as i64
    }
}

/// Saturating addition of two scalars.
pub fn fp_add(a: i64, b: i64) -> (r: i64)
    ensures
        r as int == add_fp(a as int, b as int),
{
    clamp_i128(a as i128 + b as i128)
}

/// Saturating subtraction of two scalars.
pub fn fp_sub(a: i64, b: i64) -> (r: i64)
    ensures
        r as int == sub_fp(a as int, b as int),
{
    clamp_i128(a as i128 - b as i128)
}

/// Saturating negation of a scalar.
pub fn fp_neg(a: i64) -> (r: i64)
    ensures
        r as int == neg_fp(a as int),
{
    clamp_i128(-(a as i128))
}

/// Saturating fixed-point multiplication.
pub fn fp_mul(a: i64, b: i64) -> (r: i64)
    ensures
        r as int == mul_fp(a as int, b as int),
{
    proof {
        assert(abs_int((a as int) * (b as int))
            <= 0x4000_0000_0000_0000_0000_0000_0000_0000int) by (nonlinear_arith)
            requires
                -0x8000_0000_0000_0000int <= a as int <= 0x7fff_ffff_ffff_ffffint,
                -0x8000_0000_0000_0000int <= b as int <= 0x7fff_ffff_ffff_ffffint,
        ;
    }
    let p: i128 = (a as i128) * (b as i128);
    let neg: bool = p < 0;
    let mag: u128 = if neg {
        (-p) as u128
    } else {
        p as u128
    };
    let q: u128 = mag / (UNIT as u128);
    proof {
        vstd::arithmetic::div_mod::lemma_div_nonincreasing(mag as int, UNIT as int);
    }
    let qi: i128 = if neg {
        -(q as i128)
    } else {
        q as i128
    };
    assert(qi as int == sgn(p as int) * (abs_int(p as int) / (UNIT as int)));
    clamp_i128(qi)
}

/// Saturating fixed-point division by a positive scalar.
pub fn fp_div(a: i64, b: i64) -> (r: i64)
    requires
        b > 0,
    ensures
        r as int == div_fp(a as int, b as int),
{
    let neg: bool = a < 0;
    let mag: u128 = if neg {
        (-(a as i128)) as u128
    } else {
        a as u128
    };
    proof {
        assert((mag as int) * (UNIT as int) <= 0x1_0000_0000_0000_0000_0000_0000int)
            by (nonlinear_arith)
            requires
                mag <= 0x8000_0000_0000_0000u128,
                UNIT == 1_000_000i64,
        ;
    }
    let num: u128 = mag * (UNIT as u128);
    let q: u128 = num / (b as u128);
    proof {
        vstd::arithmetic::div_mod::lemma_div_nonincreasing(num as int, b as int);
    }
    let qi: i128 = if neg {
        -(q as i128)
    } else {
        q as i128
    };
    assert(qi as int == sgn(a as int) * ((abs_int(a as int) * (UNIT as int)) / (b as int)));
    clamp_i128(qi)
}

/// Saturating scaling of `a` by the ratio `b / d`, with `d > 0`.
pub fn fp_mul_div(a: i64, b: i64, d: i64) -> (r: i64)
    requires
        d > 0,
    ensures
        r as int == mul_div_fp(a as int, b as int, d as int),
{
    proof {
        assert(abs_int((a as int) * (b as int))
            <= 0x4000_0000_0000_0000_0000_0000_0000_0000int) by (nonlinear_arith)
            requires
                -0x8000_0000_0000_0000int <= a as int <= 0x7fff_ffff_ffff_ffffint,
                -0x8000_0000_0000_0000int <= b as int <= 0x7fff_ffff_ffff_ffffint,
        ;
    }
    let p: i128 = (a as i128) * (b as i128);
    let neg: bool = p < 0;
    let mag: u128 = if neg {
        (-p) as u128
    } else {
        p as u128
    };
    let q: u128 = mag / (d as u128);
    assert(q <= mag) by {
        vstd::arithmetic::div_mod::lemma_div_nonincreasing(mag as int, d as int);
    }
    let qi: i128 = if neg {
        -(q as i128)
    } else {
        q as i128
    };
    assert(abs_int((a as int) * (b as int)) == abs_int(a as int) * abs_int(b as int))
        by (nonlinear_arith);
    assert(qi as int == sgn((a as int) * (b as int)) * ((abs_int(a as int) * abs_int(b as int))
        / (d as int)));
    clamp_i128(qi)
}

/// Floor square root of an arbitrary `u128`, by binary search.
pub fn isqrt(x: u128) -> (r: u64)
    ensures
        r as nat == sqrt_floor(x as nat),
{
    let mut lo: u128 = 0;
    let mut hi: u128 = 0x1_0000_0000_0000_0000;
    assert((x as nat) < (hi as nat) * (hi as nat)) by (nonlinear_arith)
        requires
            hi == 0x1_0000_0000_0000_0000u128,
            x <= 0xffff_ffff_ffff_ffff_ffff_ffff_ffff_ffffu128,
    ;
    while hi - lo > 1
        invariant
            lo < hi <= 0x1_0000_0000_0000_0000u128,
            (lo as nat) * (lo as nat) <= x as nat,
            (x as nat) < (hi as nat) * (hi as nat),
        decreases hi - lo,
    {
        let mid: u128 = lo + (hi - lo) / 2;
        assert((mid as nat) * (mid as nat) < 0xffff_ffff_ffff_ffff_ffff_ffff_ffff_ffffnat)
            by (nonlinear_arith)
            requires
                mid < 0x1_0000_0000_0000_0000u128,
        ;
        let sq: u128 = mid * mid;
        if sq <= x {
            lo = mid;
        } else {
            hi = mid;
        }
    }
    proof {
        lemma_sqrt_floor_unique(x as nat, lo as nat);
    }
    lo as u64
}

/// Fixed-point square root of a non-negative scalar.
pub fn fp_sqrt(x: i64) -> (r: i64)
    requires
        x >= 0,
    ensures
        r as int == sqrt_fp(x as int),
{
    proof {
        assert((x as int) * (UNIT as int) <= 0x1_0000_0000_0000_0000_0000_0000int)
            by (nonlinear_arith)
            requires
                0 <= x as int <= 0x7fff_ffff_ffff_ffffint,
                UNIT == 1_000_000i64,
        ;
    }
    let v: u128 = (x as u128) * (UNIT as u128);
    let root: u64 = isqrt(v);
    proof {
        lemma_sqrt_floor_bounds(v as nat);
        assert(root < 0x8000_0000_0000_0000u64) by (nonlinear_arith)
            requires
                (root as nat) * (root as nat) <= v as nat,
                v as nat <= 0x1_0000_0000_0000_0000_0000_0000nat,
        ;
    }
    root as i64
}

} // verus!
