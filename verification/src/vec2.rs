//! The planar vector type of the engine.
//!
//! A `Vec2` is a pair of fixed-point scalars.  All operations are
//! component-wise applications of the saturating scalar arithmetic in
//! [`crate::scalar`], so they are total and exactly specified.

use crate::scalar::{add_fp, div_fp, mul_fp, neg_fp, sqrt_fp, sub_fp, UNIT};
use crate::scalar::{fp_add, fp_div, fp_mul, fp_neg, fp_sqrt, fp_sub};
use crate::scalar::lemma_mul_fp_self_nonneg;
use vstd::prelude::*;

verus! {

/// A pair of fixed-point scalars.
#[derive(Clone, Copy, PartialEq, Eq, Structural, Debug)]
pub struct Vec2 {
    pub x: i64,
    pub y: i64,
}

/// The zero vector.
pub open spec fn vzero() -> Vec2 {
    Vec2 { x: 0i64, y: 0i64 }
}

/// Component-wise saturating addition.
pub open spec fn vadd(a: Vec2, b: Vec2) -> Vec2 {
    Vec2 {
        x: add_fp(a.x as int, b.x as int) as i64,
        y: add_fp(a.y as int, b.y as int) as i64,
    }
}

/// Component-wise saturating subtraction.
pub open spec fn vsub(a: Vec2, b: Vec2) -> Vec2 {
    Vec2 {
        x: sub_fp(a.x as int, b.x as int) as i64,
        y: sub_fp(a.y as int, b.y as int) as i64,
    }
}

/// Component-wise saturating negation.
pub open spec fn vneg(a: Vec2) -> Vec2 {
    Vec2 { x: neg_fp(a.x as int) as i64, y: neg_fp(a.y as int) as i64 }
}

/// Both components scaled by the fixed-point factor `s`.
pub open spec fn vscale(a: Vec2, s: int) -> Vec2 {
    Vec2 { x: mul_fp(a.x as int, s) as i64, y: mul_fp(a.y as int, s) as i64 }
}

/// Both components divided by the positive fixed-point scalar `s`.
pub open spec fn vdiv(a: Vec2, s: int) -> Vec2
    recommends
        s > 0,
{
    Vec2 { x: div_fp(a.x as int, s) as i64, y: div_fp(a.y as int, s) as i64 }
}

/// Saturating squared length of `a` (a fixed-point scalar).
pub open spec fn vnorm2(a: Vec2) -> int {
    add_fp(mul_fp(a.x as int, a.x as int), mul_fp(a.y as int, a.y as int))
}

/// Fixed-point length of `a`.
pub open spec fn vlen(a: Vec2) -> int {
    sqrt_fp(vnorm2(a))
}

impl Vec2 {
    /// Construct a vector from its two components.
    pub fn new(x: i64, y: i64) -> (v: Vec2)
        ensures
            v == (Vec2 { x, y }),
    {
        Vec2 { x, y }
    }

    /// Construct the zero vector.
    pub fn new_null() -> (v: Vec2)
        ensures
            v == vzero(),
    {
        Vec2 { x: 0, y: 0 }
    }

    /// Construct the all-ones vector (`1.0` in both components).
    pub fn new_one() -> (v: Vec2)
        ensures
            v == (Vec2 { x: UNIT, y: UNIT }),
    {
        Vec2 { x: UNIT, y: UNIT }
    }

    /// Return both components as a tuple.
    pub fn as_tuple(self) -> (t: (i64, i64))
        ensures
            t == (self.x, self.y),
    {
        (self.x, self.y)
    }

    /// Saturating vector addition.
    pub fn add(self, rhs: Vec2) -> (v: Vec2)
        ensures
            v == vadd(self, rhs),
    {
        Vec2 { x: fp_add(self.x, rhs.x), y: fp_add(self.y, rhs.y) }
    }

    /// Saturating vector subtraction.
    pub fn sub(self, rhs: Vec2) -> (v: Vec2)
        ensures
            v == vsub(self, rhs),
    {
        Vec2 { x: fp_sub(self.x, rhs.x), y: fp_sub(self.y, rhs.y) }
    }

    /// Saturating vector negation.
    pub fn neg(self) -> (v: Vec2)
        ensures
            v == vneg(self),
    {
        Vec2 { x: fp_neg(self.x), y: fp_neg(self.y) }
    }

    /// Scale both components by the fixed-point factor `rhs`.
    pub fn mul(self, rhs: i64) -> (v: Vec2)
        ensures
            v == vscale(self, rhs as int),
    {
        Vec2 { x: fp_mul(self.x, rhs), y: fp_mul(self.y, rhs) }
    }

    /// Divide both components by the positive fixed-point scalar `rhs`.
    pub fn div(self, rhs: i64) -> (v: Vec2)
        requires
            rhs > 0,
        ensures
            v == vdiv(self, rhs as int),
    {
        Vec2 { x: fp_div(self.x, rhs), y: fp_div(self.y, rhs) }
    }

    /// Fixed-point length of the vector.
    pub fn length(self) -> (l: i64)
        ensures
            l as int == vlen(self),
    {
        let x2: i64 = fp_mul(self.x, self.x);
        let y2: i64 = fp_mul(self.y, self.y);
        proof {
            lemma_mul_fp_self_nonneg(self.x as int);
            lemma_mul_fp_self_nonneg(self.y as int);
        }
        let n2: i64 = fp_add(x2, y2);
        fp_sqrt(n2)
    }
}

} // verus!
