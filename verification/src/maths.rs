//! Distance between points of the plane.

use crate::scalar::lemma_mul_fp_opposite;
use crate::vec2::{vlen, vnorm2, vsub, Vec2};
use vstd::prelude::*;

verus! {

/// Fixed-point distance between `p1` and `p2`.
pub open spec fn dist_spec(p1: Vec2, p2: Vec2) -> int {
    vlen(vsub(p1, p2))
}

/// Compute the distance between `p1` and `p2`.
pub fn compute_distance(p1: Vec2, p2: Vec2) -> (d: i64)
    ensures
        d as int == dist_spec(p1, p2),
{
    p1.sub(p2).length()
}

/// Distance does not depend on the order of its arguments.
pub proof fn lemma_dist_symmetric(p1: Vec2, p2: Vec2)
    ensures
        dist_spec(p1, p2) == dist_spec(p2, p1),
{
    let a = vsub(p1, p2);
    let b = vsub(p2, p1);
    assert(b.x as int == -(a.x as int));
    assert(b.y as int == -(a.y as int));
    lemma_mul_fp_opposite(a.x as int);
    lemma_mul_fp_opposite(a.y as int);
    assert(vnorm2(a) == vnorm2(b));
}

/// The distance from a point to itself is zero.
pub proof fn lemma_dist_self_zero(p: Vec2)
    ensures
        dist_spec(p, p) == 0,
{
    let a = vsub(p, p);
    assert(a.x as int == 0);
    assert(a.y as int == 0);
    assert(vnorm2(a) == 0);
    assert(crate::scalar::sqrt_floor(0) == 0);
}

/// Distance is never negative.
pub proof fn lemma_dist_nonneg(p1: Vec2, p2: Vec2)
    ensures
        dist_spec(p1, p2) >= 0,
{
}

} // verus!
