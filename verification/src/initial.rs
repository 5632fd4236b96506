//! Initial-velocity configuration: giving an object the speed that
//! puts it in orbit around one or more attractors.

use crate::maths::{compute_distance, dist_spec, lemma_dist_nonneg};
use crate::object::Object;
use crate::scalar::{div_fp, mul_div_fp, mul_fp, sqrt_fp, sub_fp, G};
use crate::scalar::{fp_div, fp_mul, fp_mul_div, fp_neg, fp_sqrt, fp_sub};
use crate::scalar::{lemma_div_fp_nonneg, lemma_mul_fp_nonneg};
use crate::vec2::{vadd, Vec2};
use vstd::prelude::*;

verus! {

/// Which way around its origins an object is sent.
#[derive(Clone, Copy, PartialEq, Eq, Structural, Debug)]
pub enum VelocityDirection {
    Left,
    Right,
}

/// The orbital-velocity contribution of a single origin: a vector of
/// magnitude `sqrt(G * mass / d)` perpendicular to the line from the
/// object to the origin, a quarter turn to the left or to the right of
/// that line.
pub open spec fn orbital_contrib_spec(
    o: Object,
    origin: Object,
    direction: VelocityDirection,
) -> Vec2
    recommends
        origin.valid(),
        dist_spec(o.location, origin.location) != 0,
{
    let d: int = dist_spec(o.location, origin.location);
    let v: int = sqrt_fp(div_fp(mul_fp(G as int, origin.mass as int), d));
    let dx: int = sub_fp(origin.location.x as int, o.location.x as int);
    let dy: int = sub_fp(origin.location.y as int, o.location.y as int);
    match direction {
        VelocityDirection::Left => Vec2 {
            x: mul_div_fp(-dy, v, d) as i64,
            y: mul_div_fp(dx, v, d) as i64,
        },
        VelocityDirection::Right => Vec2 {
            x: mul_div_fp(dy, v, d) as i64,
            y: mul_div_fp(-dx, v, d) as i64,
        },
    }
}

/// The object's velocity after folding in, in order, the orbital
/// contribution of every origin; an origin co-located with the object
/// contributes nothing and is skipped.
pub open spec fn orbital_velocity_spec(
    o: Object,
    origins: Seq<Object>,
    direction: VelocityDirection,
) -> Vec2
    decreases origins.len(),
{
    if origins.len() == 0 {
        o.velocity
    } else {
        let prev: Vec2 = orbital_velocity_spec(o, origins.drop_last(), direction);
        if dist_spec(o.location, origins.last().location) == 0 {
            prev
        } else {
            vadd(prev, orbital_contrib_spec(o, origins.last(), direction))
        }
    }
}

/// Make the object `o` turn around the objects of `origins`: add to
/// its velocity, for each origin at distance `d > 0`, a vector of
/// magnitude `sqrt(G * origin_mass / d)` perpendicular to the line
/// toward that origin.  Only the velocity changes.
pub fn add_orbital_velocity(o: &mut Object, origins: &Vec<Object>, direction: VelocityDirection)
    requires
        forall|j: int| 0 <= j < origins@.len() ==> origins@[j].valid(),
    ensures
        *final(o) == (Object {
            velocity: orbital_velocity_spec(*old(o), origins@, direction),
            ..*old(o)
        }),
{
    let subject: Object = *o;
    let mut vel: Vec2 = subject.velocity;
    let mut i: usize = 0;
    while i < origins.len()
        invariant
            0 <= i <= origins@.len(),
            forall|j: int| 0 <= j < origins@.len() ==> origins@[j].valid(),
            vel == orbital_velocity_spec(subject, origins@.take(i as int), direction),
        decreases origins@.len() - i,
    {
        let origin: Object = origins[i];
        let d: i64 = compute_distance(subject.location, origin.location);
        proof {
            lemma_dist_nonneg(subject.location, origin.location);
            assert(origins@.take(i + 1).drop_last() =~= origins@.take(i as int));
            assert(origins@.take(i + 1).last() == origins@[i as int]);
        }
        if d != 0 {
            proof {
                lemma_mul_fp_nonneg(G as int, origin.mass as int);
                lemma_div_fp_nonneg(mul_fp(G as int, origin.mass as int), d as int);
            }
            let v: i64 = fp_sqrt(fp_div(fp_mul(G, origin.mass), d));
            let dx: i64 = fp_sub(origin.location.x, subject.location.x);
            let dy: i64 = fp_sub(origin.location.y, subject.location.y);
            let v_vec: Vec2 = match direction {
                VelocityDirection::Left => Vec2 {
                    x: fp_mul_div(fp_neg(dy), v, d),
                    y: fp_mul_div(dx, v, d),
                },
                VelocityDirection::Right => Vec2 {
                    x: fp_mul_div(dy, v, d),
                    y: fp_mul_div(fp_neg(dx), v, d),
                },
            };
            vel = vel.add(v_vec);
        }
        i = i + 1;
    }
    proof {
        assert(origins@.take(origins@.len() as int) =~= origins@);
    }
    o.velocity = vel;
}

} // verus!
