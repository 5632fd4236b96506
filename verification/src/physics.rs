//! The force and integration kernel.
//!
//! One sub-step of the engine is two passes over the body list: a
//! force pass, which recomputes every movable object's accumulated
//! force against a frozen copy of the list, and an integration pass,
//! which advances every movable object by semi-implicit Euler.  Both
//! passes are specified exactly, value for value, by the spec
//! functions of this module.

use crate::maths::{compute_distance, dist_spec, lemma_dist_nonneg};
use crate::object::{snapshot, Object};
use crate::scalar::{add_fp, div_fp, mul_div_fp, mul_fp, G};
use crate::scalar::{fp_add, fp_div, fp_mul, fp_mul_div};
use crate::scalar::{lemma_mul_fp_nonneg, lemma_mul_fp_self_nonneg};
use crate::vec2::{vadd, vdiv, vscale, vzero, Vec2};
use vstd::prelude::*;

verus! {

/// Magnitude of the gravitational pull between `a` and `b` under the
/// softening term `s`: zero for co-located objects, else
/// `G * m_a * m_b / (d^2 + s)` in saturating fixed point, where `d` is
/// the fixed-point distance between their locations.  A denominator
/// that rounds to zero also gives zero.
pub open spec fn pairwise_force_spec(a: Object, b: Object, s: int) -> int {
    let d: int = dist_spec(a.location, b.location);
    if d == 0 {
        0
    } else {
        let den: int = add_fp(mul_fp(d, d), s);
        if den == 0 {
            0
        } else {
            div_fp(mul_fp(G as int, mul_fp(a.mass as int, b.mass as int)), den)
        }
    }
}

/// Force vector exerted on `a` by `b`: the pairwise magnitude pointed
/// from `a`'s location toward `b`'s, scaled component-wise by the
/// ratio of the location difference to the distance.
pub open spec fn force_vec_spec(a: Object, b: Object, s: int) -> Vec2 {
    let d: int = dist_spec(a.location, b.location);
    if d == 0 {
        vzero()
    } else {
        let f: int = pairwise_force_spec(a, b, s);
        let dx: int = crate::scalar::sub_fp(b.location.x as int, a.location.x as int);
        let dy: int = crate::scalar::sub_fp(b.location.y as int, a.location.y as int);
        Vec2 { x: mul_div_fp(dx, f, d) as i64, y: mul_div_fp(dy, f, d) as i64 }
    }
}

/// Sum, in input order and in saturating arithmetic, of the force
/// vectors exerted on `o` by each object of `others`.
pub open spec fn accum_force_spec(o: Object, others: Seq<Object>, s: int) -> Vec2
    decreases others.len(),
{
    if others.len() == 0 {
        vzero()
    } else {
        vadd(accum_force_spec(o, others.drop_last(), s), force_vec_spec(o, others.last(), s))
    }
}

/// The object with only its force field replaced.
pub open spec fn with_force(o: Object, f: Vec2) -> Object {
    Object { force: f, ..o }
}

/// One force pass over a body list: every movable object's force is
/// replaced by the sum over all the other objects, computed against
/// the list as it stood at entry; immovable objects are untouched.
pub open spec fn force_pass_spec(objects: Seq<Object>, s: int) -> Seq<Object> {
    Seq::new(
        objects.len(),
        |i: int|
            if objects[i].can_move {
                with_force(objects[i], accum_force_spec(objects[i], objects.remove(i), s))
            } else {
                objects[i]
            },
    )
}

/// One semi-implicit Euler step for a single object: acceleration is
/// the current force over the mass, the velocity is advanced first,
/// and the location is advanced with the already-updated velocity.
/// An immovable object is returned unchanged.
pub open spec fn integrate_spec(o: Object, delta_t: int) -> Object {
    if !o.can_move {
        o
    } else {
        let acc: Vec2 = vdiv(o.force, o.mass as int);
        let vel: Vec2 = vadd(o.velocity, vscale(acc, delta_t));
        let loc: Vec2 = vadd(o.location, vscale(vel, delta_t));
        Object { location: loc, velocity: vel, ..o }
    }
}

/// One integration pass over a body list.
pub open spec fn integrate_pass_spec(objects: Seq<Object>, delta_t: int) -> Seq<Object> {
    Seq::new(objects.len(), |i: int| integrate_spec(objects[i], delta_t))
}

/// Co-located objects exert no force on each other, whatever their
/// masses and whatever the smoothing.
pub proof fn lemma_force_zero_when_colocated(a: Object, b: Object, s: int)
    requires
        a.location == b.location,
    ensures
        pairwise_force_spec(a, b, s) == 0,
{
    crate::maths::lemma_dist_self_zero(a.location);
}

/// The pairwise force magnitude is symmetric: computed from `a`'s
/// perspective toward `b` it equals the one from `b`'s perspective
/// toward `a`; only the direction differs.
pub proof fn lemma_force_symmetric(a: Object, b: Object, s: int)
    ensures
        pairwise_force_spec(a, b, s) == pairwise_force_spec(b, a, s),
{
    crate::maths::lemma_dist_symmetric(a.location, b.location);
    crate::scalar::lemma_mul_fp_commutes(a.mass as int, b.mass as int);
}

/// Attraction strengthens as objects come closer: with equal masses
/// and equal smoothing, the pull at the smaller distance is at least
/// the pull at the larger one.  The smaller distance must be positive
/// and coarse enough that its squared fixed-point value together with
/// the smoothing does not round to zero.
pub proof fn lemma_attraction_grows_closer(o: Object, b1: Object, b2: Object, s: int)
    requires
        o.valid(),
        b1.valid(),
        b1.mass == b2.mass,
        s >= 0,
        0 < dist_spec(o.location, b1.location),
        dist_spec(o.location, b1.location) <= dist_spec(o.location, b2.location),
        add_fp(
            mul_fp(dist_spec(o.location, b1.location), dist_spec(o.location, b1.location)),
            s,
        ) > 0,
    ensures
        pairwise_force_spec(o, b1, s) >= pairwise_force_spec(o, b2, s),
{
    let d1: int = dist_spec(o.location, b1.location);
    let d2: int = dist_spec(o.location, b2.location);
    let num: int = mul_fp(G as int, mul_fp(o.mass as int, b1.mass as int));
    lemma_mul_fp_nonneg(o.mass as int, b1.mass as int);
    lemma_mul_fp_nonneg(G as int, mul_fp(o.mass as int, b1.mass as int));
    crate::scalar::lemma_mul_fp_square_monotone(d1, d2);
    let den1: int = add_fp(mul_fp(d1, d1), s);
    let den2: int = add_fp(mul_fp(d2, d2), s);
    assert(0 < den1 <= den2);
    crate::scalar::lemma_div_fp_antitone_denominator(num, den1, den2);
}

/// A force pass changes nothing but force fields: every object keeps
/// its mass, mobility, location, velocity and colour, and an immovable
/// object is untouched entirely.
pub proof fn lemma_force_pass_preserves(objects: Seq<Object>, s: int)
    ensures
        force_pass_spec(objects, s).len() == objects.len(),
        forall|i: int|
            0 <= i < objects.len() ==> {
                let o = #[trigger] force_pass_spec(objects, s)[i];
                &&& o.mass == objects[i].mass
                &&& o.can_move == objects[i].can_move
                &&& o.location == objects[i].location
                &&& o.velocity == objects[i].velocity
                &&& o.color == objects[i].color
            },
        forall|i: int|
            0 <= i < objects.len() && !objects[i].can_move ==> #[trigger] force_pass_spec(
                objects,
                s,
            )[i] == objects[i],
{
}

/// An integration pass changes nothing but locations and velocities:
/// every object keeps its mass, mobility, force and colour, and an
/// immovable object is untouched entirely.
pub proof fn lemma_integrate_pass_preserves(objects: Seq<Object>, delta_t: int)
    ensures
        integrate_pass_spec(objects, delta_t).len() == objects.len(),
        forall|i: int|
            0 <= i < objects.len() ==> {
                let o = #[trigger] integrate_pass_spec(objects, delta_t)[i];
                &&& o.mass == objects[i].mass
                &&& o.can_move == objects[i].can_move
                &&& o.force == objects[i].force
                &&& o.color == objects[i].color
            },
        forall|i: int|
            0 <= i < objects.len() && !objects[i].can_move ==> #[trigger] integrate_pass_spec(
                objects,
                delta_t,
            )[i] == objects[i],
{
}

/// Magnitude of the gravitational pull between `o1` and `o2` under the
/// softening term `force_smoothings`.  Co-located objects exert no
/// force on each other, whatever their masses and the smoothing.
pub fn compute_pairwise_force(o1: &Object, o2: &Object, force_smoothings: i64) -> (f: i64)
    requires
        o1.valid(),
        o2.valid(),
        force_smoothings >= 0,
    ensures
        f as int == pairwise_force_spec(*o1, *o2, force_smoothings as int),
{
    let d: i64 = compute_distance(o1.location, o2.location);
    if d == 0 {
        0
    } else {
        let d2: i64 = fp_mul(d, d);
        proof {
            lemma_mul_fp_self_nonneg(d as int);
        }
        let den: i64 = fp_add(d2, force_smoothings);
        if den == 0 {
            0
        } else {
            let num: i64 = fp_mul(G, fp_mul(o1.mass, o2.mass));
            fp_div(num, den)
        }
    }
}

/// Force vector exerted on `o1` by `o2`.
fn force_vec(o1: &Object, o2: &Object, force_smoothings: i64) -> (v: Vec2)
    requires
        o1.valid(),
        o2.valid(),
        force_smoothings >= 0,
    ensures
        v == force_vec_spec(*o1, *o2, force_smoothings as int),
{
    let d: i64 = compute_distance(o1.location, o2.location);
    if d == 0 {
        Vec2::new_null()
    } else {
        proof {
            lemma_dist_nonneg(o1.location, o2.location);
        }
        let f: i64 = compute_pairwise_force(o1, o2, force_smoothings);
        let dx: i64 = crate::scalar::fp_sub(o2.location.x, o1.location.x);
        let dy: i64 = crate::scalar::fp_sub(o2.location.y, o1.location.y);
        Vec2 { x: fp_mul_div(dx, f, d), y: fp_mul_div(dy, f, d) }
    }
}

/// Compute the global force the object is affected by: the sum of the
/// force vectors exerted on it by every object of `others`.  Only the
/// force field changes.
pub fn compute_object_global_force(
    object: &mut Object,
    others: &Vec<Object>,
    force_smoothings: i64,
)
    requires
        old(object).valid(),
        forall|j: int| 0 <= j < others@.len() ==> others@[j].valid(),
        force_smoothings >= 0,
    ensures
        *final(object) == with_force(
            *old(object),
            accum_force_spec(*old(object), others@, force_smoothings as int),
        ),
{
    let subject: Object = *object;
    let mut global_f_vec: Vec2 = Vec2::new_null();
    let mut i: usize = 0;
    while i < others.len()
        invariant
            0 <= i <= others@.len(),
            subject.valid(),
            forall|j: int| 0 <= j < others@.len() ==> others@[j].valid(),
            force_smoothings >= 0,
            global_f_vec == accum_force_spec(
                subject,
                others@.take(i as int),
                force_smoothings as int,
            ),
        decreases others@.len() - i,
    {
        let fv: Vec2 = force_vec(&subject, &others[i], force_smoothings);
        global_f_vec = global_f_vec.add(fv);
        proof {
            assert(others@.take(i + 1).drop_last() =~= others@.take(i as int));
            assert(others@.take(i + 1).last() == others@[i as int]);
        }
        i = i + 1;
    }
    proof {
        assert(others@.take(others@.len() as int) =~= others@);
    }
    object.force = global_f_vec;
}

/// Compute the global force each movable object is affected by.  Every
/// object's force is computed against a frozen copy of the list taken
/// at entry, so no force is computed against an already-updated state;
/// immovable objects are untouched.
pub fn compute_object_global_force_for_each(objects: &mut Vec<Object>, force_smoothings: i64)
    requires
        forall|j: int| 0 <= j < old(objects)@.len() ==> old(objects)@[j].valid(),
        force_smoothings >= 0,
    ensures
        final(objects)@ == force_pass_spec(old(objects)@, force_smoothings as int),
{
    let ghost orig: Seq<Object> = objects@;
    let frozen: Vec<Object> = snapshot(objects);
    let n: usize = objects.len();
    let mut i: usize = 0;
    while i < n
        invariant
            0 <= i <= n,
            n == orig.len(),
            objects@.len() == orig.len(),
            frozen@ == orig,
            force_smoothings >= 0,
            forall|j: int| 0 <= j < orig.len() ==> orig[j].valid(),
            forall|j: int| i <= j < orig.len() ==> objects@[j] == orig[j],
            forall|j: int|
                0 <= j < i ==> objects@[j] == force_pass_spec(orig, force_smoothings as int)[j],
        decreases n - i,
    {
        if objects[i].can_move {
            let mut others: Vec<Object> = snapshot(&frozen);
            others.remove(i);
            proof {
                orig.remove_ensures(i as int);
            }
            let mut subject: Object = objects[i];
            compute_object_global_force(&mut subject, &others, force_smoothings);
            objects[i] = subject;
        }
        i = i + 1;
    }
    proof {
        assert(objects@ =~= force_pass_spec(orig, force_smoothings as int));
    }
}

/// Advance one object by one time increment of semi-implicit Euler:
/// the velocity is updated from the current force first, and the
/// location is then advanced with the updated velocity.  An immovable
/// object is left exactly as it was.
pub fn compute_object_next_position(object: &mut Object, delta_t: i64)
    requires
        old(object).valid(),
    ensures
        *final(object) == integrate_spec(*old(object), delta_t as int),
{
    if object.can_move {
        let acc: Vec2 = object.force.div(object.mass);
        let vel: Vec2 = object.velocity.add(acc.mul(delta_t));
        object.velocity = vel;
        let loc: Vec2 = object.location.add(vel.mul(delta_t));
        object.location = loc;
    }
}

/// Advance every movable object by one time increment.
pub fn compute_object_next_position_for_each(objects: &mut Vec<Object>, delta_t: i64)
    requires
        forall|j: int| 0 <= j < old(objects)@.len() ==> old(objects)@[j].valid(),
    ensures
        final(objects)@ == integrate_pass_spec(old(objects)@, delta_t as int),
{
    let ghost orig: Seq<Object> = objects@;
    let n: usize = objects.len();
    let mut i: usize = 0;
    while i < n
        invariant
            0 <= i <= n,
            n == orig.len(),
            objects@.len() == orig.len(),
            forall|j: int| 0 <= j < orig.len() ==> orig[j].valid(),
            forall|j: int| i <= j < orig.len() ==> objects@[j] == orig[j],
            forall|j: int|
                0 <= j < i ==> objects@[j] == integrate_pass_spec(orig, delta_t as int)[j],
        decreases n - i,
    {
        let mut subject: Object = objects[i];
        proof {
            assert(objects@[i as int] == orig[i as int]);
            assert(orig[i as int].valid());
        }
        compute_object_next_position(&mut subject, delta_t);
        objects[i] = subject;
        i = i + 1;
    }
    proof {
        assert(objects@ =~= integrate_pass_spec(orig, delta_t as int));
    }
}

} // verus!
