//! The point-mass model and its mass invariant.

use crate::vec2::{vzero, Vec2};
use vstd::prelude::*;

verus! {

/// An RGBA colour tag.  It is carried through the engine for the
/// renderer's benefit and never read by the physics.
#[derive(Clone, Copy, PartialEq, Eq, Structural, Debug)]
pub struct Rgba {
    pub r: u8,
    pub g: u8,
    pub b: u8,
    pub a: u8,
}

/// Error returned when an object is constructed with a mass that is
/// zero or negative.
#[derive(Clone, Copy, PartialEq, Eq, Structural, Debug)]
pub struct NegativeOrNullMassError {
    /// The rejected mass, kept for diagnostics.
    pub mass: i64,
}

impl NegativeOrNullMassError {
    /// Whether the rejected mass was exactly zero rather than negative.
    pub fn is_null_mass(&self) -> (r: bool)
        ensures
            r == (self.mass == 0),
    {
        self.mass == 0
    }
}

/// The entity simulated by the physics engine: a point mass with a
/// location, a velocity, the force accumulated during the current
/// sub-step, and a mobility flag.
#[derive(Clone, Copy, PartialEq, Eq, Structural, Debug)]
pub struct Object {
    /// Mass of the object, a fixed-point scalar; strictly positive by
    /// the construction-time invariant.
    pub mass: i64,
    /// World-space location.
    pub location: Vec2,
    /// Force accumulated during the current sub-step; recomputed every
    /// sub-step, never carried across sub-steps.
    pub force: Vec2,
    /// Current velocity.
    pub velocity: Vec2,
    /// If false, the object is an immovable force source: it exerts
    /// force on the others but its own location and velocity never
    /// change.
    pub can_move: bool,
    /// Visual tag, opaque to the engine.
    pub color: Rgba,
}

impl Object {
    /// The mass invariant: strictly positive for the whole life of the
    /// object.  No method of the engine changes a mass, so the
    /// invariant is established once, at construction.
    pub open spec fn valid(self) -> bool {
        self.mass > 0
    }

    /// Create a new object if the mass is strictly positive, else
    /// return [`NegativeOrNullMassError`] carrying the rejected mass.
    pub fn new(
        mass: i64,
        location: Vec2,
        force: Vec2,
        velocity: Vec2,
        can_move: bool,
        color: Rgba,
    ) -> (r: Result<Object, NegativeOrNullMassError>)
        ensures
            mass <= 0 ==> (r matches Err(e) && e == (NegativeOrNullMassError { mass })),
            mass > 0 ==> (r matches Ok(o) && o == (Object {
                mass,
                location,
                force,
                velocity,
                can_move,
                color,
            }) && o.valid()),
    {
        if mass <= 0 {
            Err(NegativeOrNullMassError { mass })
        } else {
            Ok(Object { mass, location, force, velocity, can_move, color })
        }
    }

    /// Create a new object at rest, with no accumulated force, if the
    /// mass is strictly positive; else return the error.
    pub fn new_inactive(mass: i64, location: Vec2, can_move: bool, color: Rgba) -> (r: Result<
        Object,
        NegativeOrNullMassError,
    >)
        ensures
            mass <= 0 ==> (r matches Err(e) && e == (NegativeOrNullMassError { mass })),
            mass > 0 ==> (r matches Ok(o) && o == (Object {
                mass,
                location,
                force: vzero(),
                velocity: vzero(),
                can_move,
                color,
            }) && o.valid()),
    {
        Self::new(mass, location, Vec2::new_null(), Vec2::new_null(), can_move, color)
    }
}

/// An independently owned deep copy of a body list, equal value for
/// value to the original.  This is what the engine publishes to the
/// consumer: the copy shares no storage with the live list, so
/// mutating either side never affects the other.
pub fn snapshot(objects: &Vec<Object>) -> (r: Vec<Object>)
    ensures
        r@ == objects@,
{
    let mut r: Vec<Object> = Vec::new();
    let mut i: usize = 0;
    while i < objects.len()
        invariant
            0 <= i <= objects@.len(),
            r@ == objects@.take(i as int),
        decreases objects@.len() - i,
    {
        r.push(objects[i]);
        proof {
            assert(r@ =~= objects@.take(i + 1));
        }
        i = i + 1;
    }
    proof {
        assert(objects@.take(objects@.len() as int) =~= objects@);
    }
    r
}

} // verus!
