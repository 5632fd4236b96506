//! A gravitational n-body simulation engine.
//!
//! The engine advances a set of point masses ("objects") under pairwise
//! Newtonian attraction.  All physics is done in saturating fixed-point
//! arithmetic on a bounded world range, so every operation is total and
//! every contract states the exact value produced.
//!
//! The crate is organised bottom-up: [`scalar`] holds the fixed-point
//! arithmetic, [`vec2`] the planar vector type, [`object`] the point-mass
//! model with its mass invariant, [`maths`] distance, [`physics`] the
//! force/integration kernel, [`engine`] the sub-stepped step loop and
//! snapshot handoff, and [`initial`] initial-velocity configuration.

pub mod engine;
pub mod initial;
pub mod maths;
pub mod object;
pub mod physics;
pub mod scalar;
pub mod vec2;

pub use scalar::G;
pub use scalar::SCALAR_MAX;
pub use scalar::UNIT;
