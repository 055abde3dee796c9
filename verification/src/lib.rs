//! A minimal arcade physics core: a fixed-point 2D world of static walls, a
//! kinematic player paddle and a dynamic ball, advanced one frame at a time.
//!
//! All lengths, velocities and material coefficients are fixed-point integers
//! with `SCALE` units per whole unit, so every step of the simulation is exact
//! integer arithmetic.

use vstd::prelude::*;

pub mod body;
pub mod clamp;
pub mod controller;
pub mod geometry;
pub mod integrator;
pub mod material;
pub mod num;
pub mod scene;
pub mod vec2;

verus! {

/// Fixed-point scale: `SCALE` fixed-point units stand for 1.0.
pub const SCALE: i64 = 1000;

/// Largest magnitude a position or velocity component may take, chosen so
/// that squares and scaled products of components stay inside `i64`.
pub const COORD_BOUND: i64 = 1_000_000_000;

} // verus!
