//! Bodies and the world that holds them: motion kinds, collider shapes and
//! per-body material properties.

use vstd::prelude::*;
use crate::COORD_BOUND;
use crate::material::{material_ok, Material};
use crate::vec2::{in_range, Vec2I};

verus! {

/// Largest half-extent or radius a collider may have.
pub const SHAPE_BOUND: i64 = 1_000_000;

/// How a body takes part in the simulation: immovable, externally driven, or
/// fully physical.
#[derive(Clone, Copy, PartialEq, Eq, Structural, Debug)]
pub enum MotionKind {
    Static,
    Kinematic,
    Dynamic,
}

/// A collider: a circle of a radius, or an axis-aligned rectangle of two
/// half-extents, all in fixed-point units.
#[derive(Clone, Copy, PartialEq, Eq, Structural, Debug)]
pub enum Shape {
    Circle { radius: i64 },
    Rect { half_x: i64, half_y: i64 },
}

/// A shape has positive extents, small enough for exact overlap arithmetic.
pub open spec fn shape_ok(s: Shape) -> bool {
    match s {
        Shape::Circle { radius } => 0 < radius <= SHAPE_BOUND,
        Shape::Rect { half_x, half_y } => 0 < half_x <= SHAPE_BOUND && 0 < half_y <= SHAPE_BOUND,
    }
}

/// One simulated object.
#[derive(Clone, Copy, PartialEq, Eq, Structural, Debug)]
pub struct Body {
    pub kind: MotionKind,
    pub position: Vec2I,
    pub velocity: Vec2I,
    pub shape: Shape,
    pub material: Material,
    /// If set, the body's linear speed is capped at this after every step.
    pub max_speed: Option<i64>,
}

/// Well-formedness of a body: everything in range, and a static body never
/// carries a velocity.
pub open spec fn body_ok(b: Body) -> bool {
    &&& in_range(b.position)
    &&& in_range(b.velocity)
    &&& shape_ok(b.shape)
    &&& material_ok(b.material)
    &&& match b.max_speed {
        Some(c) => 0 <= c <= COORD_BOUND,
        None => true,
    }
    &&& (b.kind == MotionKind::Static ==> b.velocity == Vec2I::spec_zero())
}

/// A body that the integrator must leave exactly where it is: a static body,
/// or a kinematic body that has no velocity to follow.
pub open spec fn frozen(b: Body) -> bool {
    ||| b.kind == MotionKind::Static
    ||| (b.kind == MotionKind::Kinematic && b.velocity == Vec2I::spec_zero())
}

impl Body {
    /// Build a body, checking every field the simulation relies on.
    pub fn new(
        kind: MotionKind,
        position: Vec2I,
        velocity: Vec2I,
        shape: Shape,
        material: Material,
        max_speed: Option<i64>,
    ) -> (r: Body)
        requires
            in_range(position),
            in_range(velocity),
            shape_ok(shape),
            material_ok(material),
            match max_speed {
                Some(c) => 0 <= c <= COORD_BOUND,
                None => true,
            },
            kind == MotionKind::Static ==> velocity == Vec2I::spec_zero(),
        ensures
            r == (Body { kind, position, velocity, shape, material, max_speed }),
            body_ok(r),
    {
        Body { kind, position, velocity, shape, material, max_speed }
    }
}

/// Global configuration the world is built with: gravity (the zero vector in
/// this game) and the solver's length-unit tuning constant, which has no
/// gameplay meaning.
#[derive(Clone, Copy, PartialEq, Eq, Structural, Debug)]
pub struct WorldConfig {
    pub gravity: Vec2I,
    pub length_unit: i64,
}

/// The complete simulation state.
pub struct World {
    pub bodies: Vec<Body>,
    pub config: WorldConfig,
}

/// Every body of the world is well formed and the configuration is in range.
pub open spec fn world_ok(w: World) -> bool {
    &&& forall|i: int| 0 <= i < w.bodies@.len() ==> body_ok(#[trigger] w.bodies@[i])
    &&& in_range(w.config.gravity)
    &&& 0 < w.config.length_unit
}

} // verus!
