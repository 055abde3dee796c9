//! Fixed-point 2D vectors and the integer arithmetic the simulation rests on.

use vstd::prelude::*;
use crate::COORD_BOUND;

verus! {

/// A 2D vector in fixed-point units.
#[derive(Clone, Copy, PartialEq, Eq, Structural, Debug)]
pub struct Vec2I {
    pub x: i64,
    pub y: i64,
}

/// Both components small enough that squares and sums of squares fit in `i64`.
pub open spec fn in_range(v: Vec2I) -> bool {
    -COORD_BOUND <= v.x <= COORD_BOUND && -COORD_BOUND <= v.y <= COORD_BOUND
}

/// The squared magnitude, as a mathematical integer.
pub open spec fn mag_sq(v: Vec2I) -> int {
    v.x * v.x + v.y * v.y
}

impl Vec2I {
    pub open spec fn spec_zero() -> Vec2I {
        Vec2I { x: 0, y: 0 }
    }

    /// The zero vector.
    pub fn zero() -> (r: Vec2I)
        ensures
            r == Vec2I::spec_zero(),
    {
        Vec2I { x: 0, y: 0 }
    }

    pub fn new(x: i64, y: i64) -> (r: Vec2I)
        ensures
            r.x == x,
            r.y == y,
    {
        Vec2I { x, y }
    }

    /// The squared magnitude, exact.
    pub fn magnitude_sq(self) -> (r: i64)
        requires
            in_range(self),
        ensures
            r == mag_sq(self),
            r >= 0,
    {
        proof {
            lemma_square_bound(self.x as int, COORD_BOUND as int);
            lemma_square_bound(self.y as int, COORD_BOUND as int);
        }
        self.x * self.x + self.y * self.y
    }
}

/// A square of a bounded value is bounded by the square of the bound.
pub proof fn lemma_square_bound(a: int, b: int) by (nonlinear_arith)
    requires
        -b <= a <= b,
        b >= 0,
    ensures
        0 <= a * a <= b * b,
{
}

} // verus!
