//! Input-to-velocity control: each frame the set of held directional keys is
//! turned into a unit movement direction, scaled by a configured speed and by
//! the elapsed frame time, and written as the player body's velocity.

use vstd::prelude::*;
use crate::{COORD_BOUND, SCALE};
use crate::num::{lemma_abs_product2, lemma_abs_product3, lemma_square_cases,
    lemma_trunc_div_abs_bound, lemma_trunc_div_sign, mul_div, trunc_div};
use crate::vec2::{in_range, mag_sq, Vec2I};

verus! {

/// Fixed-point length of each component of a diagonal unit direction:
/// the nearest integer below `SCALE / sqrt(2)`.
pub const DIAG: i64 = 707;

/// Milliseconds per second: elapsed frame time is handed in as whole
/// milliseconds.
pub const MILLIS_PER_SECOND: i64 = 1000;

/// Largest elapsed frame time the controller accepts, in milliseconds.
pub const MAX_FRAME_MILLIS: i64 = 10_000;

/// Largest configured speed, in fixed-point units per second.
pub const MAX_SPEED_SETTING: i64 = 100_000_000;

/// The set of logical direction keys held during one frame. Held and
/// just-pressed keys are not distinguished.
#[derive(Clone, Copy, PartialEq, Eq, Structural, Debug)]
pub struct HeldDirections {
    pub up: bool,
    pub down: bool,
    pub left: bool,
    pub right: bool,
}

impl HeldDirections {
    /// No key held.
    pub open spec fn none_held(self) -> bool {
        !self.up && !self.down && !self.left && !self.right
    }

    pub fn new(up: bool, down: bool, left: bool, right: bool) -> (r: HeldDirections)
        ensures
            r == (HeldDirections { up, down, left, right }),
    {
        HeldDirections { up, down, left, right }
    }
}

/// Configuration of the player controller: one core serves both the paddle
/// variant (vertical axis only, contained between `-vertical_bound` and
/// `vertical_bound`) and the free-roaming variant (both axes, no bound).
#[derive(Clone, Copy, PartialEq, Eq, Structural, Debug)]
pub struct ControlConfig {
    /// Movement speed in fixed-point units per second.
    pub speed: i64,
    /// Whether left/right input acts at all.
    pub horizontal: bool,
    /// If set, vertical movement past `|y| == bound` is suppressed.
    pub vertical_bound: Option<i64>,
}

pub open spec fn config_ok(cfg: ControlConfig) -> bool {
    &&& 0 < cfg.speed <= MAX_SPEED_SETTING
    &&& match cfg.vertical_bound {
        Some(t) => 0 <= t <= COORD_BOUND,
        None => true,
    }
}

/// Whether upward input may act from height `pos_y`: it is suppressed at and
/// above the boundary, checked before the move, so the paddle never crosses.
pub open spec fn up_allowed(cfg: ControlConfig, pos_y: int) -> bool {
    match cfg.vertical_bound {
        Some(t) => pos_y < t,
        None => true,
    }
}

/// Whether downward input may act from height `pos_y`.
pub open spec fn down_allowed(cfg: ControlConfig, pos_y: int) -> bool {
    match cfg.vertical_bound {
        Some(t) => pos_y > -t,
        None => true,
    }
}

/// The raw horizontal direction component, in `{-1, 0, 1}`.
pub open spec fn dir_x(held: HeldDirections, cfg: ControlConfig) -> int {
    if cfg.horizontal {
        (if held.right { 1int } else { 0int }) - (if held.left { 1int } else { 0int })
    } else {
        0int
    }
}

/// The raw vertical direction component, in `{-1, 0, 1}`, with boundary
/// containment already applied.
pub open spec fn dir_y(held: HeldDirections, cfg: ControlConfig, pos_y: int) -> int {
    (if held.up && up_allowed(cfg, pos_y) { 1int } else { 0int })
        - (if held.down && down_allowed(cfg, pos_y) { 1int } else { 0int })
}

/// The fixed-point unit vector pointing the way `(dx, dy)` points: zero for
/// no input, axis-aligned of length `SCALE`, or diagonal with components
/// `DIAG` so that its length is within rounding of `SCALE`.
pub open spec fn unit_dir(dx: int, dy: int) -> Vec2I {
    if dx != 0 && dy != 0 {
        Vec2I { x: (dx * DIAG) as i64, y: (dy * DIAG) as i64 }
    } else {
        Vec2I { x: (dx * SCALE) as i64, y: (dy * SCALE) as i64 }
    }
}

/// One component of the final velocity: the unit-direction component times
/// speed and elapsed time, brought back to fixed-point units per second.
pub open spec fn scaled_component(u: int, speed: int, dt_ms: int) -> int {
    trunc_div(u * speed * dt_ms, SCALE as int * MILLIS_PER_SECOND as int)
}

/// The velocity one tick of the controller writes.
pub open spec fn tick_velocity(
    held: HeldDirections,
    cfg: ControlConfig,
    pos: Vec2I,
    dt_ms: int,
) -> Vec2I {
    let u = unit_dir(dir_x(held, cfg), dir_y(held, cfg, pos.y as int));
    Vec2I {
        x: scaled_component(u.x as int, cfg.speed as int, dt_ms) as i64,
        y: scaled_component(u.y as int, cfg.speed as int, dt_ms) as i64,
    }
}

/// Read the held keys into raw direction components, suppressing vertical
/// input that would carry the player past the configured boundary.
pub fn direction(held: HeldDirections, cfg: ControlConfig, pos: Vec2I) -> (r: (i64, i64))
    requires
        config_ok(cfg),
        in_range(pos),
    ensures
        r.0 == dir_x(held, cfg),
        r.1 == dir_y(held, cfg, pos.y as int),
        -1 <= r.0 <= 1,
        -1 <= r.1 <= 1,
{
    let mut dx: i64 = 0;
    let mut dy: i64 = 0;
    if cfg.horizontal {
        if held.right {
            dx = dx + 1;
        }
        if held.left {
            dx = dx - 1;
        }
    }
    let up_ok: bool = match cfg.vertical_bound {
        Some(t) => pos.y < t,
        None => true,
    };
    let down_ok: bool = match cfg.vertical_bound {
        Some(t) => pos.y > -t,
        None => true,
    };
    if held.up && up_ok {
        dy = dy + 1;
    }
    if held.down && down_ok {
        dy = dy - 1;
    }
    (dx, dy)
}

/// Build the fixed-point unit vector for raw direction `(dx, dy)`: exact on
/// the axes, within rounding of unit length on the diagonals, and zero for
/// zero input rather than a normalization of a zero vector.
pub fn normalize_direction(dx: i64, dy: i64) -> (r: Vec2I)
    requires
        -1 <= dx <= 1,
        -1 <= dy <= 1,
    ensures
        r == unit_dir(dx as int, dy as int),
        -SCALE <= r.x <= SCALE,
        -SCALE <= r.y <= SCALE,
{
    if dx != 0 && dy != 0 {
        Vec2I { x: dx * DIAG, y: dy * DIAG }
    } else {
        Vec2I { x: dx * SCALE, y: dy * SCALE }
    }
}

/// Every nonzero raw direction yields a vector of unit length up to fixed-
/// point rounding: its squared magnitude is `SCALE * SCALE` on the axes and
/// falls short of it by less than `SCALE` on the diagonals.
pub proof fn lemma_unit_direction_magnitude(dx: int, dy: int)
    requires
        -1 <= dx <= 1,
        -1 <= dy <= 1,
        !(dx == 0 && dy == 0),
    ensures
        SCALE * SCALE - SCALE < mag_sq(unit_dir(dx, dy)) <= SCALE * SCALE,
{
    let u = unit_dir(dx, dy);
    if dx != 0 && dy != 0 {
        assert(u.x == DIAG || u.x == -DIAG);
        assert(u.y == DIAG || u.y == -DIAG);
        lemma_square_cases(u.x as int, DIAG as int);
        lemma_square_cases(u.y as int, DIAG as int);
        assert(mag_sq(u) == 2 * (DIAG as int) * (DIAG as int));
    } else if dx == 0 {
        assert(u.x == 0);
        assert(u.y == SCALE || u.y == -SCALE);
        lemma_square_cases(u.x as int, 0);
        lemma_square_cases(u.y as int, SCALE as int);
        assert(mag_sq(u) == SCALE * SCALE);
    } else {
        assert(u.x == SCALE || u.x == -SCALE);
        assert(u.y == 0);
        lemma_square_cases(u.x as int, SCALE as int);
        lemma_square_cases(u.y as int, 0);
        assert(mag_sq(u) == SCALE * SCALE);
    }
}

/// One controller tick: map the held keys to a velocity for the player body.
/// Zero input gives exactly the zero vector (the player never coasts), zero
/// elapsed time gives exactly the zero vector, and input past the configured
/// vertical boundary is suppressed.
pub fn player_tick_velocity(
    held: HeldDirections,
    cfg: ControlConfig,
    pos: Vec2I,
    dt_ms: i64,
) -> (r: Vec2I)
    requires
        config_ok(cfg),
        in_range(pos),
        0 <= dt_ms <= MAX_FRAME_MILLIS,
    ensures
        r == tick_velocity(held, cfg, pos, dt_ms as int),
        in_range(r),
        held.none_held() ==> r == Vec2I::spec_zero(),
        dt_ms == 0 ==> r == Vec2I::spec_zero(),
        (match cfg.vertical_bound {
            Some(t) => pos.y >= t ==> r.y <= 0,
            None => true,
        }),
        (match cfg.vertical_bound {
            Some(t) => pos.y <= -t ==> r.y >= 0,
            None => true,
        }),
{
    let (dx, dy) = direction(held, cfg, pos);
    let u = normalize_direction(dx, dy);
    proof {
        lemma_abs_product2(
            cfg.speed as int,
            dt_ms as int,
            MAX_SPEED_SETTING as int,
            MAX_FRAME_MILLIS as int,
        );
    }
    let num: i64 = cfg.speed * dt_ms;
    let den: i64 = SCALE * MILLIS_PER_SECOND;
    proof {
        lemma_abs_product2(
            u.x as int,
            num as int,
            SCALE as int,
            MAX_SPEED_SETTING as int * MAX_FRAME_MILLIS as int,
        );
        lemma_abs_product2(
            u.y as int,
            num as int,
            SCALE as int,
            MAX_SPEED_SETTING as int * MAX_FRAME_MILLIS as int,
        );
    }
    let vx = mul_div(u.x, num, den);
    let vy = mul_div(u.y, num, den);
    proof {
        assert(u.x as int * (num as int) == u.x as int * cfg.speed as int * dt_ms as int)
            by (nonlinear_arith)
            requires
                num as int == cfg.speed as int * dt_ms as int,
        ;
        assert(u.y as int * (num as int) == u.y as int * cfg.speed as int * dt_ms as int)
            by (nonlinear_arith)
            requires
                num as int == cfg.speed as int * dt_ms as int,
        ;
        lemma_abs_product3(
            u.x as int,
            cfg.speed as int,
            dt_ms as int,
            SCALE as int,
            MAX_SPEED_SETTING as int,
            MAX_FRAME_MILLIS as int,
        );
        lemma_abs_product3(
            u.y as int,
            cfg.speed as int,
            dt_ms as int,
            SCALE as int,
            MAX_SPEED_SETTING as int,
            MAX_FRAME_MILLIS as int,
        );
        lemma_trunc_div_abs_bound(
            u.x as int * cfg.speed as int * dt_ms as int,
            den as int,
            COORD_BOUND as int,
        );
        lemma_trunc_div_abs_bound(
            u.y as int * cfg.speed as int * dt_ms as int,
            den as int,
            COORD_BOUND as int,
        );
        lemma_trunc_div_sign(u.y as int * cfg.speed as int * dt_ms as int, den as int);
    }
    Vec2I { x: vx, y: vy }
}

} // verus!
