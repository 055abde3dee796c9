//! The scene builder: the one-time construction of the arena — four static
//! walls, one kinematic player paddle and one dynamic ball — and the
//! controller configurations of the two game variants.

use vstd::prelude::*;
use crate::{COORD_BOUND, SCALE};
use crate::body::{body_ok, Body, MotionKind, Shape, World, WorldConfig, world_ok};
use crate::controller::{config_ok, dir_x, dir_y, scaled_component, unit_dir, ControlConfig,
    HeldDirections, player_tick_velocity, tick_velocity, MAX_FRAME_MILLIS, MAX_SPEED_SETTING,
    MILLIS_PER_SECOND};
use crate::integrator::integrated_body;
use crate::material::{CombineRule, Material};
use crate::num::{lemma_abs_product2, lemma_abs_product3, lemma_trunc_div_sign};
use crate::vec2::Vec2I;

verus! {

/// Movement speed of the player paddle, fixed-point units per second.
pub const PLAYER_SPEED: i64 = 10_000_000;

/// The paddle may not move past `|y| == PLAY_SPACE_HEIGHT`.
pub const PLAY_SPACE_HEIGHT: i64 = 200_000;

/// The ball's speed cap.
pub const BALL_MAX_SPEED: i64 = 200_000;

/// The ball's collider radius.
pub const BALL_RADIUS: i64 = 10_000;

/// The solver's length-unit tuning constant (no gameplay meaning).
pub const LENGTH_UNIT: i64 = 10_000;

/// The default surface of the player and the walls: no bounce, average
/// combine on both coefficients, moderate friction.
pub open spec fn default_material() -> Material {
    Material {
        restitution: 0,
        restitution_rule: CombineRule::Average,
        friction: 500,
        friction_rule: CombineRule::Average,
    }
}

/// The ball's surface: full bounce taking `Max` precedence, no friction
/// taking `Min` precedence, so the ball always bounces fully and never
/// loses speed to friction, whatever it hits.
pub open spec fn ball_material() -> Material {
    Material {
        restitution: SCALE,
        restitution_rule: CombineRule::Max,
        friction: 0,
        friction_rule: CombineRule::Min,
    }
}

/// The kinematic player paddle at the left of the arena.
pub open spec fn player_body() -> Body {
    Body {
        kind: MotionKind::Kinematic,
        position: Vec2I { x: -300_000i64, y: 0 },
        velocity: Vec2I { x: 0, y: 0 },
        shape: Shape::Rect { half_x: 25_000, half_y: 100_000 },
        material: default_material(),
        max_speed: None,
    }
}

/// A static wall of the arena.
pub open spec fn wall_body(px: int, py: int, hx: int, hy: int) -> Body {
    Body {
        kind: MotionKind::Static,
        position: Vec2I { x: px as i64, y: py as i64 },
        velocity: Vec2I { x: 0, y: 0 },
        shape: Shape::Rect { half_x: hx as i64, half_y: hy as i64 },
        material: default_material(),
        max_speed: None,
    }
}

/// The dynamic ball, launched diagonally, fully elastic, frictionless, and
/// speed-capped.
pub open spec fn ball_body() -> Body {
    Body {
        kind: MotionKind::Dynamic,
        position: Vec2I { x: 0, y: 0 },
        velocity: Vec2I { x: 500_000, y: 500_000 },
        shape: Shape::Circle { radius: BALL_RADIUS },
        material: ball_material(),
        max_speed: Some(BALL_MAX_SPEED),
    }
}

/// The bodies the scene builder produces, in order: the player, the
/// ceiling, the floor, the left wall, the right wall, and the ball.
pub open spec fn scene_bodies() -> Seq<Body> {
    seq![
        player_body(),
        wall_body(0, 300_000, 500_000, 25_000),
        wall_body(0, -300_000, 500_000, 25_000),
        wall_body(-475_000, 0, 25_000, 275_000),
        wall_body(475_000, 0, 25_000, 275_000),
        ball_body(),
    ]
}

/// Build the initial world: exactly one kinematic player, four static walls
/// closing the arena, and one dynamic ball with `Max` restitution `1.0`,
/// `Min` friction `0.0` and a max-speed cap — under zero gravity.
pub fn build_scene() -> (w: World)
    ensures
        world_ok(w),
        w.bodies@ == scene_bodies(),
        w.bodies@.len() == 6,
        w.config.gravity == Vec2I::spec_zero(),
        w.config.length_unit == LENGTH_UNIT,
{
    let mut bodies: Vec<Body> = Vec::new();
    bodies.push(
        Body {
            kind: MotionKind::Kinematic,
            position: Vec2I { x: -300_000, y: 0 },
            velocity: Vec2I { x: 0, y: 0 },
            shape: Shape::Rect { half_x: 25_000, half_y: 100_000 },
            material: Material {
                restitution: 0,
                restitution_rule: CombineRule::Average,
                friction: 500,
                friction_rule: CombineRule::Average,
            },
            max_speed: None,
        },
    );
    bodies.push(make_wall(0, 300_000, 500_000, 25_000));
    bodies.push(make_wall(0, -300_000, 500_000, 25_000));
    bodies.push(make_wall(-475_000, 0, 25_000, 275_000));
    bodies.push(make_wall(475_000, 0, 25_000, 275_000));
    bodies.push(
        Body {
            kind: MotionKind::Dynamic,
            position: Vec2I { x: 0, y: 0 },
            velocity: Vec2I { x: 500_000, y: 500_000 },
            shape: Shape::Circle { radius: BALL_RADIUS },
            material: Material {
                restitution: SCALE,
                restitution_rule: CombineRule::Max,
                friction: 0,
                friction_rule: CombineRule::Min,
            },
            max_speed: Some(BALL_MAX_SPEED),
        },
    );
    proof {
        assert(bodies@ =~= scene_bodies());
        assert(forall|i: int| 0 <= i < bodies@.len() ==> body_ok(#[trigger] bodies@[i]));
    }
    World {
        bodies,
        config: WorldConfig { gravity: Vec2I { x: 0, y: 0 }, length_unit: LENGTH_UNIT },
    }
}

/// One static wall.
fn make_wall(px: i64, py: i64, hx: i64, hy: i64) -> (r: Body)
    requires
        -1_000_000_000 <= px <= 1_000_000_000,
        -1_000_000_000 <= py <= 1_000_000_000,
        0 < hx <= 1_000_000,
        0 < hy <= 1_000_000,
    ensures
        r == wall_body(px as int, py as int, hx as int, hy as int),
        body_ok(r),
{
    Body {
        kind: MotionKind::Static,
        position: Vec2I { x: px, y: py },
        velocity: Vec2I { x: 0, y: 0 },
        shape: Shape::Rect { half_x: hx, half_y: hy },
        material: Material {
            restitution: 0,
            restitution_rule: CombineRule::Average,
            friction: 500,
            friction_rule: CombineRule::Average,
        },
        max_speed: None,
    }
}

/// The paddle variant's controller configuration: vertical movement only,
/// contained within the play-space height.
pub fn paddle_control_config() -> (r: ControlConfig)
    ensures
        r.speed == PLAYER_SPEED,
        !r.horizontal,
        r.vertical_bound == Some(PLAY_SPACE_HEIGHT),
        config_ok(r),
{
    ControlConfig { speed: PLAYER_SPEED, horizontal: false, vertical_bound: Some(PLAY_SPACE_HEIGHT) }
}

/// The free-roaming variant's controller configuration: both axes, no
/// containment.
pub fn free_control_config() -> (r: ControlConfig)
    ensures
        r.speed == PLAYER_SPEED,
        r.horizontal,
        r.vertical_bound is None,
        config_ok(r),
{
    ControlConfig { speed: PLAYER_SPEED, horizontal: true, vertical_bound: None }
}

/// One controller tick applied to the world: read the held keys against the
/// player body's current position and write the resulting velocity into the
/// player body. Every other body is untouched.
pub fn apply_player_input(
    w: &mut World,
    player: usize,
    held: HeldDirections,
    cfg: ControlConfig,
    dt_ms: i64,
)
    requires
        world_ok(*old(w)),
        player < old(w).bodies@.len(),
        old(w).bodies@[player as int].kind == MotionKind::Kinematic,
        config_ok(cfg),
        0 <= dt_ms <= MAX_FRAME_MILLIS,
    ensures
        world_ok(*final(w)),
        final(w).config == old(w).config,
        final(w).bodies@.len() == old(w).bodies@.len(),
        forall|k: int|
            0 <= k < old(w).bodies@.len() && k != player ==> final(w).bodies@[k] == #[trigger] old(
                w,
            ).bodies@[k],
        final(w).bodies@[player as int] == (Body {
            velocity: tick_velocity(
                held,
                cfg,
                old(w).bodies@[player as int].position,
                dt_ms as int,
            ),
            ..old(w).bodies@[player as int]
        }),
        held.none_held() ==> final(w).bodies@[player as int].velocity == Vec2I::spec_zero(),
        dt_ms == 0 ==> final(w).bodies@[player as int].velocity == Vec2I::spec_zero(),
{
    let b = w.bodies[player];
    let v = player_tick_velocity(held, cfg, b.position, dt_ms);
    let nb = Body { velocity: v, ..b };
    w.bodies[player] = nb;
}

/// Containment holds in motion, not only in input: a player standing at or
/// past the upper boundary, with its velocity written by the controller, is
/// never carried further up by the following integration step — whatever
/// keys are held, under any gravity, for any frame time.
pub proof fn lemma_boundary_never_crossed_further(
    b: Body,
    held: HeldDirections,
    cfg: ControlConfig,
    g: Vec2I,
    dt: int,
    t: int,
)
    requires
        body_ok(b),
        b.kind == MotionKind::Kinematic,
        config_ok(cfg),
        cfg.vertical_bound == Some(t as i64),
        0 <= t <= COORD_BOUND,
        0 <= dt <= MAX_FRAME_MILLIS,
        b.position.y >= t,
        b.velocity == tick_velocity(held, cfg, b.position, dt),
    ensures
        integrated_body(b, g, dt).position.y <= b.position.y,
{
    let dy = dir_y(held, cfg, b.position.y as int);
    let u = unit_dir(dir_x(held, cfg), dy);
    assert(dy <= 0);
    assert(u.y <= 0);
    let vy = scaled_component(u.y as int, cfg.speed as int, dt);
    lemma_abs_product3(
        u.y as int,
        cfg.speed as int,
        dt,
        SCALE as int,
        MAX_SPEED_SETTING as int,
        MAX_FRAME_MILLIS as int,
    );
    lemma_trunc_div_sign(
        u.y as int * cfg.speed as int * dt,
        SCALE as int * MILLIS_PER_SECOND as int,
    );
    assert(vy <= 0);
    assert(b.velocity.y == vy);
    lemma_abs_product2(b.velocity.y as int, dt, COORD_BOUND as int, MAX_FRAME_MILLIS as int);
    lemma_trunc_div_sign(b.velocity.y as int * dt, MILLIS_PER_SECOND as int);
}

} // verus!
