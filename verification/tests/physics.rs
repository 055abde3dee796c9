use arena_physics::body::{Body, MotionKind, Shape, World, WorldConfig};
use arena_physics::clamp::{ceil_sqrt, clamp_speed};
use arena_physics::controller::HeldDirections;
use arena_physics::geometry::{circle_rect_overlap, circles_overlap, overlap_test, rects_overlap};
use arena_physics::integrator::step_world;
use arena_physics::material::{CombineRule, Material};
use arena_physics::scene::{apply_player_input, build_scene, paddle_control_config};
use arena_physics::vec2::Vec2I;

fn wall_material() -> Material {
    Material::new(0, CombineRule::Average, 500, CombineRule::Average)
}

fn ball_material() -> Material {
    Material::new(1000, CombineRule::Max, 0, CombineRule::Min)
}

#[test]
fn ceil_sqrt_exact_values() {
    assert_eq!(ceil_sqrt(0), 0);
    assert_eq!(ceil_sqrt(1), 1);
    assert_eq!(ceil_sqrt(2), 2);
    assert_eq!(ceil_sqrt(4), 2);
    assert_eq!(ceil_sqrt(5), 3);
    assert_eq!(ceil_sqrt(1_000_000), 1000);
    assert_eq!(ceil_sqrt(1_000_001), 1001);
}

#[test]
fn clamp_leaves_slow_velocity_alone() {
    let v = Vec2I::new(100_000, 0);
    assert_eq!(clamp_speed(v, 200_000), v);
}

#[test]
fn clamp_caps_speed_and_keeps_direction_exactly_on_round_numbers() {
    // |v| is exactly 1_000_000, the cap 100_000: a clean 1/10 rescale.
    let v = Vec2I::new(600_000, 800_000);
    let r = clamp_speed(v, 100_000);
    assert_eq!(r, Vec2I::new(60_000, 80_000));
    assert_eq!(r.x * r.x + r.y * r.y, 100_000i64 * 100_000);
    // Collinear with the original: the cross product vanishes.
    assert_eq!(r.x * v.y - r.y * v.x, 0);
}

#[test]
fn clamp_caps_the_scene_ball_launch_speed() {
    let v = Vec2I::new(500_000, 500_000);
    let cap = 200_000i64;
    let r = clamp_speed(v, cap);
    // Never over the cap.
    assert!(r.x * r.x + r.y * r.y <= cap * cap);
    // Direction kept: equal components, both positive.
    assert_eq!(r.x, r.y);
    assert!(r.x > 0);
    // And the exact rescale: cap over the rounded-up magnitude.
    let m = (((v.x * v.x + v.y * v.y) as f64).sqrt()).ceil() as i64;
    assert_eq!(r.x, v.x * cap / m);
}

#[test]
fn circle_overlap_is_strict() {
    let a = Vec2I::new(0, 0);
    assert!(circles_overlap(a, 10_000, Vec2I::new(15_000, 0), 10_000));
    assert!(!circles_overlap(a, 10_000, Vec2I::new(20_000, 0), 10_000));
}

#[test]
fn rect_overlap_is_strict() {
    let a = Vec2I::new(0, 0);
    assert!(rects_overlap(a, 10_000, 10_000, Vec2I::new(19_999, 0), 10_000, 10_000));
    assert!(!rects_overlap(a, 10_000, 10_000, Vec2I::new(20_000, 0), 10_000, 10_000));
}

#[test]
fn circle_rect_overlap_uses_nearest_point() {
    let rect_at = Vec2I::new(0, 0);
    // Circle above the rectangle's top face, closer than its radius.
    assert!(circle_rect_overlap(Vec2I::new(0, 30_000), 10_000, rect_at, 50_000, 25_000));
    // Corner case: diagonal distance to the corner decides.
    assert!(!circle_rect_overlap(
        Vec2I::new(58_000, 31_000),
        10_000,
        rect_at,
        50_000,
        25_000
    ));
}

#[test]
fn scene_has_player_walls_and_ball() {
    let w = build_scene();
    assert_eq!(w.bodies.len(), 6);
    assert!(matches!(w.bodies[0].kind, MotionKind::Kinematic));
    for i in 1..5 {
        assert!(matches!(w.bodies[i].kind, MotionKind::Static));
    }
    assert!(matches!(w.bodies[5].kind, MotionKind::Dynamic));
    assert_eq!(w.bodies[0].position, Vec2I::new(-300_000, 0));
    let ball = w.bodies[5];
    assert_eq!(ball.material.restitution, 1000);
    assert!(matches!(ball.material.restitution_rule, CombineRule::Max));
    assert_eq!(ball.material.friction, 0);
    assert!(matches!(ball.material.friction_rule, CombineRule::Min));
    assert_eq!(ball.max_speed, Some(200_000));
    assert!(matches!(ball.shape, Shape::Circle { radius: 10_000 }));
    assert_eq!(w.config.gravity, Vec2I::new(0, 0));
}

#[test]
fn statics_never_move_across_many_ticks() {
    let mut w = build_scene();
    let walls: Vec<Body> = (1..5).map(|i| w.bodies[i]).collect();
    for _ in 0..50 {
        step_world(&mut w, 16);
    }
    for (k, i) in (1..5).enumerate() {
        assert_eq!(w.bodies[i].position, walls[k].position);
        assert_eq!(w.bodies[i].velocity, walls[k].velocity);
    }
}

#[test]
fn idle_kinematic_player_never_moves() {
    let mut w = build_scene();
    let player = w.bodies[0];
    for _ in 0..50 {
        step_world(&mut w, 16);
    }
    assert_eq!(w.bodies[0].position, player.position);
    assert_eq!(w.bodies[0].velocity, player.velocity);
}

#[test]
fn ball_speed_is_capped_after_every_tick() {
    let mut w = build_scene();
    let cap = 200_000i64;
    for _ in 0..100 {
        step_world(&mut w, 16);
        let v = w.bodies[5].velocity;
        assert!(v.x * v.x + v.y * v.y <= cap * cap);
    }
}

#[test]
fn ball_bounces_off_a_wall_fully_elastically() {
    // A ball falling straight onto a static wall, overlapping by 5_000.
    let wall = Body::new(
        MotionKind::Static,
        Vec2I::new(0, 0),
        Vec2I::new(0, 0),
        Shape::Rect { half_x: 50_000, half_y: 25_000 },
        wall_material(),
        None,
    );
    let ball = Body::new(
        MotionKind::Dynamic,
        Vec2I::new(0, 30_000),
        Vec2I::new(0, -100_000),
        Shape::Circle { radius: 10_000 },
        ball_material(),
        Some(200_000),
    );
    let mut w = World { bodies: vec![wall, ball], config: WorldConfig { gravity: Vec2I::new(0, 0), length_unit: 10_000 } };
    step_world(&mut w, 0);
    // Max-restitution 1.0 reflects the normal component exactly; Min-friction
    // 0.0 leaves the tangential component alone.
    assert_eq!(w.bodies[1].velocity, Vec2I::new(0, 100_000));
    // Interpenetration resolved: the ball is pushed out along the normal.
    assert_eq!(w.bodies[1].position, Vec2I::new(0, 35_000));
    // The wall absorbed nothing.
    assert_eq!(w.bodies[0].position, Vec2I::new(0, 0));
    assert_eq!(w.bodies[0].velocity, Vec2I::new(0, 0));
}

#[test]
fn separating_ball_is_left_alone() {
    let wall = Body::new(
        MotionKind::Static,
        Vec2I::new(0, 0),
        Vec2I::new(0, 0),
        Shape::Rect { half_x: 50_000, half_y: 25_000 },
        wall_material(),
        None,
    );
    // Overlapping but already moving away: no impulse is applied.
    let ball = Body::new(
        MotionKind::Dynamic,
        Vec2I::new(0, 30_000),
        Vec2I::new(0, 100_000),
        Shape::Circle { radius: 10_000 },
        ball_material(),
        Some(200_000),
    );
    let mut w = World { bodies: vec![wall, ball], config: WorldConfig { gravity: Vec2I::new(0, 0), length_unit: 10_000 } };
    step_world(&mut w, 0);
    assert_eq!(w.bodies[1].velocity, Vec2I::new(0, 100_000));
}

#[test]
fn player_input_writes_player_velocity_only() {
    let mut w = build_scene();
    let before: Vec<Body> = (1..6).map(|i| w.bodies[i]).collect();
    let cfg = paddle_control_config();
    apply_player_input(&mut w, 0, HeldDirections::new(true, false, false, false), cfg, 16);
    assert_eq!(w.bodies[0].velocity, Vec2I::new(0, 160_000));
    for (k, i) in (1..6).enumerate() {
        assert_eq!(w.bodies[i].position, before[k].position);
        assert_eq!(w.bodies[i].velocity, before[k].velocity);
    }
}

#[test]
fn contact_free_tick_is_pure_integration() {
    // A ball far from the one wall: zero gravity, no contacts, so the tick
    // advances its position by exactly v * dt / 1000 and keeps its velocity.
    let ball = Body::new(
        MotionKind::Dynamic,
        Vec2I::new(0, 0),
        Vec2I::new(10_000, 20_000),
        Shape::Circle { radius: 10_000 },
        ball_material(),
        Some(200_000),
    );
    let wall = Body::new(
        MotionKind::Static,
        Vec2I::new(500_000, 0),
        Vec2I::new(0, 0),
        Shape::Rect { half_x: 25_000, half_y: 25_000 },
        wall_material(),
        None,
    );
    let mut w = World {
        bodies: vec![ball, wall],
        config: WorldConfig { gravity: Vec2I::new(0, 0), length_unit: 10_000 },
    };
    step_world(&mut w, 16);
    assert_eq!(w.bodies[0].position, Vec2I::new(160, 320));
    assert_eq!(w.bodies[0].velocity, Vec2I::new(10_000, 20_000));
    step_world(&mut w, 32);
    // Frame-time independence: twice the elapsed time, twice the advance.
    assert_eq!(w.bodies[0].position, Vec2I::new(160 + 320, 320 + 640));
    assert_eq!(w.bodies[0].velocity, Vec2I::new(10_000, 20_000));
}

#[test]
fn kinematic_paddle_pushes_ball_but_is_not_pushed_back() {
    let paddle = Body::new(
        MotionKind::Kinematic,
        Vec2I::new(0, 0),
        Vec2I::new(0, 0),
        Shape::Rect { half_x: 25_000, half_y: 100_000 },
        wall_material(),
        None,
    );
    // A resting ball overlapping the paddle's right face by 5_000.
    let ball = Body::new(
        MotionKind::Dynamic,
        Vec2I::new(30_000, 0),
        Vec2I::new(0, 0),
        Shape::Circle { radius: 10_000 },
        ball_material(),
        Some(200_000),
    );
    let mut w = World {
        bodies: vec![paddle, ball],
        config: WorldConfig { gravity: Vec2I::new(0, 0), length_unit: 10_000 },
    };
    step_world(&mut w, 0);
    // The dynamic ball absorbs the whole correction.
    assert_eq!(w.bodies[1].position, Vec2I::new(35_000, 0));
    // The kinematic paddle is exactly where it was.
    assert_eq!(w.bodies[0].position, Vec2I::new(0, 0));
    assert_eq!(w.bodies[0].velocity, Vec2I::new(0, 0));
}

#[test]
fn gravity_accelerates_only_dynamic_bodies() {
    let kin = Body::new(
        MotionKind::Kinematic,
        Vec2I::new(-500_000, 0),
        Vec2I::new(0, 0),
        Shape::Rect { half_x: 25_000, half_y: 25_000 },
        wall_material(),
        None,
    );
    let ball = Body::new(
        MotionKind::Dynamic,
        Vec2I::new(500_000, 0),
        Vec2I::new(0, 0),
        Shape::Circle { radius: 10_000 },
        ball_material(),
        None,
    );
    let mut w = World {
        bodies: vec![kin, ball],
        config: WorldConfig { gravity: Vec2I::new(0, -1_000_000), length_unit: 10_000 },
    };
    step_world(&mut w, 16);
    // v += g * dt / 1000, then the position follows the new velocity.
    assert_eq!(w.bodies[1].velocity, Vec2I::new(0, -16_000));
    assert_eq!(w.bodies[1].position, Vec2I::new(500_000, -256));
    assert_eq!(w.bodies[0].velocity, Vec2I::new(0, 0));
    assert_eq!(w.bodies[0].position, Vec2I::new(-500_000, 0));
}

#[test]
fn overlap_test_matches_shape_pairing() {
    let wall = Body::new(
        MotionKind::Static,
        Vec2I::new(0, 300_000),
        Vec2I::new(0, 0),
        Shape::Rect { half_x: 500_000, half_y: 25_000 },
        wall_material(),
        None,
    );
    let ball_far = Body::new(
        MotionKind::Dynamic,
        Vec2I::new(0, 0),
        Vec2I::new(0, 0),
        Shape::Circle { radius: 10_000 },
        ball_material(),
        None,
    );
    let ball_near = Body::new(
        MotionKind::Dynamic,
        Vec2I::new(0, 266_000),
        Vec2I::new(0, 0),
        Shape::Circle { radius: 10_000 },
        ball_material(),
        None,
    );
    assert!(!overlap_test(&wall, &ball_far));
    assert!(overlap_test(&wall, &ball_near));
}
