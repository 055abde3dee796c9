use arena_physics::controller::{normalize_direction, player_tick_velocity, HeldDirections};
use arena_physics::scene::{free_control_config, paddle_control_config};
use arena_physics::vec2::Vec2I;

fn held(up: bool, down: bool, left: bool, right: bool) -> HeldDirections {
    HeldDirections::new(up, down, left, right)
}

#[test]
fn axis_directions_are_exactly_unit() {
    assert_eq!(normalize_direction(1, 0), Vec2I::new(1000, 0));
    assert_eq!(normalize_direction(-1, 0), Vec2I::new(-1000, 0));
    assert_eq!(normalize_direction(0, 1), Vec2I::new(0, 1000));
    assert_eq!(normalize_direction(0, -1), Vec2I::new(0, -1000));
}

#[test]
fn diagonal_directions_are_unit_within_rounding() {
    for (dx, dy) in [(1i64, 1i64), (1, -1), (-1, 1), (-1, -1)] {
        let u = normalize_direction(dx, dy);
        assert_eq!(u.x.abs(), 707);
        assert_eq!(u.y.abs(), 707);
        let mag_sq = u.x * u.x + u.y * u.y;
        // Unit magnitude up to fixed-point rounding: within SCALE of SCALE^2.
        assert!(mag_sq <= 1_000_000);
        assert!(mag_sq > 1_000_000 - 1000);
    }
}

#[test]
fn zero_direction_normalizes_to_zero_not_nan() {
    assert_eq!(normalize_direction(0, 0), Vec2I::new(0, 0));
}

#[test]
fn no_keys_held_means_zero_velocity() {
    let cfg = paddle_control_config();
    let v = player_tick_velocity(held(false, false, false, false), cfg, Vec2I::new(0, 0), 16);
    assert_eq!(v, Vec2I::new(0, 0));
}

#[test]
fn zero_frame_time_means_zero_velocity() {
    let cfg = paddle_control_config();
    let v = player_tick_velocity(held(true, false, false, false), cfg, Vec2I::new(0, 0), 0);
    assert_eq!(v, Vec2I::new(0, 0));
}

#[test]
fn upward_velocity_below_the_boundary() {
    let cfg = paddle_control_config();
    let v = player_tick_velocity(held(true, false, false, false), cfg, Vec2I::new(0, 0), 16);
    // speed 10_000_000 over 16 ms: 1000 * 10_000_000 * 16 / 1_000_000.
    assert_eq!(v, Vec2I::new(0, 160_000));
}

#[test]
fn up_at_the_boundary_is_suppressed() {
    let cfg = paddle_control_config();
    // Exactly at the threshold: moving further up would cross it.
    let at = Vec2I::new(-300_000, 200_000);
    let v = player_tick_velocity(held(true, false, false, false), cfg, at, 16);
    assert_eq!(v, Vec2I::new(0, 0));
    // Down is still allowed from there.
    let v = player_tick_velocity(held(false, true, false, false), cfg, at, 16);
    assert_eq!(v, Vec2I::new(0, -160_000));
}

#[test]
fn down_at_the_lower_boundary_is_suppressed() {
    let cfg = paddle_control_config();
    let at = Vec2I::new(-300_000, -200_000);
    let v = player_tick_velocity(held(false, true, false, false), cfg, at, 16);
    assert_eq!(v, Vec2I::new(0, 0));
}

#[test]
fn paddle_variant_ignores_horizontal_keys() {
    let cfg = paddle_control_config();
    let v = player_tick_velocity(held(false, false, true, false), cfg, Vec2I::new(0, 0), 16);
    assert_eq!(v, Vec2I::new(0, 0));
}

#[test]
fn free_variant_moves_diagonally() {
    let cfg = free_control_config();
    let v = player_tick_velocity(held(true, false, false, true), cfg, Vec2I::new(0, 0), 16);
    // 707 * 10_000_000 * 16 / 1_000_000 per component.
    assert_eq!(v, Vec2I::new(113_120, 113_120));
}

#[test]
fn opposed_keys_cancel() {
    let cfg = free_control_config();
    let v = player_tick_velocity(held(true, true, true, true), cfg, Vec2I::new(0, 0), 16);
    assert_eq!(v, Vec2I::new(0, 0));
}
