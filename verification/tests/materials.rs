use arena_physics::material::{
    combine_coefficients, combine_friction, combine_restitution, rule_precedence, CombineRule,
    Material,
};

fn ball_material() -> Material {
    Material::new(1000, CombineRule::Max, 0, CombineRule::Min)
}

fn wall_material() -> Material {
    Material::new(0, CombineRule::Average, 500, CombineRule::Average)
}

#[test]
fn max_precedence_wins_restitution() {
    // A fully elastic Max ball against a dead Average wall still bounces fully.
    let e = combine_restitution(ball_material(), wall_material());
    assert_eq!(e, 1000);
}

#[test]
fn min_precedence_wins_friction() {
    // A frictionless Min ball against a grippy Average wall stays frictionless.
    let f = combine_friction(ball_material(), wall_material());
    assert_eq!(f, 0);
}

#[test]
fn combine_is_commutative_over_all_rule_pairs() {
    let rules = [
        CombineRule::Max,
        CombineRule::Multiply,
        CombineRule::Min,
        CombineRule::Average,
    ];
    for ra in rules {
        for rb in rules {
            let ab = combine_coefficients(300, ra, 700, rb);
            let ba = combine_coefficients(700, rb, 300, ra);
            assert_eq!(ab, ba);
        }
    }
}

#[test]
fn combine_rule_values() {
    let a = CombineRule::Average;
    assert_eq!(combine_coefficients(300, CombineRule::Max, 700, a), 700);
    assert_eq!(combine_coefficients(300, CombineRule::Min, 700, a), 300);
    assert_eq!(combine_coefficients(300, a, 700, a), 500);
    assert_eq!(
        combine_coefficients(300, CombineRule::Multiply, 700, a),
        210
    );
    // Multiply in fixed point: 0.5 * 0.5 == 0.25.
    assert_eq!(
        combine_coefficients(500, CombineRule::Multiply, 500, CombineRule::Multiply),
        250
    );
}

#[test]
fn precedence_order_is_max_multiply_min_average() {
    assert!(rule_precedence(CombineRule::Max) > rule_precedence(CombineRule::Multiply));
    assert!(rule_precedence(CombineRule::Multiply) > rule_precedence(CombineRule::Min));
    assert!(rule_precedence(CombineRule::Min) > rule_precedence(CombineRule::Average));
}

#[test]
fn average_rounds_down() {
    let a = CombineRule::Average;
    assert_eq!(combine_coefficients(1, a, 2, a), 1);
}
