//! Material coefficients (restitution, friction) and the rule that merges two
//! contacting bodies' coefficients into one effective value for the contact.

use vstd::prelude::*;
use crate::SCALE;

verus! {

/// How a body asks its coefficient to be combined with the other body's on
/// contact. When the two bodies disagree, the rule of higher precedence wins;
/// precedence is `Max > Multiply > Min > Average`, so the bounciest bounce and
/// the slipperiest slide always prevail.
#[derive(Clone, Copy, PartialEq, Eq, Structural, Debug)]
pub enum CombineRule {
    Max,
    Multiply,
    Min,
    Average,
}

/// A coefficient is a fixed-point value in `[0, SCALE]`, standing for
/// the real interval `[0, 1]`.
pub open spec fn coeff_ok(c: i64) -> bool {
    0 <= c <= SCALE
}

/// Precedence of a combine rule: higher wins a conflict.
pub open spec fn precedence(r: CombineRule) -> int {
    match r {
        CombineRule::Max => 3,
        CombineRule::Multiply => 2,
        CombineRule::Min => 1,
        CombineRule::Average => 0,
    }
}

/// The rule that governs a contact between bodies declaring `ra` and `rb`.
pub open spec fn winning_rule(ra: CombineRule, rb: CombineRule) -> CombineRule {
    if precedence(ra) >= precedence(rb) {
        ra
    } else {
        rb
    }
}

/// The effective coefficient a rule produces from two coefficients.
pub open spec fn apply_rule(r: CombineRule, a: int, b: int) -> int {
    match r {
        CombineRule::Max => if a >= b { a } else { b },
        CombineRule::Multiply => (a * b) / (SCALE as int),
        CombineRule::Min => if a <= b { a } else { b },
        CombineRule::Average => (a + b) / 2,
    }
}

/// The effective coefficient for a contact between `(a, ra)` and `(b, rb)`.
pub open spec fn combined(a: int, ra: CombineRule, b: int, rb: CombineRule) -> int {
    apply_rule(winning_rule(ra, rb), a, b)
}

/// One body's surface properties: a restitution and a friction coefficient,
/// each with the combine rule the body declares for it.
#[derive(Clone, Copy, PartialEq, Eq, Structural, Debug)]
pub struct Material {
    pub restitution: i64,
    pub restitution_rule: CombineRule,
    pub friction: i64,
    pub friction_rule: CombineRule,
}

/// Both coefficients of a material lie in `[0, SCALE]`.
pub open spec fn material_ok(m: Material) -> bool {
    coeff_ok(m.restitution) && coeff_ok(m.friction)
}

impl Material {
    pub fn new(
        restitution: i64,
        restitution_rule: CombineRule,
        friction: i64,
        friction_rule: CombineRule,
    ) -> (r: Material)
        requires
            coeff_ok(restitution),
            coeff_ok(friction),
        ensures
            r == (Material { restitution, restitution_rule, friction, friction_rule }),
            material_ok(r),
    {
        Material { restitution, restitution_rule, friction, friction_rule }
    }
}

/// Merge two coefficients under the two bodies' declared rules: the rule of
/// higher precedence decides, and `Max`, `Multiply`, `Min`, `Average` act as
/// their names say (`Multiply` and `Average` in fixed point, rounding down).
pub fn combine_coefficients(a: i64, ra: CombineRule, b: i64, rb: CombineRule) -> (r: i64)
    requires
        coeff_ok(a),
        coeff_ok(b),
    ensures
        r == combined(a as int, ra, b as int, rb),
        coeff_ok(r),
{
    let rule = if rule_precedence(ra) >= rule_precedence(rb) { ra } else { rb };
    match rule {
        CombineRule::Max => if a >= b { a } else { b },
        CombineRule::Multiply => {
            proof {
                lemma_coeff_product_bounds(a as int, b as int);
            }
            (a * b) / SCALE
        },
        CombineRule::Min => if a <= b { a } else { b },
        CombineRule::Average => (a + b) / 2,
    }
}

/// The precedence of a rule, as executable code.
pub fn rule_precedence(r: CombineRule) -> (p: i64)
    ensures
        p == precedence(r),
{
    match r {
        CombineRule::Max => 3,
        CombineRule::Multiply => 2,
        CombineRule::Min => 1,
        CombineRule::Average => 0,
    }
}

/// The effective restitution for a contact between bodies of materials `a`
/// and `b`.
pub fn combine_restitution(a: Material, b: Material) -> (r: i64)
    requires
        material_ok(a),
        material_ok(b),
    ensures
        r == combined(
            a.restitution as int,
            a.restitution_rule,
            b.restitution as int,
            b.restitution_rule,
        ),
        coeff_ok(r),
{
    combine_coefficients(a.restitution, a.restitution_rule, b.restitution, b.restitution_rule)
}

/// The effective friction for a contact between bodies of materials `a`
/// and `b`.
pub fn combine_friction(a: Material, b: Material) -> (r: i64)
    requires
        material_ok(a),
        material_ok(b),
    ensures
        r == combined(a.friction as int, a.friction_rule, b.friction as int, b.friction_rule),
        coeff_ok(r),
{
    combine_coefficients(a.friction, a.friction_rule, b.friction, b.friction_rule)
}

/// A product of two coefficients, scaled back down, is again a coefficient.
proof fn lemma_coeff_product_bounds(a: int, b: int) by (nonlinear_arith)
    requires
        0 <= a <= SCALE,
        0 <= b <= SCALE,
    ensures
        0 <= a * b <= SCALE * SCALE,
        0 <= (a * b) / (SCALE as int) <= SCALE,
{
}

/// Combine resolution is commutative: resolving `(a, ra)` against `(b, rb)`
/// yields the same effective coefficient as resolving `(b, rb)` against
/// `(a, ra)`, whatever the two rules are.
pub proof fn lemma_combine_commutative(a: int, ra: CombineRule, b: int, rb: CombineRule)
    requires
        0 <= a <= SCALE,
        0 <= b <= SCALE,
    ensures
        combined(a, ra, b, rb) == combined(b, rb, a, ra),
{
    assert(a * b == b * a) by (nonlinear_arith);
}

} // verus!
