//! Collision geometry: exact integer overlap tests for every shape pairing,
//! the bounding-box broad phase, and contact construction.

use vstd::prelude::*;
use crate::SCALE;
use crate::body::{shape_ok, Body, Shape, SHAPE_BOUND};
use crate::clamp::{ceil_sqrt, ceil_sqrt_spec, is_ceil_sqrt};
use crate::material::{coeff_ok, combine_friction, combine_restitution, combined, material_ok};
use crate::num::{abs_val, lemma_abs_product2, trunc_div, mul_div};
use crate::vec2::{in_range, lemma_square_bound, mag_sq, Vec2I};

verus! {

/// Two circles overlap when their centers are strictly closer than the sum
/// of the radii.
pub open spec fn circles_overlap_spec(p1: Vec2I, r1: int, p2: Vec2I, r2: int) -> bool {
    let dx = p2.x - p1.x;
    let dy = p2.y - p1.y;
    dx * dx + dy * dy < (r1 + r2) * (r1 + r2)
}

/// Two axis-aligned rectangles overlap when they do on both axes.
pub open spec fn rects_overlap_spec(
    p1: Vec2I,
    h1x: int,
    h1y: int,
    p2: Vec2I,
    h2x: int,
    h2y: int,
) -> bool {
    abs_val(p2.x - p1.x) < h1x + h2x && abs_val(p2.y - p1.y) < h1y + h2y
}

/// `v` clamped into `[lo, hi]`.
pub open spec fn clamped(v: int, lo: int, hi: int) -> int {
    if v < lo {
        lo
    } else if v > hi {
        hi
    } else {
        v
    }
}

/// The point of the rectangle nearest the circle's center, per axis.
pub open spec fn nearest_x(pc: Vec2I, pr: Vec2I, hx: int) -> int {
    clamped(pc.x as int, pr.x - hx, pr.x + hx)
}

pub open spec fn nearest_y(pc: Vec2I, pr: Vec2I, hy: int) -> int {
    clamped(pc.y as int, pr.y - hy, pr.y + hy)
}

/// A circle and a rectangle overlap when the rectangle's nearest point is
/// strictly inside the circle.
pub open spec fn circle_rect_overlap_spec(pc: Vec2I, r: int, pr: Vec2I, hx: int, hy: int) -> bool {
    let dx = pc.x - nearest_x(pc, pr, hx);
    let dy = pc.y - nearest_y(pc, pr, hy);
    dx * dx + dy * dy < r * r
}

/// Whether the two bodies' colliders overlap, by exact shape pairing.
pub open spec fn bodies_overlap(a: Body, b: Body) -> bool {
    match (a.shape, b.shape) {
        (Shape::Circle { radius: r1 }, Shape::Circle { radius: r2 }) => circles_overlap_spec(
            a.position,
            r1 as int,
            b.position,
            r2 as int,
        ),
        (Shape::Circle { radius: r1 }, Shape::Rect { half_x, half_y }) => circle_rect_overlap_spec(
            a.position,
            r1 as int,
            b.position,
            half_x as int,
            half_y as int,
        ),
        (Shape::Rect { half_x, half_y }, Shape::Circle { radius: r2 }) => circle_rect_overlap_spec(
            b.position,
            r2 as int,
            a.position,
            half_x as int,
            half_y as int,
        ),
        (
            Shape::Rect { half_x: h1x, half_y: h1y },
            Shape::Rect { half_x: h2x, half_y: h2y },
        ) => rects_overlap_spec(
            a.position,
            h1x as int,
            h1y as int,
            b.position,
            h2x as int,
            h2y as int,
        ),
    }
}

/// The half-extents of a shape's bounding box.
pub open spec fn bb_half(s: Shape) -> (int, int) {
    match s {
        Shape::Circle { radius } => (radius as int, radius as int),
        Shape::Rect { half_x, half_y } => (half_x as int, half_y as int),
    }
}

/// The broad-phase test: bounding boxes overlap on both axes.
pub open spec fn aabbs_overlap(a: Body, b: Body) -> bool {
    let ha = bb_half(a.shape);
    let hb = bb_half(b.shape);
    abs_val(b.position.x - a.position.x) < ha.0 + hb.0 && abs_val(
        b.position.y - a.position.y,
    ) < ha.1 + hb.1
}

/// A squared bound on a value bounds the value.
proof fn lemma_abs_lt_of_sq(a: int, s: int) by (nonlinear_arith)
    requires
        s >= 0,
        a * a < s * s,
    ensures
        abs_val(a) < s,
{
}

/// Part of one squared sum is below the whole.
proof fn lemma_component_sq_le(dx: int, dy: int, s: int) by (nonlinear_arith)
    requires
        dx * dx + dy * dy < s * s,
        s >= 0,
    ensures
        dx * dx < s * s,
        dy * dy < s * s,
{
}

/// The broad phase never misses a real contact: overlapping colliders have
/// overlapping bounding boxes.
pub proof fn lemma_broad_phase_sound(a: Body, b: Body)
    requires
        shape_ok(a.shape),
        shape_ok(b.shape),
        bodies_overlap(a, b),
    ensures
        aabbs_overlap(a, b),
{
    match (a.shape, b.shape) {
        (Shape::Circle { radius: r1 }, Shape::Circle { radius: r2 }) => {
            let dx = b.position.x - a.position.x;
            let dy = b.position.y - a.position.y;
            lemma_component_sq_le(dx, dy, r1 + r2);
            lemma_abs_lt_of_sq(dx, r1 + r2);
            lemma_abs_lt_of_sq(dy, r1 + r2);
        },
        (Shape::Circle { radius: r1 }, Shape::Rect { half_x, half_y }) => {
            lemma_circle_rect_broad(a.position, r1 as int, b.position, half_x as int, half_y as int);
        },
        (Shape::Rect { half_x, half_y }, Shape::Circle { radius: r2 }) => {
            lemma_circle_rect_broad(b.position, r2 as int, a.position, half_x as int, half_y as int);
        },
        (Shape::Rect { half_x: h1x, half_y: h1y }, Shape::Rect { half_x: h2x, half_y: h2y }) => {
        },
    }
}

/// Broad-phase soundness for the circle-rectangle pairing.
proof fn lemma_circle_rect_broad(pc: Vec2I, r: int, pr: Vec2I, hx: int, hy: int)
    requires
        0 < r,
        0 < hx,
        0 < hy,
        circle_rect_overlap_spec(pc, r, pr, hx, hy),
    ensures
        abs_val(pc.x - pr.x) < r + hx,
        abs_val(pc.y - pr.y) < r + hy,
        abs_val(pr.x - pc.x) < r + hx,
        abs_val(pr.y - pc.y) < r + hy,
{
    let cx = nearest_x(pc, pr, hx);
    let cy = nearest_y(pc, pr, hy);
    let dx = pc.x - cx;
    let dy = pc.y - cy;
    lemma_component_sq_le(dx, dy, r);
    lemma_abs_lt_of_sq(dx, r);
    lemma_abs_lt_of_sq(dy, r);
    assert(abs_val(cx - pr.x) <= hx);
    assert(abs_val(cy - pr.y) <= hy);
}

/// The executable broad phase: do the two bodies' bounding boxes overlap?
/// By `lemma_broad_phase_sound`, a `false` answer rules the pair out.
pub fn aabb_overlap_test(a: &Body, b: &Body) -> (r: bool)
    requires
        in_range(a.position),
        in_range(b.position),
        shape_ok(a.shape),
        shape_ok(b.shape),
    ensures
        r == aabbs_overlap(*a, *b),
{
    let (ax, ay) = match a.shape {
        Shape::Circle { radius } => (radius, radius),
        Shape::Rect { half_x, half_y } => (half_x, half_y),
    };
    let (bx, by) = match b.shape {
        Shape::Circle { radius } => (radius, radius),
        Shape::Rect { half_x, half_y } => (half_x, half_y),
    };
    let dx = b.position.x - a.position.x;
    let dy = b.position.y - a.position.y;
    let adx = if dx >= 0 { dx } else { -dx };
    let ady = if dy >= 0 { dy } else { -dy };
    adx < ax + bx && ady < ay + by
}

/// The exact narrow-phase overlap test for two bodies.
pub fn overlap_test(a: &Body, b: &Body) -> (r: bool)
    requires
        in_range(a.position),
        in_range(b.position),
        shape_ok(a.shape),
        shape_ok(b.shape),
    ensures
        r == bodies_overlap(*a, *b),
{
    match (a.shape, b.shape) {
        (Shape::Circle { radius: r1 }, Shape::Circle { radius: r2 }) => {
            circles_overlap(a.position, r1, b.position, r2)
        },
        (Shape::Circle { radius: r1 }, Shape::Rect { half_x, half_y }) => {
            circle_rect_overlap(a.position, r1, b.position, half_x, half_y)
        },
        (Shape::Rect { half_x, half_y }, Shape::Circle { radius: r2 }) => {
            circle_rect_overlap(b.position, r2, a.position, half_x, half_y)
        },
        (Shape::Rect { half_x: h1x, half_y: h1y }, Shape::Rect { half_x: h2x, half_y: h2y }) => {
            rects_overlap(a.position, h1x, h1y, b.position, h2x, h2y)
        },
    }
}

/// Exact circle-circle overlap.
pub fn circles_overlap(p1: Vec2I, r1: i64, p2: Vec2I, r2: i64) -> (res: bool)
    requires
        in_range(p1),
        in_range(p2),
        0 < r1 <= SHAPE_BOUND,
        0 < r2 <= SHAPE_BOUND,
    ensures
        res == circles_overlap_spec(p1, r1 as int, p2, r2 as int),
{
    let dx = p2.x - p1.x;
    let dy = p2.y - p1.y;
    proof {
        lemma_square_bound(dx as int, 2_000_000_000);
        lemma_square_bound(dy as int, 2_000_000_000);
        lemma_square_bound((r1 + r2) as int, 2 * SHAPE_BOUND as int);
    }
    let s = r1 + r2;
    dx * dx + dy * dy < s * s
}

/// Exact rectangle-rectangle overlap.
pub fn rects_overlap(p1: Vec2I, h1x: i64, h1y: i64, p2: Vec2I, h2x: i64, h2y: i64) -> (res: bool)
    requires
        in_range(p1),
        in_range(p2),
        0 < h1x <= SHAPE_BOUND,
        0 < h1y <= SHAPE_BOUND,
        0 < h2x <= SHAPE_BOUND,
        0 < h2y <= SHAPE_BOUND,
    ensures
        res == rects_overlap_spec(p1, h1x as int, h1y as int, p2, h2x as int, h2y as int),
{
    let dx = p2.x - p1.x;
    let dy = p2.y - p1.y;
    let adx = if dx >= 0 { dx } else { -dx };
    let ady = if dy >= 0 { dy } else { -dy };
    adx < h1x + h2x && ady < h1y + h2y
}

/// Exact circle-rectangle overlap, via the rectangle's nearest point.
pub fn circle_rect_overlap(pc: Vec2I, r: i64, pr: Vec2I, hx: i64, hy: i64) -> (res: bool)
    requires
        in_range(pc),
        in_range(pr),
        0 < r <= SHAPE_BOUND,
        0 < hx <= SHAPE_BOUND,
        0 < hy <= SHAPE_BOUND,
    ensures
        res == circle_rect_overlap_spec(pc, r as int, pr, hx as int, hy as int),
{
    let cx = clamp_i64(pc.x, pr.x - hx, pr.x + hx);
    let cy = clamp_i64(pc.y, pr.y - hy, pr.y + hy);
    let dx = pc.x - cx;
    let dy = pc.y - cy;
    proof {
        lemma_square_bound(dx as int, 2_100_000_000);
        lemma_square_bound(dy as int, 2_100_000_000);
        lemma_square_bound(r as int, SHAPE_BOUND as int);
    }
    dx * dx + dy * dy < r * r
}

/// `v` clamped into `[lo, hi]`.
pub fn clamp_i64(v: i64, lo: i64, hi: i64) -> (r: i64)
    requires
        lo <= hi,
    ensures
        r == clamped(v as int, lo as int, hi as int),
{
    if v < lo {
        lo
    } else if v > hi {
        hi
    } else {
        v
    }
}

/// The unit sign of an axis offset: `1` for nonnegative, `-1` for negative.
pub open spec fn sign_unit(d: int) -> int {
    if d >= 0 {
        1
    } else {
        -1
    }
}

/// An ephemeral contact between two overlapping bodies: the contact normal
/// (fixed-point, pointing from the first body toward the second, of length at
/// most `SCALE`), the penetration depth, and the resolved material
/// coefficients for this pair.
#[derive(Clone, Copy, PartialEq, Eq, Structural, Debug)]
pub struct Contact {
    pub normal: Vec2I,
    pub depth: i64,
    pub restitution: i64,
    pub friction: i64,
}

/// Normal and depth for two overlapping rectangles: the axis of least
/// penetration, signed toward the second rectangle.
pub open spec fn rect_rect_contact_spec(
    p1: Vec2I,
    h1x: int,
    h1y: int,
    p2: Vec2I,
    h2x: int,
    h2y: int,
) -> (Vec2I, int) {
    let dx = p2.x - p1.x;
    let dy = p2.y - p1.y;
    let ox = h1x + h2x - abs_val(dx);
    let oy = h1y + h2y - abs_val(dy);
    if ox <= oy {
        (Vec2I { x: (sign_unit(dx) * SCALE) as i64, y: 0 }, ox)
    } else {
        (Vec2I { x: 0, y: (sign_unit(dy) * SCALE) as i64 }, oy)
    }
}

/// Normal and depth for two overlapping circles: along the line of centers,
/// with coincident centers pushed apart along the x axis.
pub open spec fn circle_circle_contact_spec(p1: Vec2I, r1: int, p2: Vec2I, r2: int) -> (
    Vec2I,
    int,
) {
    let dx = p2.x - p1.x;
    let dy = p2.y - p1.y;
    if dx == 0 && dy == 0 {
        (Vec2I { x: SCALE, y: 0 }, r1 + r2)
    } else {
        let m = ceil_sqrt_spec(dx * dx + dy * dy);
        (
            Vec2I { x: trunc_div(dx * SCALE, m) as i64, y: trunc_div(dy * SCALE, m) as i64 },
            r1 + r2 - m,
        )
    }
}

/// Normal and depth for a circle overlapping a rectangle, pointing from the
/// circle toward the rectangle: along the line to the rectangle's nearest
/// point, or, with the center inside the rectangle, along the shallower axis.
pub open spec fn circle_rect_contact_spec(pc: Vec2I, r: int, pr: Vec2I, hx: int, hy: int) -> (
    Vec2I,
    int,
) {
    let cx = nearest_x(pc, pr, hx);
    let cy = nearest_y(pc, pr, hy);
    let dx = cx - pc.x;
    let dy = cy - pc.y;
    if dx == 0 && dy == 0 {
        let ox = hx - abs_val(pc.x - pr.x);
        let oy = hy - abs_val(pc.y - pr.y);
        if ox <= oy {
            (Vec2I { x: (sign_unit(pr.x - pc.x) * SCALE) as i64, y: 0 }, r + ox)
        } else {
            (Vec2I { x: 0, y: (sign_unit(pr.y - pc.y) * SCALE) as i64 }, r + oy)
        }
    } else {
        let m = ceil_sqrt_spec(dx * dx + dy * dy);
        (
            Vec2I { x: trunc_div(dx * SCALE, m) as i64, y: trunc_div(dy * SCALE, m) as i64 },
            r - m,
        )
    }
}

/// A contact normal flipped to point the other way.
pub open spec fn flipped(n: Vec2I) -> Vec2I {
    Vec2I { x: (-n.x) as i64, y: (-n.y) as i64 }
}

/// The normal and depth of the contact between two overlapping bodies, from
/// the first toward the second.
pub open spec fn contact_normal_depth(a: Body, b: Body) -> (Vec2I, int) {
    match (a.shape, b.shape) {
        (Shape::Circle { radius: r1 }, Shape::Circle { radius: r2 }) => circle_circle_contact_spec(
            a.position,
            r1 as int,
            b.position,
            r2 as int,
        ),
        (Shape::Circle { radius: r1 }, Shape::Rect { half_x, half_y }) => circle_rect_contact_spec(
            a.position,
            r1 as int,
            b.position,
            half_x as int,
            half_y as int,
        ),
        (Shape::Rect { half_x, half_y }, Shape::Circle { radius: r2 }) => {
            let nd = circle_rect_contact_spec(
                b.position,
                r2 as int,
                a.position,
                half_x as int,
                half_y as int,
            );
            (flipped(nd.0), nd.1)
        },
        (
            Shape::Rect { half_x: h1x, half_y: h1y },
            Shape::Rect { half_x: h2x, half_y: h2y },
        ) => rect_rect_contact_spec(
            a.position,
            h1x as int,
            h1y as int,
            b.position,
            h2x as int,
            h2y as int,
        ),
    }
}

/// Normalize an offset `(dx, dy)` into a fixed-point direction of length at
/// most `SCALE`, and return the rounded-up distance it covers.
fn normalize_offset(dx: i64, dy: i64) -> (r: (Vec2I, i64))
    requires
        dx * dx + dy * dy <= 4_000_000_000_000,
        !(dx == 0 && dy == 0),
    ensures
        r.1 == ceil_sqrt_spec(dx * dx + dy * dy),
        r.1 > 0,
        is_ceil_sqrt(dx * dx + dy * dy, r.1 as int),
        r.0.x == trunc_div(dx * SCALE, r.1 as int),
        r.0.y == trunc_div(dy * SCALE, r.1 as int),
        mag_sq(r.0) <= SCALE * SCALE,
        -SCALE <= r.0.x <= SCALE,
        -SCALE <= r.0.y <= SCALE,
{
    proof {
        crate::clamp::lemma_abs_sq_mono(0, dx as int);
        crate::clamp::lemma_abs_sq_mono(0, dy as int);
        lemma_abs_lt_of_sq(dx as int, 2_000_001);
        lemma_abs_lt_of_sq(dy as int, 2_000_001);
    }
    let n = dx * dx + dy * dy;
    let m = ceil_sqrt(n);
    proof {
        assert(n >= 1) by {
            crate::clamp::lemma_abs_sq_mono(0, dx as int);
            crate::clamp::lemma_abs_sq_mono(0, dy as int);
            if dx != 0 {
                crate::clamp::lemma_abs_sq_mono(1, dx as int);
            } else {
                crate::clamp::lemma_abs_sq_mono(1, dy as int);
            }
        }
        crate::clamp::lemma_sqrt_mono(m as int, 0);
        lemma_abs_product2(dx as int, SCALE as int, 2_000_001, SCALE as int);
        lemma_abs_product2(dy as int, SCALE as int, 2_000_001, SCALE as int);
    }
    let nx = mul_div(dx, SCALE, m);
    let ny = mul_div(dy, SCALE, m);
    proof {
        crate::clamp::lemma_trunc_div_mul_props(dx as int * SCALE as int, m as int);
        crate::clamp::lemma_trunc_div_mul_props(dy as int * SCALE as int, m as int);
        assert(dx as int * SCALE as int == SCALE as int * dx as int) by (nonlinear_arith);
        assert(dy as int * SCALE as int == SCALE as int * dy as int) by (nonlinear_arith);
        crate::clamp::lemma_scaled_sum_sq(
            nx as int,
            ny as int,
            dx as int,
            dy as int,
            SCALE as int,
            m as int,
        );
        crate::clamp::lemma_clamped_in_range(nx as int, ny as int, SCALE as int);
    }
    (Vec2I { x: nx, y: ny }, m)
}

/// Compute the contact between two bodies, if their colliders overlap: the
/// normal from `a` toward `b`, the penetration depth, and the pair's
/// combined restitution and friction.
pub fn compute_contact(a: &Body, b: &Body) -> (r: Option<Contact>)
    requires
        in_range(a.position),
        in_range(b.position),
        shape_ok(a.shape),
        shape_ok(b.shape),
        material_ok(a.material),
        material_ok(b.material),
    ensures
        r is Some <==> bodies_overlap(*a, *b),
        r matches Some(c) ==> {
            &&& c.normal == contact_normal_depth(*a, *b).0
            &&& c.depth == contact_normal_depth(*a, *b).1
            &&& 0 <= c.depth <= 2 * SHAPE_BOUND
            &&& mag_sq(c.normal) <= SCALE * SCALE
            &&& c.restitution == combined(
                a.material.restitution as int,
                a.material.restitution_rule,
                b.material.restitution as int,
                b.material.restitution_rule,
            )
            &&& c.friction == combined(
                a.material.friction as int,
                a.material.friction_rule,
                b.material.friction as int,
                b.material.friction_rule,
            )
            &&& coeff_ok(c.restitution)
            &&& coeff_ok(c.friction)
        },
{
    if !overlap_test(a, b) {
        return None;
    }
    let restitution = combine_restitution(a.material, b.material);
    let friction = combine_friction(a.material, b.material);
    let (normal, depth) = contact_geometry(a, b);
    Some(Contact { normal, depth, restitution, friction })
}

/// The geometric part of a contact: normal from `a` toward `b`, and depth.
fn contact_geometry(a: &Body, b: &Body) -> (r: (Vec2I, i64))
    requires
        in_range(a.position),
        in_range(b.position),
        shape_ok(a.shape),
        shape_ok(b.shape),
        bodies_overlap(*a, *b),
    ensures
        r.0 == contact_normal_depth(*a, *b).0,
        r.1 == contact_normal_depth(*a, *b).1,
        0 <= r.1 <= 2 * SHAPE_BOUND,
        mag_sq(r.0) <= SCALE * SCALE,
{
    match (a.shape, b.shape) {
        (Shape::Circle { radius: r1 }, Shape::Circle { radius: r2 }) => {
            circle_circle_contact(a.position, r1, b.position, r2)
        },
        (Shape::Circle { radius: r1 }, Shape::Rect { half_x, half_y }) => {
            circle_rect_contact(a.position, r1, b.position, half_x, half_y)
        },
        (Shape::Rect { half_x, half_y }, Shape::Circle { radius: r2 }) => {
            let (n, d) = circle_rect_contact(b.position, r2, a.position, half_x, half_y);
            proof {
                crate::clamp::lemma_clamped_in_range(n.x as int, n.y as int, SCALE as int);
                assert((-(n.x as int)) * (-(n.x as int)) == (n.x as int) * (n.x as int))
                    by (nonlinear_arith);
                assert((-(n.y as int)) * (-(n.y as int)) == (n.y as int) * (n.y as int))
                    by (nonlinear_arith);
            }
            (Vec2I { x: -n.x, y: -n.y }, d)
        },
        (Shape::Rect { half_x: h1x, half_y: h1y }, Shape::Rect { half_x: h2x, half_y: h2y }) => {
            rect_rect_contact(a.position, h1x, h1y, b.position, h2x, h2y)
        },
    }
}

/// Contact normal and depth for two overlapping rectangles.
fn rect_rect_contact(p1: Vec2I, h1x: i64, h1y: i64, p2: Vec2I, h2x: i64, h2y: i64) -> (r: (
    Vec2I,
    i64,
))
    requires
        in_range(p1),
        in_range(p2),
        0 < h1x <= SHAPE_BOUND,
        0 < h1y <= SHAPE_BOUND,
        0 < h2x <= SHAPE_BOUND,
        0 < h2y <= SHAPE_BOUND,
        rects_overlap_spec(p1, h1x as int, h1y as int, p2, h2x as int, h2y as int),
    ensures
        r.0 == rect_rect_contact_spec(p1, h1x as int, h1y as int, p2, h2x as int, h2y as int).0,
        r.1 == rect_rect_contact_spec(p1, h1x as int, h1y as int, p2, h2x as int, h2y as int).1,
        0 <= r.1 <= 2 * SHAPE_BOUND,
        mag_sq(r.0) == SCALE * SCALE,
{
    let dx = p2.x - p1.x;
    let dy = p2.y - p1.y;
    let adx = if dx >= 0 { dx } else { -dx };
    let ady = if dy >= 0 { dy } else { -dy };
    let ox = h1x + h2x - adx;
    let oy = h1y + h2y - ady;
    proof {
        lemma_square_of_negation(SCALE as int);
    }
    if ox <= oy {
        let sx: i64 = if dx >= 0 { SCALE } else { -SCALE };
        (Vec2I { x: sx, y: 0 }, ox)
    } else {
        let sy: i64 = if dy >= 0 { SCALE } else { -SCALE };
        (Vec2I { x: 0, y: sy }, oy)
    }
}

/// `SCALE` and `-SCALE` both square to `SCALE * SCALE`.
proof fn lemma_square_of_negation(k: int) by (nonlinear_arith)
    ensures
        k * k == (-k) * (-k),
        0 * 0 == 0,
{
}

/// Contact normal and depth for two overlapping circles.
fn circle_circle_contact(p1: Vec2I, r1: i64, p2: Vec2I, r2: i64) -> (r: (Vec2I, i64))
    requires
        in_range(p1),
        in_range(p2),
        0 < r1 <= SHAPE_BOUND,
        0 < r2 <= SHAPE_BOUND,
        circles_overlap_spec(p1, r1 as int, p2, r2 as int),
    ensures
        r.0 == circle_circle_contact_spec(p1, r1 as int, p2, r2 as int).0,
        r.1 == circle_circle_contact_spec(p1, r1 as int, p2, r2 as int).1,
        0 <= r.1 <= 2 * SHAPE_BOUND,
        mag_sq(r.0) <= SCALE * SCALE,
{
    let dx = p2.x - p1.x;
    let dy = p2.y - p1.y;
    if dx == 0 && dy == 0 {
        proof {
            lemma_square_of_negation(SCALE as int);
        }
        (Vec2I { x: SCALE, y: 0 }, r1 + r2)
    } else {
        proof {
            lemma_square_bound((r1 + r2) as int, 2 * SHAPE_BOUND as int);
        }
        let (n, m) = normalize_offset(dx, dy);
        proof {
            lemma_abs_lt_of_sq(m - 1, (r1 + r2) as int);
        }
        (n, r1 + r2 - m)
    }
}

/// Contact normal (from the circle toward the rectangle) and depth for a
/// circle overlapping a rectangle.
fn circle_rect_contact(pc: Vec2I, r: i64, pr: Vec2I, hx: i64, hy: i64) -> (res: (Vec2I, i64))
    requires
        in_range(pc),
        in_range(pr),
        0 < r <= SHAPE_BOUND,
        0 < hx <= SHAPE_BOUND,
        0 < hy <= SHAPE_BOUND,
        circle_rect_overlap_spec(pc, r as int, pr, hx as int, hy as int),
    ensures
        res.0 == circle_rect_contact_spec(pc, r as int, pr, hx as int, hy as int).0,
        res.1 == circle_rect_contact_spec(pc, r as int, pr, hx as int, hy as int).1,
        0 <= res.1 <= 2 * SHAPE_BOUND,
        mag_sq(res.0) <= SCALE * SCALE,
{
    let cx = clamp_i64(pc.x, pr.x - hx, pr.x + hx);
    let cy = clamp_i64(pc.y, pr.y - hy, pr.y + hy);
    let dx = cx - pc.x;
    let dy = cy - pc.y;
    if dx == 0 && dy == 0 {
        let adx = if pc.x >= pr.x { pc.x - pr.x } else { pr.x - pc.x };
        let ady = if pc.y >= pr.y { pc.y - pr.y } else { pr.y - pc.y };
        let ox = hx - adx;
        let oy = hy - ady;
        proof {
            lemma_square_of_negation(SCALE as int);
        }
        if ox <= oy {
            let sx: i64 = if pr.x >= pc.x { SCALE } else { -SCALE };
            (Vec2I { x: sx, y: 0 }, r + ox)
        } else {
            let sy: i64 = if pr.y >= pc.y { SCALE } else { -SCALE };
            (Vec2I { x: 0, y: sy }, r + oy)
        }
    } else {
        proof {
            assert((dx as int) * (dx as int) == (-(dx as int)) * (-(dx as int)))
                by (nonlinear_arith);
            assert((dy as int) * (dy as int) == (-(dy as int)) * (-(dy as int)))
                by (nonlinear_arith);
            lemma_square_bound(r as int, SHAPE_BOUND as int);
        }
        let (n, m) = normalize_offset(dx, dy);
        proof {
            lemma_abs_lt_of_sq(m - 1, r as int);
        }
        (n, r - m)
    }
}

} // verus!
