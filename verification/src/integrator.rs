//! The per-frame physics step: advance positions by velocities over the
//! elapsed time, resolve overlapping pairs with combined material
//! coefficients, and enforce the max-speed cap.

use vstd::prelude::*;
use crate::{COORD_BOUND, SCALE};
use crate::body::{body_ok, frozen, Body, MotionKind, World, world_ok, SHAPE_BOUND};
use crate::clamp::{ceil_sqrt_spec, clamp_speed};
use crate::controller::{MAX_FRAME_MILLIS, MILLIS_PER_SECOND};
use crate::geometry::{aabb_overlap_test, bodies_overlap, clamp_i64, clamped, compute_contact,
    contact_normal_depth, flipped, lemma_broad_phase_sound, Contact};
use crate::material::{coeff_ok, combined};
use crate::num::{lemma_abs_product2, lemma_trunc_div_abs_bound, lemma_trunc_div_sign,
    mul_div, trunc_div};
use crate::vec2::{in_range, mag_sq, Vec2I};

verus! {

/// A coordinate saturated into the simulated range.
pub open spec fn sat_coord(p: int) -> int {
    clamped(p, -COORD_BOUND as int, COORD_BOUND as int)
}

/// A position advanced by a velocity over `dt` milliseconds, saturating at
/// the edge of the representable range.
pub open spec fn advanced_vec(p: Vec2I, v: Vec2I, dt: int) -> Vec2I {
    Vec2I {
        x: sat_coord(p.x + trunc_div(v.x * dt, MILLIS_PER_SECOND as int)) as i64,
        y: sat_coord(p.y + trunc_div(v.y * dt, MILLIS_PER_SECOND as int)) as i64,
    }
}

/// A velocity with gravity applied over `dt` milliseconds.
pub open spec fn accelerated_vec(v: Vec2I, g: Vec2I, dt: int) -> Vec2I {
    Vec2I {
        x: sat_coord(v.x + trunc_div(g.x * dt, MILLIS_PER_SECOND as int)) as i64,
        y: sat_coord(v.y + trunc_div(g.y * dt, MILLIS_PER_SECOND as int)) as i64,
    }
}

/// One body after integration: static bodies are untouched; dynamic bodies
/// first take gravity into their velocity; every moving body's position then
/// follows its velocity over the elapsed time.
pub open spec fn integrated_body(b: Body, g: Vec2I, dt: int) -> Body {
    if b.kind == MotionKind::Static {
        b
    } else {
        let v = if b.kind == MotionKind::Dynamic {
            accelerated_vec(b.velocity, g, dt)
        } else {
            b.velocity
        };
        Body { velocity: v, position: advanced_vec(b.position, v, dt), ..b }
    }
}

/// Advance one body over `dt_ms` milliseconds under gravity `g`.
pub fn integrate_body(b: &Body, g: Vec2I, dt_ms: i64) -> (r: Body)
    requires
        body_ok(*b),
        in_range(g),
        0 <= dt_ms <= MAX_FRAME_MILLIS,
    ensures
        r == integrated_body(*b, g, dt_ms as int),
        body_ok(r),
        b.kind == MotionKind::Static ==> r == *b,
        frozen(*b) ==> r == *b,
{
    if matches!(b.kind, MotionKind::Static) {
        *b
    } else {
        let v = if matches!(b.kind, MotionKind::Dynamic) {
            shift_vec(b.velocity, g, dt_ms)
        } else {
            b.velocity
        };
        let p = shift_vec(b.position, v, dt_ms);
        Body { velocity: v, position: p, ..*b }
    }
}

/// `base + delta * dt / 1000` componentwise, saturated into range: the one
/// integration step shared by position and velocity updates.
fn shift_vec(base: Vec2I, delta: Vec2I, dt_ms: i64) -> (r: Vec2I)
    requires
        in_range(base),
        in_range(delta),
        0 <= dt_ms <= MAX_FRAME_MILLIS,
    ensures
        r == advanced_vec(base, delta, dt_ms as int),
        r == accelerated_vec(base, delta, dt_ms as int),
        in_range(r),
        delta == Vec2I::spec_zero() ==> r == base,
{
    proof {
        lemma_abs_product2(
            delta.x as int,
            dt_ms as int,
            COORD_BOUND as int,
            MAX_FRAME_MILLIS as int,
        );
        lemma_abs_product2(
            delta.y as int,
            dt_ms as int,
            COORD_BOUND as int,
            MAX_FRAME_MILLIS as int,
        );
        lemma_trunc_div_abs_bound(
            delta.x as int * dt_ms as int,
            MILLIS_PER_SECOND as int,
            10_000_000_000,
        );
        lemma_trunc_div_abs_bound(
            delta.y as int * dt_ms as int,
            MILLIS_PER_SECOND as int,
            10_000_000_000,
        );
    }
    let sx = mul_div(delta.x, dt_ms, MILLIS_PER_SECOND);
    let sy = mul_div(delta.y, dt_ms, MILLIS_PER_SECOND);
    Vec2I {
        x: clamp_i64(base.x + sx, -COORD_BOUND, COORD_BOUND),
        y: clamp_i64(base.y + sy, -COORD_BOUND, COORD_BOUND),
    }
}

/// The fixed-point dot product of a vector with a near-unit normal.
pub open spec fn dot_scaled(v: Vec2I, n: Vec2I) -> int {
    trunc_div(v.x * n.x + v.y * n.y, SCALE as int)
}

/// A velocity after impulse response against a contact of normal `n`
/// (pointing toward the other body), combined restitution `e` and combined
/// friction `f`: if the velocity runs into the contact, its normal component
/// is reflected and scaled by `e` and its tangential component is damped by
/// `f`; a velocity already separating is left alone.
pub open spec fn responded_velocity(v: Vec2I, n: Vec2I, e: int, f: int) -> Vec2I {
    let vn = dot_scaled(v, n);
    if vn <= 0 {
        v
    } else {
        let remove = vn + trunc_div(e * vn, SCALE as int);
        let v1 = Vec2I {
            x: sat_coord(v.x - trunc_div(n.x * remove, SCALE as int)) as i64,
            y: sat_coord(v.y - trunc_div(n.y * remove, SCALE as int)) as i64,
        };
        let t = Vec2I { x: (-n.y) as i64, y: n.x };
        let vt = dot_scaled(v1, t);
        let damp = trunc_div(f * vt, SCALE as int);
        Vec2I {
            x: sat_coord(v1.x - trunc_div(t.x * damp, SCALE as int)) as i64,
            y: sat_coord(v1.y - trunc_div(t.y * damp, SCALE as int)) as i64,
        }
    }
}

/// The fixed-point dot product with a near-unit normal, exactly.
fn dot_with_normal(v: Vec2I, n: Vec2I) -> (r: i64)
    requires
        in_range(v),
        -SCALE <= n.x <= SCALE,
        -SCALE <= n.y <= SCALE,
    ensures
        r == dot_scaled(v, n),
        -2_000_000_000 <= r <= 2_000_000_000,
{
    proof {
        lemma_abs_product2(v.x as int, n.x as int, COORD_BOUND as int, SCALE as int);
        lemma_abs_product2(v.y as int, n.y as int, COORD_BOUND as int, SCALE as int);
        lemma_trunc_div_abs_bound(
            v.x as int * n.x as int + v.y as int * n.y as int,
            SCALE as int,
            2_000_000_000,
        );
    }
    let d = v.x * n.x + v.y * n.y;
    let q = mul_div(d, 1, SCALE);
    proof {
        assert(d as int * 1 == d as int);
    }
    q
}

/// Impulse response of one body's velocity against a contact normal.
pub fn respond_velocity(v: Vec2I, n: Vec2I, e: i64, f: i64) -> (r: Vec2I)
    requires
        in_range(v),
        mag_sq(n) <= SCALE * SCALE,
        coeff_ok(e),
        coeff_ok(f),
    ensures
        r == responded_velocity(v, n, e as int, f as int),
        in_range(r),
        dot_scaled(v, n) <= 0 ==> r == v,
{
    proof {
        crate::clamp::lemma_clamped_in_range(n.x as int, n.y as int, SCALE as int);
    }
    let vn = dot_with_normal(v, n);
    if vn <= 0 {
        v
    } else {
        proof {
            lemma_abs_product2(e as int, vn as int, SCALE as int, 2_000_000_000);
            lemma_trunc_div_abs_bound(e as int * vn as int, SCALE as int, 2_000_000_000);
            lemma_trunc_div_sign(e as int * vn as int, SCALE as int);
        }
        let er = mul_div(e, vn, SCALE);
        let remove = vn + er;
        proof {
            lemma_abs_product2(n.x as int, remove as int, SCALE as int, 4_000_000_000);
            lemma_abs_product2(n.y as int, remove as int, SCALE as int, 4_000_000_000);
            lemma_trunc_div_abs_bound(n.x as int * remove as int, SCALE as int, 4_000_000_000);
            lemma_trunc_div_abs_bound(n.y as int * remove as int, SCALE as int, 4_000_000_000);
        }
        let rx = mul_div(n.x, remove, SCALE);
        let ry = mul_div(n.y, remove, SCALE);
        let v1 = Vec2I {
            x: clamp_i64(v.x - rx, -COORD_BOUND, COORD_BOUND),
            y: clamp_i64(v.y - ry, -COORD_BOUND, COORD_BOUND),
        };
        let t = Vec2I { x: -n.y, y: n.x };
        let vt = dot_with_normal(v1, t);
        proof {
            lemma_abs_product2(f as int, vt as int, SCALE as int, 2_000_000_000);
            lemma_trunc_div_abs_bound(f as int * vt as int, SCALE as int, 2_000_000_000);
        }
        let damp = mul_div(f, vt, SCALE);
        proof {
            lemma_abs_product2(t.x as int, damp as int, SCALE as int, 2_000_000_000);
            lemma_abs_product2(t.y as int, damp as int, SCALE as int, 2_000_000_000);
            lemma_trunc_div_abs_bound(t.x as int * damp as int, SCALE as int, 2_000_000_000);
            lemma_trunc_div_abs_bound(t.y as int * damp as int, SCALE as int, 2_000_000_000);
        }
        let dx = mul_div(t.x, damp, SCALE);
        let dy = mul_div(t.y, damp, SCALE);
        Vec2I {
            x: clamp_i64(v1.x - dx, -COORD_BOUND, COORD_BOUND),
            y: clamp_i64(v1.y - dy, -COORD_BOUND, COORD_BOUND),
        }
    }
}

/// A position pushed along a normal by a penetration depth.
pub open spec fn pushed_pos(p: Vec2I, n: Vec2I, depth: int) -> Vec2I {
    Vec2I {
        x: sat_coord(p.x + trunc_div(n.x * depth, SCALE as int)) as i64,
        y: sat_coord(p.y + trunc_div(n.y * depth, SCALE as int)) as i64,
    }
}

/// Push a position along a normal by a depth, exactly.
fn push_position(p: Vec2I, n: Vec2I, depth: i64) -> (r: Vec2I)
    requires
        in_range(p),
        mag_sq(n) <= SCALE * SCALE,
        0 <= depth <= 2 * SHAPE_BOUND,
    ensures
        r == pushed_pos(p, n, depth as int),
        in_range(r),
{
    proof {
        crate::clamp::lemma_clamped_in_range(n.x as int, n.y as int, SCALE as int);
        lemma_abs_product2(n.x as int, depth as int, SCALE as int, 2 * SHAPE_BOUND as int);
        lemma_abs_product2(n.y as int, depth as int, SCALE as int, 2 * SHAPE_BOUND as int);
        lemma_trunc_div_abs_bound(n.x as int * depth as int, SCALE as int, 2 * SHAPE_BOUND as int);
        lemma_trunc_div_abs_bound(n.y as int * depth as int, SCALE as int, 2 * SHAPE_BOUND as int);
    }
    let px = mul_div(n.x, depth, SCALE);
    let py = mul_div(n.y, depth, SCALE);
    Vec2I {
        x: clamp_i64(p.x + px, -COORD_BOUND, COORD_BOUND),
        y: clamp_i64(p.y + py, -COORD_BOUND, COORD_BOUND),
    }
}

/// How much of a penetration depth one body of the pair absorbs: a dynamic
/// body takes it all against a non-dynamic one, and half against another
/// dynamic body. Non-dynamic bodies are never moved to resolve.
pub open spec fn correction_share(mine: MotionKind, other: MotionKind, depth: int) -> int {
    if mine != MotionKind::Dynamic {
        0
    } else if other == MotionKind::Dynamic {
        trunc_div(depth, 2)
    } else {
        depth
    }
}

/// The pair of bodies after resolving one contact: dynamic bodies are pushed
/// out along the normal and take impulse response; static and kinematic
/// bodies are left exactly as they were.
pub open spec fn resolved_pair(a: Body, b: Body, c: Contact) -> (Body, Body) {
    let ra = if a.kind == MotionKind::Dynamic {
        Body {
            position: pushed_pos(
                a.position,
                flipped(c.normal),
                correction_share(a.kind, b.kind, c.depth as int),
            ),
            velocity: responded_velocity(a.velocity, c.normal, c.restitution as int, c.friction as int),
            ..a
        }
    } else {
        a
    };
    let rb = if b.kind == MotionKind::Dynamic {
        Body {
            position: pushed_pos(
                b.position,
                c.normal,
                correction_share(b.kind, a.kind, c.depth as int),
            ),
            velocity: responded_velocity(
                b.velocity,
                flipped(c.normal),
                c.restitution as int,
                c.friction as int,
            ),
            ..b
        }
    } else {
        b
    };
    (ra, rb)
}

/// Resolve one contact between two bodies.
pub fn resolve_contact(a: &Body, b: &Body, c: &Contact) -> (r: (Body, Body))
    requires
        body_ok(*a),
        body_ok(*b),
        mag_sq(c.normal) <= SCALE * SCALE,
        0 <= c.depth <= 2 * SHAPE_BOUND,
        coeff_ok(c.restitution),
        coeff_ok(c.friction),
    ensures
        r.0 == resolved_pair(*a, *b, *c).0,
        r.1 == resolved_pair(*a, *b, *c).1,
        body_ok(r.0),
        body_ok(r.1),
        a.kind != MotionKind::Dynamic ==> r.0 == *a,
        b.kind != MotionKind::Dynamic ==> r.1 == *b,
        r.0.kind == a.kind && r.0.shape == a.shape && r.0.material == a.material && r.0.max_speed
            == a.max_speed,
        r.1.kind == b.kind && r.1.shape == b.shape && r.1.material == b.material && r.1.max_speed
            == b.max_speed,
{
    proof {
        crate::clamp::lemma_clamped_in_range(
            c.normal.x as int,
            c.normal.y as int,
            SCALE as int,
        );
        assert((-(c.normal.x as int)) * (-(c.normal.x as int)) == (c.normal.x as int) * (
        c.normal.x as int)) by (nonlinear_arith);
        assert((-(c.normal.y as int)) * (-(c.normal.y as int)) == (c.normal.y as int) * (
        c.normal.y as int)) by (nonlinear_arith);
        lemma_trunc_div_sign(c.depth as int, 2);
        lemma_trunc_div_abs_bound(c.depth as int, 2, 2 * SHAPE_BOUND as int);
    }
    let flipped_n = Vec2I { x: -c.normal.x, y: -c.normal.y };
    let half_depth = mul_div(c.depth, 1, 2);
    proof {
        assert(c.depth as int * 1 == c.depth as int);
    }
    let ra = if matches!(a.kind, MotionKind::Dynamic) {
        let share = if matches!(b.kind, MotionKind::Dynamic) {
            half_depth
        } else {
            c.depth
        };
        Body {
            position: push_position(a.position, flipped_n, share),
            velocity: respond_velocity(a.velocity, c.normal, c.restitution, c.friction),
            ..*a
        }
    } else {
        *a
    };
    let rb = if matches!(b.kind, MotionKind::Dynamic) {
        let share = if matches!(a.kind, MotionKind::Dynamic) {
            half_depth
        } else {
            c.depth
        };
        Body {
            position: push_position(b.position, c.normal, share),
            velocity: respond_velocity(b.velocity, flipped_n, c.restitution, c.friction),
            ..*b
        }
    } else {
        *b
    };
    (ra, rb)
}

/// The step never changes what a body is, only where it is and how fast: its
/// kind, shape, material and cap are untouched.
pub open spec fn same_skeleton(x: Body, y: Body) -> bool {
    &&& x.kind == y.kind
    &&& x.shape == y.shape
    &&& x.material == y.material
    &&& x.max_speed == y.max_speed
}

/// A body after the max-speed clamp phase: the velocity of a capped body is
/// brought under its cap, everything else is untouched.
pub open spec fn clamped_body(b: Body) -> Body {
    match b.max_speed {
        None => b,
        Some(cap) => Body { velocity: speed_clamped(b.velocity, cap as int), ..b },
    }
}

/// A velocity after the max-speed clamp: unchanged when under the cap, else
/// rescaled by `cap` over the rounded-up magnitude.
pub open spec fn speed_clamped(v: Vec2I, cap: int) -> Vec2I {
    if mag_sq(v) <= cap * cap {
        v
    } else {
        let m = ceil_sqrt_spec(mag_sq(v));
        Vec2I { x: trunc_div(v.x * cap, m) as i64, y: trunc_div(v.y * cap, m) as i64 }
    }
}

/// The contact two bodies are in when they overlap: the geometric normal
/// and depth, and the pair's combined material coefficients.
pub open spec fn contact_of(a: Body, b: Body) -> Contact {
    Contact {
        normal: contact_normal_depth(a, b).0,
        depth: contact_normal_depth(a, b).1 as i64,
        restitution: combined(
            a.material.restitution as int,
            a.material.restitution_rule,
            b.material.restitution as int,
            b.material.restitution_rule,
        ) as i64,
        friction: combined(
            a.material.friction as int,
            a.material.friction_rule,
            b.material.friction as int,
            b.material.friction_rule,
        ) as i64,
    }
}

/// One pair of the narrow phase: where bodies `i` and `j` overlap, both are
/// replaced by their resolved selves; where they do not, nothing changes.
pub open spec fn pair_resolved(bs: Seq<Body>, i: int, j: int) -> Seq<Body> {
    if 0 <= i < bs.len() && 0 <= j < bs.len() && bodies_overlap(bs[i], bs[j]) {
        let c = contact_of(bs[i], bs[j]);
        let r = resolved_pair(bs[i], bs[j], c);
        bs.update(i, r.0).update(j, r.1)
    } else {
        bs
    }
}

/// The pairs `(i, j), (i, j+1), ..., (i, n-1)` resolved in order, each
/// against the state the pairs before it left behind.
pub open spec fn row_resolved(bs: Seq<Body>, i: int, j: int) -> Seq<Body>
    decreases bs.len() - j,
    via row_resolved_decreases
{
    if j >= bs.len() {
        bs
    } else {
        row_resolved(pair_resolved(bs, i, j), i, j + 1)
    }
}

#[via_fn]
proof fn row_resolved_decreases(bs: Seq<Body>, i: int, j: int) {
    if j < bs.len() {
        assert(pair_resolved(bs, i, j).len() == bs.len());
    }
}

/// All pairs `(i, j)` with `i <= i' < j < n` resolved in index order: the
/// whole narrow phase of one frame, pair by pair, with no cross-pair
/// iteration.
pub open spec fn pairs_resolved(bs: Seq<Body>, i: int) -> Seq<Body>
    decreases bs.len() - i,
    via pairs_resolved_decreases
{
    if i >= bs.len() {
        bs
    } else {
        pairs_resolved(row_resolved(bs, i, i + 1), i + 1)
    }
}

#[via_fn]
proof fn pairs_resolved_decreases(bs: Seq<Body>, i: int) {
    if i < bs.len() {
        lemma_row_resolved_len(bs, i, i + 1);
    }
}

/// Resolving a row never changes how many bodies there are.
proof fn lemma_row_resolved_len(bs: Seq<Body>, i: int, j: int)
    ensures
        row_resolved(bs, i, j).len() == bs.len(),
    decreases bs.len() - j,
{
    if j < bs.len() {
        assert(pair_resolved(bs, i, j).len() == bs.len());
        lemma_row_resolved_len(pair_resolved(bs, i, j), i, j + 1);
    }
}

/// A row of the narrow phase changes nothing when no two bodies overlap.
proof fn lemma_row_no_overlap(bs: Seq<Body>, i: int, j: int)
    requires
        i < j,
        forall|l: int, m: int|
            0 <= l < bs.len() && 0 <= m < bs.len() && l != m ==> !(#[trigger] bodies_overlap(
                bs[l],
                bs[m],
            )),
    ensures
        row_resolved(bs, i, j) == bs,
    decreases bs.len() - j,
{
    if j < bs.len() {
        assert(pair_resolved(bs, i, j) == bs);
        lemma_row_no_overlap(bs, i, j + 1);
    }
}

/// The whole narrow phase changes nothing when no two bodies overlap.
proof fn lemma_pairs_no_overlap(bs: Seq<Body>, i: int)
    requires
        forall|l: int, m: int|
            0 <= l < bs.len() && 0 <= m < bs.len() && l != m ==> !(#[trigger] bodies_overlap(
                bs[l],
                bs[m],
            )),
    ensures
        pairs_resolved(bs, i) == bs,
    decreases bs.len() - i,
{
    if i < bs.len() {
        lemma_row_no_overlap(bs, i, i + 1);
        lemma_pairs_no_overlap(bs, i + 1);
    }
}

/// A tick free of contacts only integrates and clamps: when no two bodies of
/// the integrated world overlap, every body of the stepped world is exactly
/// its old self integrated over the elapsed time, then capped.
pub proof fn lemma_contact_free_tick(bs: Seq<Body>, g: Vec2I, dt: int)
    requires
        forall|l: int, m: int|
            0 <= l < bs.len() && 0 <= m < bs.len() && l != m ==> !(#[trigger] bodies_overlap(
                integrated_body(bs[l], g, dt),
                integrated_body(bs[m], g, dt),
            )),
    ensures
        world_stepped(bs, g, dt).len() == bs.len(),
        forall|k: int|
            0 <= k < bs.len() ==> world_stepped(bs, g, dt)[k] == clamped_body(
                #[trigger] integrated_body(bs[k], g, dt),
            ),
{
    let ia = integrated_all(bs, g, dt);
    assert forall|l: int, m: int|
        0 <= l < ia.len() && 0 <= m < ia.len() && l != m implies !(#[trigger] bodies_overlap(
        ia[l],
        ia[m],
    )) by {
        assert(ia[l] == integrated_body(bs[l], g, dt));
        assert(ia[m] == integrated_body(bs[m], g, dt));
    }
    lemma_pairs_no_overlap(ia, 0);
}

/// Under zero gravity, integration leaves every velocity exactly as it was,
/// and every moving body's position advances by exactly its velocity over
/// the elapsed time — the frame-time-scaled step of a contact-free tick.
pub proof fn lemma_zero_gravity_keeps_velocity(b: Body, dt: int)
    requires
        body_ok(b),
    ensures
        integrated_body(b, Vec2I::spec_zero(), dt).velocity == b.velocity,
        b.kind != MotionKind::Static ==> integrated_body(b, Vec2I::spec_zero(), dt).position
            == advanced_vec(b.position, b.velocity, dt),
{
    if b.kind == MotionKind::Dynamic {
        assert(accelerated_vec(b.velocity, Vec2I::spec_zero(), dt) == b.velocity);
    }
}

/// Every body of the world after integrating over `dt` milliseconds.
pub open spec fn integrated_all(bs: Seq<Body>, g: Vec2I, dt: int) -> Seq<Body> {
    Seq::new(bs.len(), |k: int| integrated_body(bs[k], g, dt))
}

/// The whole frame, as one function of the world's bodies: integrate every
/// body, resolve every overlapping pair in index order, then cap every body
/// that declares a max speed.
pub open spec fn world_stepped(bs: Seq<Body>, g: Vec2I, dt: int) -> Seq<Body> {
    let resolved = pairs_resolved(integrated_all(bs, g, dt), 0);
    Seq::new(resolved.len(), |k: int| clamped_body(resolved[k]))
}

/// One step leaves every body the integrator may not move exactly in place:
/// static bodies, and kinematic bodies without a velocity to follow.
pub open spec fn preserves_frozen(before: Seq<Body>, after: Seq<Body>) -> bool {
    &&& after.len() == before.len()
    &&& forall|i: int|
        0 <= i < before.len() && frozen(#[trigger] before[i]) ==> after[i] == before[i]
}

/// Advance the whole world by one frame: integrate every moving body over
/// the elapsed milliseconds, resolve every overlapping pair independently
/// with the pair's combined material coefficients, then cap every body that
/// declares a max speed. Static bodies come out exactly as they went in;
/// kinematic bodies keep their velocity and follow it exactly; nobody's
/// kind, shape, material or cap changes; and every capped body ends the
/// frame at or under its cap.
pub fn step_world(w: &mut World, dt_ms: i64)
    requires
        world_ok(*old(w)),
        0 <= dt_ms <= MAX_FRAME_MILLIS,
    ensures
        world_ok(*final(w)),
        final(w).config == old(w).config,
        final(w).bodies@.len() == old(w).bodies@.len(),
        final(w).bodies@ == world_stepped(
            old(w).bodies@,
            old(w).config.gravity,
            dt_ms as int,
        ),
        forall|k: int|
            0 <= k < old(w).bodies@.len() ==> same_skeleton(
                #[trigger] final(w).bodies@[k],
                old(w).bodies@[k],
            ),
        forall|k: int|
            0 <= k < old(w).bodies@.len() && old(w).bodies@[k].kind == MotionKind::Static
                ==> final(w).bodies@[k] == #[trigger] old(w).bodies@[k],
        forall|k: int|
            0 <= k < old(w).bodies@.len() && old(w).bodies@[k].kind == MotionKind::Kinematic
                ==> final(w).bodies@[k].position == advanced_vec(
                (#[trigger] old(w).bodies@[k]).position,
                old(w).bodies@[k].velocity,
                dt_ms as int,
            ),
        forall|k: int|
            0 <= k < old(w).bodies@.len() && old(w).bodies@[k].kind == MotionKind::Kinematic
                && old(w).bodies@[k].max_speed is None ==> final(w).bodies@[k].velocity == (
            #[trigger] old(w).bodies@[k]).velocity,
        preserves_frozen(old(w).bodies@, final(w).bodies@),
        forall|k: int|
            0 <= k < old(w).bodies@.len() ==> match (#[trigger] old(w).bodies@[k]).max_speed {
                Some(cap) => mag_sq(final(w).bodies@[k].velocity) <= cap * cap,
                None => true,
            },
{
    let g = w.config.gravity;
    let ghost g0 = w.bodies@;
    let n = w.bodies.len();
    let mut i: usize = 0;
    while i < n
        invariant
            n == w.bodies@.len(),
            n == g0.len(),
            g0 == old(w).bodies@,
            w.config == old(w).config,
            0 <= i <= n,
            in_range(g),
            0 <= dt_ms <= MAX_FRAME_MILLIS,
            forall|k: int| 0 <= k < n ==> body_ok(#[trigger] g0[k]),
            forall|k: int|
                0 <= k < i ==> w.bodies@[k] == integrated_body(#[trigger] g0[k], g, dt_ms as int),
            forall|k: int| i <= k < n ==> w.bodies@[k] == #[trigger] g0[k],
            forall|k: int| 0 <= k < n ==> body_ok(#[trigger] w.bodies@[k]),
        decreases n - i,
    {
        let b = w.bodies[i];
        let nb = integrate_body(&b, g, dt_ms);
        w.bodies[i] = nb;
        i = i + 1;
    }
    let ghost g1 = w.bodies@;
    proof {
        assert(integrated_all(g0, g, dt_ms as int) =~= g1);
    }
    let mut i: usize = 0;
    while i < n
        invariant
            n == w.bodies@.len(),
            n == g1.len(),
            n == g0.len(),
            g0 == old(w).bodies@,
            w.config == old(w).config,
            in_range(g),
            0 <= dt_ms <= MAX_FRAME_MILLIS,
            0 <= i <= n,
            forall|k: int| 0 <= k < n ==> body_ok(#[trigger] g0[k]),
            forall|k: int|
                0 <= k < n ==> g1[k] == integrated_body(#[trigger] g0[k], g, dt_ms as int),
            forall|k: int| 0 <= k < n ==> body_ok(#[trigger] w.bodies@[k]),
            forall|k: int| 0 <= k < n ==> body_ok(#[trigger] g1[k]),
            forall|k: int|
                0 <= k < n ==> same_skeleton(#[trigger] w.bodies@[k], g1[k]),
            forall|k: int|
                0 <= k < n && (#[trigger] g1[k]).kind != MotionKind::Dynamic ==> w.bodies@[k]
                    == g1[k],
            pairs_resolved(w.bodies@, i as int) == pairs_resolved(g1, 0),
        decreases n - i,
    {
        proof {
            assert(pairs_resolved(w.bodies@, i as int) == pairs_resolved(
                row_resolved(w.bodies@, i as int, i as int + 1),
                i as int + 1,
            ));
        }
        let mut j: usize = i + 1;
        while j < n
            invariant
                n == w.bodies@.len(),
                n == g1.len(),
                n == g0.len(),
                g0 == old(w).bodies@,
                w.config == old(w).config,
                in_range(g),
                0 <= dt_ms <= MAX_FRAME_MILLIS,
                0 <= i < n,
                i < j <= n,
                forall|k: int| 0 <= k < n ==> body_ok(#[trigger] g0[k]),
                forall|k: int|
                    0 <= k < n ==> g1[k] == integrated_body(#[trigger] g0[k], g, dt_ms as int),
                forall|k: int| 0 <= k < n ==> body_ok(#[trigger] w.bodies@[k]),
                forall|k: int| 0 <= k < n ==> body_ok(#[trigger] g1[k]),
                forall|k: int|
                    0 <= k < n ==> same_skeleton(#[trigger] w.bodies@[k], g1[k]),
                forall|k: int|
                    0 <= k < n && (#[trigger] g1[k]).kind != MotionKind::Dynamic ==> w.bodies@[k]
                        == g1[k],
                pairs_resolved(row_resolved(w.bodies@, i as int, j as int), i as int + 1)
                    == pairs_resolved(g1, 0),
            decreases n - j,
        {
            let ghost prev = w.bodies@;
            let bi = w.bodies[i];
            let bj = w.bodies[j];
            // Broad phase first: a pair whose bounding boxes are apart
            // cannot be in contact, so the exact test is skipped.
            if aabb_overlap_test(&bi, &bj) {
                match compute_contact(&bi, &bj) {
                    Some(c) => {
                        let (ri, rj) = resolve_contact(&bi, &bj, &c);
                        proof {
                            assert(c == contact_of(bi, bj));
                        }
                        w.bodies[i] = ri;
                        w.bodies[j] = rj;
                        proof {
                            assert(w.bodies@ == pair_resolved(prev, i as int, j as int));
                        }
                    },
                    None => {
                        proof {
                            assert(w.bodies@ == pair_resolved(prev, i as int, j as int));
                        }
                    },
                }
            } else {
                proof {
                    if bodies_overlap(bi, bj) {
                        lemma_broad_phase_sound(bi, bj);
                    }
                    assert(w.bodies@ == pair_resolved(prev, i as int, j as int));
                }
            }
            proof {
                assert(row_resolved(prev, i as int, j as int) == row_resolved(
                    w.bodies@,
                    i as int,
                    j as int + 1,
                ));
            }
            j = j + 1;
        }
        proof {
            assert(row_resolved(w.bodies@, i as int, n as int) == w.bodies@);
        }
        i = i + 1;
    }
    let ghost g2 = w.bodies@;
    proof {
        assert(pairs_resolved(g2, n as int) == g2);
        assert(g2 == pairs_resolved(g1, 0));
    }
    let mut i: usize = 0;
    while i < n
        invariant
            n == w.bodies@.len(),
            n == g2.len(),
            n == g1.len(),
            n == g0.len(),
            g0 == old(w).bodies@,
            w.config == old(w).config,
            in_range(g),
            0 <= dt_ms <= MAX_FRAME_MILLIS,
            0 <= i <= n,
            forall|k: int| 0 <= k < n ==> body_ok(#[trigger] g0[k]),
            forall|k: int|
                0 <= k < n ==> g1[k] == integrated_body(#[trigger] g0[k], g, dt_ms as int),
            forall|k: int| 0 <= k < n ==> body_ok(#[trigger] g1[k]),
            forall|k: int|
                0 <= k < n ==> same_skeleton(#[trigger] g2[k], g1[k]),
            forall|k: int|
                0 <= k < n && (#[trigger] g1[k]).kind != MotionKind::Dynamic ==> g2[k] == g1[k],
            forall|k: int| 0 <= k < n ==> body_ok(#[trigger] g2[k]),
            forall|k: int|
                0 <= k < i ==> w.bodies@[k] == clamped_body(#[trigger] g2[k]),
            forall|k: int|
                0 <= k < i ==> match (#[trigger] g2[k]).max_speed {
                    Some(cap) => mag_sq(w.bodies@[k].velocity) <= cap * cap,
                    None => true,
                },
            forall|k: int| i <= k < n ==> w.bodies@[k] == #[trigger] g2[k],
            forall|k: int| 0 <= k < n ==> body_ok(#[trigger] w.bodies@[k]),
        decreases n - i,
    {
        let b = w.bodies[i];
        match b.max_speed {
            Some(cap) => {
                let cv = clamp_speed(b.velocity, cap);
                proof {
                    assert(cv == speed_clamped(b.velocity, cap as int));
                }
                let nb = Body { velocity: cv, ..b };
                w.bodies[i] = nb;
            },
            None => {},
        }
        i = i + 1;
    }
    proof {
        assert forall|k: int| 0 <= k < n implies same_skeleton(
            #[trigger] w.bodies@[k],
            g0[k],
        ) by {
            assert(g1[k] == integrated_body(g0[k], g, dt_ms as int));
            assert(same_skeleton(g1[k], g0[k]));
            assert(same_skeleton(g2[k], g1[k]));
            assert(w.bodies@[k] == clamped_body(g2[k]));
        }
        assert forall|k: int|
            0 <= k < g0.len() && frozen(#[trigger] g0[k]) implies w.bodies@[k] == g0[k] by {
            assert(g1[k] == integrated_body(g0[k], g, dt_ms as int));
            if g0[k].kind == MotionKind::Kinematic {
                let b = g0[k];
                assert(b.velocity.x == 0 && b.velocity.y == 0);
                assert(b.velocity.x as int * dt_ms as int == 0);
                assert(b.velocity.y as int * dt_ms as int == 0);
                assert(trunc_div(0, MILLIS_PER_SECOND as int) == 0);
                assert(in_range(b.position));
                assert(sat_coord(b.position.x as int) == b.position.x as int);
                assert(sat_coord(b.position.y as int) == b.position.y as int);
                assert(advanced_vec(b.position, b.velocity, dt_ms as int) == b.position);
            }
            assert(g1[k] == g0[k]);
            assert(g2[k] == g1[k]);
            assert(w.bodies@[k] == clamped_body(g2[k]));
            match g2[k].max_speed {
                Some(cap) => {
                    crate::vec2::lemma_square_bound(cap as int, COORD_BOUND as int);
                    let vv = g2[k].velocity;
                    assert(vv.x == 0 && vv.y == 0);
                    assert(vv.x as int * vv.x as int + vv.y as int * vv.y as int == 0)
                        by (nonlinear_arith)
                        requires
                            vv.x == 0,
                            vv.y == 0,
                    ;
                    assert(mag_sq(vv) == 0);
                },
                None => {},
            }
            assert(clamped_body(g2[k]) == g2[k]);
        }
        assert forall|k: int|
            0 <= k < g0.len() && g0[k].kind == MotionKind::Static implies w.bodies@[k] == g0[
            k] by {
            assert(frozen(g0[k]));
        }
        assert forall|k: int|
            0 <= k < g0.len() && g0[k].kind == MotionKind::Kinematic implies w.bodies@[
        k].position == advanced_vec(g0[k].position, g0[k].velocity, dt_ms as int) by {
            assert(g1[k] == integrated_body(g0[k], g, dt_ms as int));
            assert(g2[k] == g1[k]);
            assert(w.bodies@[k] == clamped_body(g2[k]));
        }
        assert forall|k: int|
            0 <= k < g0.len() && g0[k].kind == MotionKind::Kinematic && g0[k].max_speed is None
            implies w.bodies@[k].velocity == (#[trigger] g0[k]).velocity by {
            assert(g1[k] == integrated_body(g0[k], g, dt_ms as int));
            assert(g2[k] == g1[k]);
            assert(w.bodies@[k] == clamped_body(g2[k]));
        }
        assert forall|k: int| 0 <= k < g0.len() implies match (#[trigger] g0[k]).max_speed {
            Some(cap) => mag_sq(w.bodies@[k].velocity) <= cap * cap,
            None => true,
        } by {
            assert(g1[k] == integrated_body(g0[k], g, dt_ms as int));
            assert(same_skeleton(g2[k], g1[k]));
            assert(g2[k].max_speed == g0[k].max_speed);
        }
        assert(pairs_resolved(integrated_all(g0, g, dt_ms as int), 0) == g2);
        assert(w.bodies@ =~= world_stepped(g0, g, dt_ms as int));
    }
}

/// Every body the integrator must not move stays put across any number of
/// ticks: if each consecutive pair of states preserves frozen bodies, the
/// last state still holds every body frozen in the first exactly where the
/// first had it.
pub proof fn lemma_frozen_over_ticks(states: Seq<Seq<Body>>)
    requires
        states.len() >= 1,
        forall|t: int|
            0 <= t < states.len() - 1 ==> preserves_frozen(
                #[trigger] states[t],
                states[t + 1],
            ),
    ensures
        forall|k: int|
            0 <= k < states[0].len() && frozen(#[trigger] states[0][k]) ==> states[states.len()
                - 1][k] == states[0][k],
    decreases states.len(),
{
    if states.len() > 1 {
        let rest = states.drop_first();
        assert forall|t: int|
            0 <= t < rest.len() - 1 implies preserves_frozen(
            #[trigger] rest[t],
            rest[t + 1],
        ) by {
            assert(rest[t] == states[t + 1]);
            assert(rest[t + 1] == states[t + 2]);
        }
        lemma_frozen_over_ticks(rest);
        assert forall|k: int|
            0 <= k < states[0].len() && frozen(#[trigger] states[0][k]) implies states[
            states.len() - 1][k] == states[0][k] by {
            assert(preserves_frozen(states[0], states[1]));
            assert(states[1][k] == states[0][k]);
            assert(rest[0] == states[1]);
            assert(frozen(rest[0][k]));
            assert(rest[rest.len() - 1][k] == rest[0][k]);
            assert(rest[rest.len() - 1] == states[states.len() - 1]);
        }
    }
}

} // verus!
