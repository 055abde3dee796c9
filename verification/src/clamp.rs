//! The max-speed clamp: a standing invariant that caps a body's linear speed
//! after every integration step while keeping its direction of travel.

use vstd::prelude::*;
use crate::COORD_BOUND;
use crate::num::{abs_val, lemma_abs_product2, lemma_trunc_div_sign, mul_div, trunc_div};
use crate::vec2::{in_range, lemma_square_bound, mag_sq, Vec2I};

verus! {

/// Largest argument the square root accepts; twice the square of
/// `COORD_BOUND`, so every in-range squared magnitude qualifies.
pub const MAX_SQUARE: i64 = 4_000_000_000_000_000_000;

/// `m` is the integer square root of `n`, rounded up: the least nonnegative
/// integer whose square reaches `n`.
pub open spec fn is_ceil_sqrt(n: int, m: int) -> bool {
    &&& m >= 0
    &&& m * m >= n
    &&& (m > 0 ==> (m - 1) * (m - 1) < n)
}

/// The integer square root of `n`, rounded up.
pub open spec fn ceil_sqrt_spec(n: int) -> int {
    choose|m: int| is_ceil_sqrt(n, m)
}

/// At most one integer satisfies `is_ceil_sqrt` for a given `n`.
pub proof fn lemma_ceil_sqrt_unique(n: int, a: int, b: int) by (nonlinear_arith)
    requires
        is_ceil_sqrt(n, a),
        is_ceil_sqrt(n, b),
    ensures
        a == b,
{
}

/// The integer square root of `n`, rounded up, by bisection.
pub fn ceil_sqrt(n: i64) -> (r: i64)
    requires
        0 <= n <= MAX_SQUARE,
    ensures
        is_ceil_sqrt(n as int, r as int),
        r == ceil_sqrt_spec(n as int),
        0 <= r <= 2_000_000_000,
{
    let r: i64 = if n == 0 {
        0
    } else {
        let mut lo: i64 = 0;
        let mut hi: i64 = 2_000_000_000;
        proof {
            assert((hi as int) * (hi as int) >= n as int) by (nonlinear_arith)
                requires
                    hi == 2_000_000_000i64,
                    n <= MAX_SQUARE,
            ;
        }
        while lo + 1 < hi
            invariant
                0 <= lo < hi <= 2_000_000_000,
                0 < n <= MAX_SQUARE,
                (lo as int) * (lo as int) < n as int,
                (hi as int) * (hi as int) >= n as int,
            decreases hi - lo,
        {
            let mid: i64 = lo + (hi - lo) / 2;
            proof {
                assert(0 <= (mid as int) * (mid as int) <= MAX_SQUARE) by (nonlinear_arith)
                    requires
                        0 <= mid <= 2_000_000_000i64,
                        MAX_SQUARE == 4_000_000_000_000_000_000i64,
                ;
            }
            if mid * mid >= n {
                hi = mid;
            } else {
                lo = mid;
            }
        }
        hi
    };
    proof {
        assert(is_ceil_sqrt(n as int, r as int));
        let m = ceil_sqrt_spec(n as int);
        assert(is_ceil_sqrt(n as int, m)) by {
            assert(exists|k: int| is_ceil_sqrt(n as int, k)) by {
                assert(is_ceil_sqrt(n as int, r as int));
            }
        }
        lemma_ceil_sqrt_unique(n as int, r as int, m);
    }
    r
}

/// A nonnegative value whose square tops another's tops it too.
pub proof fn lemma_sqrt_mono(a: int, b: int) by (nonlinear_arith)
    requires
        a >= 0,
        b >= 0,
        a * a > b * b,
    ensures
        a > b,
{
}

/// Whichever is larger in magnitude is larger squared.
pub proof fn lemma_abs_sq_mono(a: int, b: int) by (nonlinear_arith)
    requires
        abs_val(a) <= abs_val(b),
    ensures
        a * a <= b * b,
{
}

/// A square of a product is the product of the squares.
proof fn lemma_sq_of_product(a: int, b: int) by (nonlinear_arith)
    ensures
        (a * b) * (a * b) == (a * a) * (b * b),
{
}

/// Multiplying an inequality by a nonnegative value keeps it.
proof fn lemma_mul_mono_right(a: int, b: int, c: int) by (nonlinear_arith)
    requires
        a <= b,
        c >= 0,
    ensures
        a * c <= b * c,
{
}

/// Multiplication distributes over addition.
proof fn lemma_distribute(a: int, b: int, c: int) by (nonlinear_arith)
    ensures
        (a + b) * c == a * c + b * c,
        c * (a + b) == c * a + c * b,
        a * c == c * a,
{
}

/// A common positive factor can be cancelled from an inequality.
proof fn lemma_cancel_pos(a: int, b: int, c: int) by (nonlinear_arith)
    requires
        a * c <= b * c,
        c > 0,
    ensures
        a <= b,
{
}

/// Scaling both components by `cap / m` with `m` at least the magnitude
/// cannot leave the squared magnitude above `cap * cap`.
pub proof fn lemma_scaled_sum_sq(qx: int, qy: int, vx: int, vy: int, cap: int, m: int)
    requires
        m > 0,
        cap >= 0,
        abs_val(qx * m) <= abs_val(vx * cap),
        abs_val(qy * m) <= abs_val(vy * cap),
        vx * vx + vy * vy <= m * m,
    ensures
        qx * qx + qy * qy <= cap * cap,
{
    lemma_abs_sq_mono(qx * m, vx * cap);
    lemma_abs_sq_mono(qy * m, vy * cap);
    lemma_sq_of_product(qx, m);
    lemma_sq_of_product(vx, cap);
    lemma_sq_of_product(qy, m);
    lemma_sq_of_product(vy, cap);
    lemma_abs_sq_mono(0, cap);
    lemma_distribute(vx * vx, vy * vy, cap * cap);
    lemma_mul_mono_right(vx * vx + vy * vy, m * m, cap * cap);
    lemma_distribute(qx * qx, qy * qy, m * m);
    lemma_distribute(m * m, 0, cap * cap);
    assert((m * m) * (cap * cap) == (cap * cap) * (m * m));
    assert((qx * qx + qy * qy) * (m * m) <= (cap * cap) * (m * m));
    lemma_pos_square(m);
    lemma_cancel_pos(qx * qx + qy * qy, cap * cap, m * m);
}

/// The square of a positive value is positive.
proof fn lemma_pos_square(m: int) by (nonlinear_arith)
    requires
        m > 0,
    ensures
        m * m > 0,
{
}

/// Truncating division toward zero never enlarges the magnitude of the
/// dividend and lands within one divisor of it.
pub proof fn lemma_trunc_div_mul_props(p: int, m: int) by (nonlinear_arith)
    requires
        m > 0,
    ensures
        abs_val(trunc_div(p, m) * m) <= abs_val(p),
        abs_val(p - trunc_div(p, m) * m) <= m - 1,
{
}

/// The rescaled vector stays within a rounding error of the original ray:
/// the cross product of the two is small against the original's size.
proof fn lemma_cross_small(qx: int, qy: int, vx: int, vy: int, cap: int, m: int) by (nonlinear_arith)
    requires
        m > 0,
        abs_val(vx * cap - qx * m) <= m - 1,
        abs_val(vy * cap - qy * m) <= m - 1,
        abs_val(vx) + abs_val(vy) >= 1,
    ensures
        abs_val(qx * vy - qy * vx) < abs_val(vx) + abs_val(vy),
{
    let sx = vx * cap - qx * m;
    let sy = vy * cap - qy * m;
    assert((qx * vy - qy * vx) * m == sy * vx - sx * vy);
    assert(abs_val(sy * vx - sx * vy) <= (m - 1) * (abs_val(vx) + abs_val(vy)));
}

/// If `v` is no longer than `cap`, it is returned unchanged; otherwise it is
/// rescaled by `cap / ceil_sqrt(|v|^2)`, which brings its length under the
/// cap while keeping its direction up to fixed-point rounding: signs of both
/// components survive and the cross product with the original is small.
pub fn clamp_speed(v: Vec2I, cap: i64) -> (r: Vec2I)
    requires
        in_range(v),
        0 <= cap <= COORD_BOUND,
    ensures
        mag_sq(v) <= cap * cap ==> r == v,
        mag_sq(v) > cap * cap ==> {
            let m = ceil_sqrt_spec(mag_sq(v));
            r.x == trunc_div(v.x * cap, m) && r.y == trunc_div(v.y * cap, m)
        },
        mag_sq(r) <= cap * cap,
        in_range(r),
        (v.x >= 0 ==> r.x >= 0) && (v.x <= 0 ==> r.x <= 0),
        (v.y >= 0 ==> r.y >= 0) && (v.y <= 0 ==> r.y <= 0),
        mag_sq(v) > cap * cap ==> abs_val(r.x * v.y - r.y * v.x) < abs_val(v.x as int)
            + abs_val(v.y as int),
{
    let n = v.magnitude_sq();
    proof {
        lemma_square_bound(cap as int, COORD_BOUND as int);
    }
    if n <= cap * cap {
        v
    } else {
        proof {
            lemma_square_bound(v.x as int, COORD_BOUND as int);
            lemma_square_bound(v.y as int, COORD_BOUND as int);
        }
        let m = ceil_sqrt(n);
        proof {
            lemma_sqrt_mono(m as int, cap as int);
            lemma_abs_product2(v.x as int, cap as int, COORD_BOUND as int, COORD_BOUND as int);
            lemma_abs_product2(v.y as int, cap as int, COORD_BOUND as int, COORD_BOUND as int);
        }
        let rx = mul_div(v.x, cap, m);
        let ry = mul_div(v.y, cap, m);
        proof {
            lemma_trunc_div_mul_props(v.x as int * cap as int, m as int);
            lemma_trunc_div_mul_props(v.y as int * cap as int, m as int);
            lemma_scaled_sum_sq(
                rx as int,
                ry as int,
                v.x as int,
                v.y as int,
                cap as int,
                m as int,
            );
            lemma_trunc_div_sign(v.x as int * cap as int, m as int);
            lemma_trunc_div_sign(v.y as int * cap as int, m as int);
            assert(abs_val(v.x as int) + abs_val(v.y as int) >= 1) by {
                if v.x == 0 && v.y == 0 {
                    assert(mag_sq(v) == 0);
                }
            }
            lemma_cross_small(
                rx as int,
                ry as int,
                v.x as int,
                v.y as int,
                cap as int,
                m as int,
            );
            lemma_square_bound(cap as int, COORD_BOUND as int);
            lemma_clamped_in_range(rx as int, ry as int, cap as int);
        }
        Vec2I { x: rx, y: ry }
    }
}

/// A vector whose squared magnitude is at most `cap * cap` has both
/// components within `cap`.
pub proof fn lemma_clamped_in_range(x: int, y: int, cap: int) by (nonlinear_arith)
    requires
        cap >= 0,
        x * x + y * y <= cap * cap,
    ensures
        -cap <= x <= cap,
        -cap <= y <= cap,
{
}

} // verus!
