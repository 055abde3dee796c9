//! Scalar fixed-point arithmetic: truncating scaled products and the small
//! facts about them that the simulation's proofs lean on.

use vstd::prelude::*;

verus! {

/// Absolute value of a mathematical integer.
pub open spec fn abs_val(a: int) -> int {
    if a >= 0 {
        a
    } else {
        -a
    }
}

/// Division of `p` by a positive `den`, rounding toward zero, as Rust's `/`
/// does on machine integers. On nonnegative `p` it agrees with Euclidean
/// division.
pub open spec fn trunc_div(p: int, den: int) -> int {
    if p >= 0 {
        p / den
    } else {
        -((-p) / den)
    }
}

/// `c * num / den`, rounding toward zero, without overflow.
pub fn mul_div(c: i64, num: i64, den: i64) -> (r: i64)
    requires
        den > 0,
        c > i64::MIN,
        num > i64::MIN,
        -i64::MAX <= c * num <= i64::MAX,
    ensures
        r == trunc_div(c * num, den as int),
{
    let neg = (c < 0) != (num < 0);
    let ac: u64 = if c >= 0 { c as u64 } else { (-c) as u64 };
    let an: u64 = if num >= 0 { num as u64 } else { (-num) as u64 };
    proof {
        assert(ac as int * an as int == abs_val(c as int * num as int)) by (nonlinear_arith)
            requires
                ac as int == abs_val(c as int),
                an as int == abs_val(num as int),
        ;
    }
    let p: u64 = ac * an;
    let q: u64 = p / (den as u64);
    proof {
        lemma_div_le_dividend(p as int, den as int);
        assert((c as int * num as int >= 0) ==> (!neg || p == 0)) by (nonlinear_arith)
            requires
                p == abs_val(c as int * num as int),
                neg == ((c < 0) != (num < 0)),
        ;
        assert(((c as int) * (num as int)) < 0 ==> neg) by (nonlinear_arith)
            requires
                neg == ((c < 0) != (num < 0)),
        ;
    }
    if neg {
        -(q as i64)
    } else {
        q as i64
    }
}

/// A product of nonnegative factors is nonnegative and grows with neither.
proof fn lemma_mul_nonneg_bound(a: int, b: int) by (nonlinear_arith)
    requires
        0 <= a,
        0 <= b,
    ensures
        0 <= a * b,
{
}

/// Dividing a nonnegative value by a positive one cannot enlarge it.
proof fn lemma_div_le_dividend(p: int, den: int) by (nonlinear_arith)
    requires
        0 <= p,
        0 < den,
    ensures
        0 <= p / den <= p,
{
}

/// Truncation keeps the sign of the dividend.
pub proof fn lemma_trunc_div_sign(p: int, den: int) by (nonlinear_arith)
    requires
        den > 0,
    ensures
        p >= 0 ==> trunc_div(p, den) >= 0,
        p <= 0 ==> trunc_div(p, den) <= 0,
{
}

/// A bound on the dividend gives the matching bound on the quotient.
pub proof fn lemma_trunc_div_abs_bound(p: int, den: int, cap: int) by (nonlinear_arith)
    requires
        den > 0,
        cap >= 0,
        abs_val(p) <= cap * den,
    ensures
        abs_val(trunc_div(p, den)) <= cap,
{
}

/// The magnitude of a product is the product of the magnitudes, so
/// componentwise bounds multiply; nonnegative factors keep the first
/// factor's sign.
pub proof fn lemma_abs_product2(a: int, b: int, ba: int, bb: int) by (nonlinear_arith)
    requires
        abs_val(a) <= ba,
        abs_val(b) <= bb,
    ensures
        abs_val(a * b) <= ba * bb,
        b >= 0 && a <= 0 ==> a * b <= 0,
        b >= 0 && a >= 0 ==> a * b >= 0,
{
}

/// A value equal to `k` or to `-k` squares to `k * k`.
pub proof fn lemma_square_cases(a: int, k: int) by (nonlinear_arith)
    requires
        a == k || a == -k,
    ensures
        a * a == k * k,
{
}

/// The magnitude of a product of three factors is the product of the
/// magnitudes of the factors, so componentwise bounds multiply.
pub proof fn lemma_abs_product3(a: int, b: int, c: int, ba: int, bb: int, bc: int) by (nonlinear_arith)
    requires
        abs_val(a) <= ba,
        abs_val(b) <= bb,
        abs_val(c) <= bc,
    ensures
        abs_val(a * b * c) <= ba * bb * bc,
        b >= 0 && c >= 0 && a <= 0 ==> a * b * c <= 0,
        b >= 0 && c >= 0 && a >= 0 ==> a * b * c >= 0,
{
}

} // verus!
