//! Q24 fixed-point arithmetic: multiplication and division with truncation
//! toward zero, and the saturating nonlinearity used by every ladder stage.

use vstd::prelude::*;

verus! {

/// One in Q24 fixed point (2^24).
pub const FX_ONE: i64 = 16777216;

/// Largest magnitude accepted by `fx_mul` (2^43); keeps every product inside
/// the range where the truncated result still fits in an `i64`.
pub const FX_ARG_MAX: i64 = 8796093022208;

/// Magnitude of `x`.
pub open spec fn abs_s(x: int) -> int {
    if x >= 0 {
        x
    } else {
        -x
    }
}

/// Q24 product, truncated toward zero: the exact mathematical value of
/// `a * b / 2^24` rounded toward zero.
pub open spec fn fx_mul_s(a: int, b: int) -> int {
    if a * b >= 0 {
        (a * b) / (FX_ONE as int)
    } else {
        -((-(a * b)) / (FX_ONE as int))
    }
}

/// Q24 quotient of non-negative `a` by positive `b`: the exact mathematical
/// value of `a * 2^24 / b` rounded down.
pub open spec fn fx_div_s(a: int, b: int) -> int {
    (a * (FX_ONE as int)) / b
}

/// Q24 multiplication with truncation toward zero.
pub fn fx_mul(a: i64, b: i64) -> (r: i64)
    requires
        -FX_ARG_MAX <= a <= FX_ARG_MAX,
        -FX_ARG_MAX <= b <= FX_ARG_MAX,
    ensures
        r == fx_mul_s(a as int, b as int),
{
    let negative = (a < 0) != (b < 0);
    let ua: u128 = if a >= 0 {
        a as u128
    } else {
        (-(a as i128)) as u128
    };
    let ub: u128 = if b >= 0 {
        b as u128
    } else {
        (-(b as i128)) as u128
    };
    proof {
        assert(ua == abs_s(a as int));
        assert(ub == abs_s(b as int));
        assert(ua * ub == abs_s((a as int) * (b as int)) && ua * ub <= FX_ARG_MAX * FX_ARG_MAX)
            by (nonlinear_arith)
            requires
                ua == abs_s(a as int),
                ub == abs_s(b as int),
                -FX_ARG_MAX <= a <= FX_ARG_MAX,
                -FX_ARG_MAX <= b <= FX_ARG_MAX;
    }
    let q: u128 = (ua * ub) / (FX_ONE as u128);
    proof {
        vstd::arithmetic::div_mod::lemma_div_is_ordered(
            (ua * ub) as int,
            (FX_ARG_MAX * FX_ARG_MAX) as int,
            FX_ONE as int,
        );
        assert(q <= (FX_ARG_MAX * FX_ARG_MAX) / (FX_ONE as int));
        if (a as int) * (b as int) >= 0 {
            assert(negative ==> q == 0) by (nonlinear_arith)
                requires
                    negative == ((a < 0) != (b < 0)),
                    (a as int) * (b as int) >= 0,
                    ua * ub == abs_s((a as int) * (b as int)),
                    q == ((ua * ub) as int) / (FX_ONE as int);
        } else {
            assert(negative) by (nonlinear_arith)
                requires
                    negative == ((a < 0) != (b < 0)),
                    (a as int) * (b as int) < 0;
        }
    }
    if negative {
        -(q as i64)
    } else {
        q as i64
    }
}

/// Q24 division of a non-negative value by a positive one, rounded down.
/// The bound `a <= 110 * b` keeps the quotient within the range this
/// library ever produces.
pub fn fx_div(a: i64, b: i64) -> (r: i64)
    requires
        0 <= a,
        1 <= b,
        a <= 110 * b,
    ensures
        r == fx_div_s(a as int, b as int),
        0 <= r <= 110 * FX_ONE,
{
    proof {
        assert((a as int) * (FX_ONE as int) <= (110 * b) * (FX_ONE as int)
            && (110 * b) * (FX_ONE as int) < 0x1000000000000000000000000000000int) by (nonlinear_arith)
            requires
                0 <= a,
                1 <= b <= i64::MAX,
                a <= 110 * b;
    }
    let q: u128 = ((a as u128) * (FX_ONE as u128)) / (b as u128);
    proof {
        vstd::arithmetic::div_mod::lemma_div_is_ordered(
            (a as int) * (FX_ONE as int),
            (110 * b) as int * (FX_ONE as int),
            b as int,
        );
        assert((110 * b as int * (FX_ONE as int)) / (b as int) == 110 * FX_ONE) by {
            vstd::arithmetic::div_mod::lemma_div_multiples_vanish(
                110 * FX_ONE as int,
                b as int,
            );
            assert(110 * b as int * (FX_ONE as int) == (b as int) * (110 * FX_ONE as int))
                by (nonlinear_arith);
        }
        vstd::arithmetic::div_mod::lemma_div_pos_is_pos((a as int) * (FX_ONE as int), b as int);
    }
    q as i64
}

/// The saturating nonlinearity, a rational approximation of the hyperbolic
/// tangent: `t * (27 + t^2) / (27 + 9 * t^2)` on `[-3, 3]`, clamped to
/// `[-1, 1]` outside.  The approximation is odd, reaches exactly 1 at
/// `t == 3`, and matches `tanh` to within a fraction of a percent on the
/// interval.
pub open spec fn sat_s(x: int) -> int {
    let m = abs_s(x);
    let t = if m > 3 * (FX_ONE as int) {
        3 * (FX_ONE as int)
    } else {
        m
    };
    let sq = fx_mul_s(t, t);
    let n = fx_mul_s(t, 27 * (FX_ONE as int) + sq);
    let d = 27 * (FX_ONE as int) + 9 * sq;
    let q = fx_div_s(n, d);
    let q1 = if q > FX_ONE as int {
        FX_ONE as int
    } else {
        q
    };
    if x >= 0 {
        q1
    } else {
        -q1
    }
}

/// Saturates a Q24 value to `[-1, 1]`.
pub fn saturate(x: i64) -> (r: i64)
    requires
        -FX_ARG_MAX <= x <= FX_ARG_MAX,
    ensures
        r == sat_s(x as int),
        -FX_ONE <= r <= FX_ONE,
{
    let m = if x >= 0 {
        x
    } else {
        -x
    };
    let t = if m > 3 * FX_ONE {
        3 * FX_ONE
    } else {
        m
    };
    let sq = fx_mul(t, t);
    proof {
        lemma_fx_mul_s_sign(t as int, t as int);
        lemma_fx_mul_s_bound(t as int, t as int, 3 * FX_ONE as int, 3 * FX_ONE as int);
    }
    let n = fx_mul(t, 27 * FX_ONE + sq);
    proof {
        lemma_fx_mul_s_sign(t as int, 27 * FX_ONE as int + sq);
        lemma_fx_mul_s_bound(
            t as int,
            27 * FX_ONE as int + sq,
            3 * FX_ONE as int,
            36 * FX_ONE as int,
        );
    }
    let d = 27 * FX_ONE + 9 * sq;
    let q = fx_div(n, d);
    let q1 = if q > FX_ONE {
        FX_ONE
    } else {
        q
    };
    if x >= 0 {
        q1
    } else {
        -q1
    }
}

/// Saturation is bounded by one and keeps the sign of its argument.
pub proof fn lemma_sat_s_bounds(x: int)
    ensures
        -FX_ONE <= sat_s(x) <= FX_ONE,
        x >= 0 ==> sat_s(x) >= 0,
        x <= 0 ==> sat_s(x) <= 0,
{
    let m = abs_s(x);
    let t = if m > 3 * (FX_ONE as int) {
        3 * (FX_ONE as int)
    } else {
        m
    };
    let sq = fx_mul_s(t, t);
    lemma_fx_mul_s_sign(t, t);
    let n = fx_mul_s(t, 27 * (FX_ONE as int) + sq);
    lemma_fx_mul_s_sign(t, 27 * (FX_ONE as int) + sq);
    let d = 27 * (FX_ONE as int) + 9 * sq;
    assert(n * (FX_ONE as int) >= 0) by (nonlinear_arith)
        requires
            n >= 0;
    vstd::arithmetic::div_mod::lemma_div_pos_is_pos(n * (FX_ONE as int), d);
}

/// Saturating zero gives zero.
pub proof fn lemma_sat_s_zero()
    ensures
        sat_s(0) == 0,
{
    lemma_fx_mul_s_zero(0);
    lemma_fx_mul_s_zero(27 * (FX_ONE as int));
    assert(fx_div_s(0, 27 * (FX_ONE as int)) == 0);
}

/// At or beyond three, saturation returns exactly one.
pub proof fn lemma_sat_s_full(x: int)
    requires
        x >= 3 * (FX_ONE as int),
    ensures
        sat_s(x) == FX_ONE,
{
    let one = FX_ONE as int;
    vstd::arithmetic::div_mod::lemma_div_multiples_vanish(9 * one, one);
    assert((3 * one) * (3 * one) == one * (9 * one)) by (nonlinear_arith);
    assert(fx_mul_s(3 * one, 3 * one) == 9 * one);
    vstd::arithmetic::div_mod::lemma_div_multiples_vanish(108 * one, one);
    assert((3 * one) * (27 * one + 9 * one) == one * (108 * one)) by (nonlinear_arith);
    assert(fx_mul_s(3 * one, 27 * one + 9 * one) == 108 * one);
    vstd::arithmetic::div_mod::lemma_div_multiples_vanish(one, 108 * one);
    assert(fx_div_s(108 * one, 108 * one) == one);
}

/// Saturation is an odd function.
pub proof fn lemma_sat_s_odd(x: int)
    ensures
        sat_s(-x) == -sat_s(x),
{
    if x == 0 {
        lemma_sat_s_zero();
    }
}

/// A product with a zero factor truncates to zero.
pub proof fn lemma_fx_mul_s_zero(a: int)
    ensures
        fx_mul_s(a, 0) == 0,
        fx_mul_s(0, a) == 0,
{
}

/// Truncation toward zero never grows the magnitude of the scaled product.
pub proof fn lemma_fx_mul_s_bound(a: int, b: int, ca: int, cb: int)
    requires
        abs_s(a) <= ca,
        abs_s(b) <= cb,
    ensures
        abs_s(fx_mul_s(a, b)) <= (ca * cb) / (FX_ONE as int),
{
    let p = a * b;
    assert(abs_s(p) <= ca * cb && (p >= 0 ==> p <= ca * cb) && (p < 0 ==> -p <= ca * cb))
        by (nonlinear_arith)
        requires
            abs_s(a) <= ca,
            abs_s(b) <= cb,
            p == a * b;
    if p >= 0 {
        vstd::arithmetic::div_mod::lemma_div_is_ordered(p, ca * cb, FX_ONE as int);
        vstd::arithmetic::div_mod::lemma_div_pos_is_pos(p, FX_ONE as int);
    } else {
        vstd::arithmetic::div_mod::lemma_div_is_ordered(-p, ca * cb, FX_ONE as int);
        vstd::arithmetic::div_mod::lemma_div_pos_is_pos(-p, FX_ONE as int);
    }
}

/// A ready-scaled form of the product bound: if the bound on the exact
/// product is at most `2^24 * k`, the truncated Q24 product is at most `k`.
pub proof fn lemma_fx_mul_s_abs_le(a: int, b: int, ca: int, cb: int, k: int)
    requires
        abs_s(a) <= ca,
        abs_s(b) <= cb,
        ca * cb <= (FX_ONE as int) * k,
    ensures
        abs_s(fx_mul_s(a, b)) <= k,
{
    lemma_fx_mul_s_bound(a, b, ca, cb);
    vstd::arithmetic::div_mod::lemma_div_is_ordered(
        ca * cb,
        (FX_ONE as int) * k,
        FX_ONE as int,
    );
    vstd::arithmetic::div_mod::lemma_div_multiples_vanish(k, FX_ONE as int);
}

/// The truncated product keeps the sign of the exact product.
pub proof fn lemma_fx_mul_s_sign(a: int, b: int)
    ensures
        a >= 0 && b >= 0 ==> fx_mul_s(a, b) >= 0,
        a >= 0 && b <= 0 ==> fx_mul_s(a, b) <= 0,
        a <= 0 && b >= 0 ==> fx_mul_s(a, b) <= 0,
{
    let p = a * b;
    assert((a >= 0 && b >= 0 ==> p >= 0) && (a >= 0 && b <= 0 ==> p <= 0) && (a <= 0 && b >= 0
        ==> p <= 0)) by (nonlinear_arith)
        requires
            p == a * b;
    if p >= 0 {
        vstd::arithmetic::div_mod::lemma_div_pos_is_pos(p, FX_ONE as int);
    } else {
        vstd::arithmetic::div_mod::lemma_div_pos_is_pos(-p, FX_ONE as int);
    }
}

/// A product that truncates to zero was smaller than one raw unit: the
/// converse of truncation, quantifying how close two values must be when an
/// integrator step between them vanishes.
pub proof fn lemma_fx_mul_s_zero_converse(a: int, b: int)
    requires
        1 <= a,
        fx_mul_s(a, b) == 0,
    ensures
        a * abs_s(b) < FX_ONE,
{
    let p = a * b;
    if p >= 0 {
        vstd::arithmetic::div_mod::lemma_small_div_converse(p, FX_ONE as int);
        assert(p == a * abs_s(b)) by (nonlinear_arith)
            requires
                1 <= a,
                p == a * b,
                p >= 0;
    } else {
        vstd::arithmetic::div_mod::lemma_small_div_converse(-p, FX_ONE as int);
        assert(-p == a * abs_s(b)) by (nonlinear_arith)
            requires
                1 <= a,
                p == a * b,
                p < 0;
    }
}

/// The truncated product is commutative.
pub proof fn lemma_fx_mul_s_comm(a: int, b: int)
    ensures
        fx_mul_s(a, b) == fx_mul_s(b, a),
{
    assert(a * b == b * a) by (nonlinear_arith);
}

/// Negating one factor negates the truncated product.
pub proof fn lemma_fx_mul_s_odd(a: int, b: int)
    ensures
        fx_mul_s(-a, b) == -fx_mul_s(a, b),
{
    assert((-a) * b == -(a * b)) by (nonlinear_arith);
}

/// The truncated product is monotone in a non-negative factor.
pub proof fn lemma_fx_mul_s_mono(a1: int, a2: int, b: int)
    requires
        0 <= a1 <= a2,
        0 <= b,
    ensures
        fx_mul_s(a1, b) <= fx_mul_s(a2, b),
{
    assert(0 <= a1 * b <= a2 * b) by (nonlinear_arith)
        requires
            0 <= a1 <= a2,
            0 <= b;
    vstd::arithmetic::div_mod::lemma_div_is_ordered(a1 * b, a2 * b, FX_ONE as int);
}

/// The truncated product is monotone in the second factor when the first is
/// non-negative, across either sign of the second: truncation toward zero
/// rounds down on the non-negative side and up on the negative side, which
/// only helps the order.
pub proof fn lemma_fx_mul_s_mono_signed(a: int, b1: int, b2: int)
    requires
        0 <= a,
        b1 <= b2,
    ensures
        fx_mul_s(a, b1) <= fx_mul_s(a, b2),
{
    let p1 = a * b1;
    let p2 = a * b2;
    assert(p1 <= p2) by (nonlinear_arith)
        requires
            0 <= a,
            b1 <= b2,
            p1 == a * b1,
            p2 == a * b2;
    if p1 >= 0 {
        vstd::arithmetic::div_mod::lemma_div_is_ordered(p1, p2, FX_ONE as int);
    } else if p2 >= 0 {
        vstd::arithmetic::div_mod::lemma_div_pos_is_pos(-p1, FX_ONE as int);
        vstd::arithmetic::div_mod::lemma_div_pos_is_pos(p2, FX_ONE as int);
    } else {
        vstd::arithmetic::div_mod::lemma_div_is_ordered(-p2, -p1, FX_ONE as int);
    }
}

/// On the non-negative side the saturator never exceeds its argument, just
/// as the hyperbolic tangent it approximates.
pub proof fn lemma_sat_s_le_id(x: int)
    requires
        0 <= x,
    ensures
        sat_s(x) <= x,
{
    let one = FX_ONE as int;
    let t = if x > 3 * one {
        3 * one
    } else {
        x
    };
    let sq = fx_mul_s(t, t);
    lemma_fx_mul_s_sign(t, t);
    let n = fx_mul_s(t, 27 * one + sq);
    lemma_fx_mul_s_sign(t, 27 * one + sq);
    let d = 27 * one + 9 * sq;
    vstd::arithmetic::div_mod::lemma_fundamental_div_mod(t * (27 * one + sq), one);
    vstd::arithmetic::div_mod::lemma_mod_division_less_than_divisor(t * (27 * one + sq), one);
    assert(n * one <= t * d) by (nonlinear_arith)
        requires
            0 <= t,
            0 <= sq,
            one * n <= t * (27 * one + sq),
            d == 27 * one + 9 * sq;
    assert(n * one <= d * t) by (nonlinear_arith)
        requires
            n * one <= t * d;
    vstd::arithmetic::div_mod::lemma_multiply_divide_le(n * one, d, t);
    // Past the cap, the clamp to one is already below the argument.
    if x > 3 * one {
        assert(sat_s(x) <= one);
    }
}

/// Rounding down respects the order of two non-negative fractions:
/// if x/p <= y/q as exact fractions, the rounded quotients are ordered too.
pub proof fn lemma_div_frac_le(x: int, p: int, y: int, q: int)
    requires
        0 <= x,
        0 < p,
        0 < q,
        x * q <= y * p,
    ensures
        x / p <= y / q,
{
    vstd::arithmetic::div_mod::lemma_fundamental_div_mod(x, p);
    vstd::arithmetic::div_mod::lemma_fundamental_div_mod(y, q);
    vstd::arithmetic::div_mod::lemma_mod_division_less_than_divisor(x, p);
    vstd::arithmetic::div_mod::lemma_mod_division_less_than_divisor(y, q);
    vstd::arithmetic::div_mod::lemma_div_pos_is_pos(x, p);
    assert(x / p <= y / q) by (nonlinear_arith)
        requires
            x == p * (x / p) + x % p,
            y == q * (y / q) + y % q,
            0 <= x % p < p,
            0 <= y % q < q,
            0 <= x / p,
            x * q <= y * p,
            0 < p,
            0 < q;
}

} // verus!
