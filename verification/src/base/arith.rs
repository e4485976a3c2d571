//! Integer arithmetic that rounds toward zero.

use vstd::prelude::*;

verus! {

/// Whether a number is one of `i128`.
pub open spec fn fits(x: int) -> bool {
    i128::MIN <= x <= i128::MAX
}

/// `a / b` rounded toward zero, for `b` other than zero.
pub open spec fn quot(a: int, b: int) -> int {
    if a == 0 {
        0
    } else if a > 0 && b > 0 {
        a / b
    } else if a < 0 && b < 0 {
        (-a) / (-b)
    } else if a < 0 {
        -((-a) / b)
    } else {
        -(a / (-b))
    }
}

/// Whether `a * b / d` can be computed step by step in `i128`.
pub open spec fn mul_div_fits(a: int, b: int, d: int) -> bool {
    fits(a * b) && d != 0 && fits(quot(a * b, d))
}

/// `a / b` rounded toward zero, or `None` where there is no such `i128`.
pub fn checked_quot(a: i128, b: i128) -> (r: Option<i128>)
    ensures
        match r {
            Some(q) => b != 0 && q == quot(a as int, b as int),
            None => b == 0 || !fits(quot(a as int, b as int)),
        },
{
    a.checked_div(b)
}

/// `a * b / d` rounded toward zero, or `None` where a step leaves `i128`.
pub fn checked_mul_div(a: i128, b: i128, d: i128) -> (r: Option<i128>)
    ensures
        match r {
            Some(q) => mul_div_fits(a as int, b as int, d as int) && q == quot(a * b, d as int),
            None => !mul_div_fits(a as int, b as int, d as int),
        },
{
    match a.checked_mul(b) {
        Some(x) => checked_quot(x, d),
        None => None,
    }
}

/// `a / d` rounded up.
pub fn ceil_quot(a: i128, d: i128) -> (q: i128)
    requires
        d > 1,
    ensures
        (q - 1) * d < a <= q * d,
{
    proof {
        lemma_quot_bounds(a as int, d as int);
        lemma_quot_rest(a as int, d as int);
    }
    let q: i128 = match checked_quot(a, d) {
        Some(q) => q,
        None => 0,
    };
    if q * d < a {
        assert((q + 1 - 1) * d < a <= (q + 1) * d) by (nonlinear_arith)
            requires
                q * d < a,
                a < q * d + d,
        ;
        assert(q > 0 ==> q <= q * d) by (nonlinear_arith)
            requires
                d > 1,
        ;
        q + 1
    } else {
        assert((q - 1) * d < a <= q * d) by (nonlinear_arith)
            requires
                q * d >= a,
                a > q * d - d,
        ;
        q
    }
}

/// A number is below the quotient rounded up just where its product is below
/// the dividend.
pub proof fn lemma_below_ceil(a: int, d: int, q: int, x: int)
    requires
        d > 0,
        (q - 1) * d < a <= q * d,
    ensures
        x < q <==> x * d < a,
{
    if x < q {
        assert(x * d <= (q - 1) * d) by (nonlinear_arith)
            requires
                x <= q - 1,
                d > 0,
        ;
    } else {
        assert(x * d >= q * d) by (nonlinear_arith)
            requires
                x >= q,
                d > 0,
        ;
    }
}

/// What is left over by a division is less than the divisor.
pub proof fn lemma_quot_rest(a: int, d: int)
    requires
        d > 0,
    ensures
        a >= 0 ==> 0 <= quot(a, d) * d <= a < quot(a, d) * d + d,
        a <= 0 ==> quot(a, d) * d - d < a <= quot(a, d) * d <= 0,
{
    let b: int = if a >= 0 {
        a
    } else {
        -a
    };
    let q = b / d;
    assert(0 <= q * d <= b < q * d + d) by (nonlinear_arith)
        requires
            b >= 0,
            d > 0,
            q == b / d,
    ;
    assert(0int / d == 0) by (nonlinear_arith)
        requires
            d > 0,
    ;
    assert((-q) * d == -(q * d)) by (nonlinear_arith);
}

/// Dividing by a positive number never grows a number.
pub proof fn lemma_quot_bounds(a: int, d: int)
    requires
        d > 0,
    ensures
        a >= 0 ==> 0 <= quot(a, d) <= a,
        a <= 0 ==> a <= quot(a, d) <= 0,
        fits(a) ==> fits(quot(a, d)),
{
    if a > 0 {
        assert(0 <= a / d <= a) by (nonlinear_arith)
            requires
                a > 0,
                d > 0,
        ;
    } else if a < 0 {
        let b = -a;
        assert(0 <= b / d <= b) by (nonlinear_arith)
            requires
                b > 0,
                d > 0,
        ;
    }
}

} // verus!
