//! Products and quotients of fixed-point numbers next to the exact ones: both are rounded down.
use crate::fixed;
use crate::fixed::Fixed;
use crate::scalar::Scalar;
use vstd::arithmetic::div_mod::*;
use vstd::prelude::*;

verus! {

/// A product of two numbers of limited size is rounded down by less than one unit.
pub proof fn product_rounds_down(a: Fixed, b: Fixed, m: int, n: int)
    requires
        0 <= m,
        0 <= n,
        -m <= a.units <= m,
        -n <= b.units <= n,
        m * n <= 9_000_000_000_000_000_000_000_000_000,
    ensures
        ({
            let p = a.product(b).units;
            &&& 1_000_000_000 * p <= a.units * b.units < 1_000_000_000 * p + 1_000_000_000
            &&& -(m * n) <= a.units * b.units <= m * n
        }),
{
    let exact = a.units * b.units;
    assert(-(m * n) <= exact <= m * n) by (nonlinear_arith)
        requires
            exact == a.units * b.units,
            -m <= a.units <= m,
            -n <= b.units <= n,
    ;
    lemma_fundamental_div_mod(exact, fixed::SCALE as int);
    lemma_mod_bound(exact, fixed::SCALE as int);
}

/// A quotient that can be had is rounded down by less than one unit; one of numbers that are not
/// negative is not negative.
pub proof fn quotient_rounds_down(a: Fixed, b: Fixed)
    requires
        b.units > 0,
        -9_000_000_000 * b.units <= a.units <= 9_000_000_000 * b.units,
    ensures
        ({
            let q = a.quotient(b).units;
            &&& q * b.units <= 1_000_000_000 * a.units < q * b.units + b.units
            &&& a.units >= 0 ==> q >= 0
        }),
{
    let exact = a.units * 1_000_000_000;
    let d = b.units as int;
    let q = exact / d;
    lemma_fundamental_div_mod(exact, d);
    lemma_mod_bound(exact, d);
    assert(d * q == q * d) by (nonlinear_arith);
    assert(-9_000_000_000_000_000_001 <= q <= 9_000_000_000_000_000_000) by (nonlinear_arith)
        requires
            q * d <= exact < q * d + d,
            -9_000_000_000_000_000_000 * d <= exact <= 9_000_000_000_000_000_000 * d,
            d >= 1,
    ;
    if a.units >= 0 {
        lemma_div_pos_is_pos(exact, d);
    }
}

/// A whole number times a number is exact.
pub proof fn whole_product_is_exact(a: Fixed, n: int, b: Fixed)
    requires
        b.units == n * 1_000_000_000,
        i64::MIN <= a.units * n <= i64::MAX,
    ensures
        a.product(b).units == a.units * n,
        b.product(a).units == a.units * n,
{
    let k = a.units * n;
    assert(a.units * b.units == k * 1_000_000_000) by (nonlinear_arith)
        requires
            k == a.units * n,
            b.units == n * 1_000_000_000,
    ;
    assert(b.units * a.units == a.units * b.units) by (nonlinear_arith);
    lemma_fundamental_div_mod_converse(k * 1_000_000_000, 1_000_000_000, k, 0);
}

} // verus!
