//! What fixed-point numbers compute, next to exact numbers.
use crate::fixed;
use crate::fixed::Fixed;
use crate::frame_laws::integer_root_exists;
use crate::scalar::{count, num, pi, Scalar};
use vstd::arithmetic::div_mod::*;
use vstd::prelude::*;

verus! {

/// Sums and differences are exact as long as they can be had, and stay at the end of the range
/// beyond it.
pub proof fn sums_are_exact(a: Fixed, b: Fixed)
    ensures
        i64::MIN <= a.units + b.units <= i64::MAX ==> a.sum(b).units == a.units + b.units,
        a.units + b.units > i64::MAX ==> a.sum(b).units == i64::MAX,
        a.units + b.units < i64::MIN ==> a.sum(b).units == i64::MIN,
        i64::MIN <= a.units - b.units <= i64::MAX ==> a.difference(b).units == a.units - b.units,
        a.units > i64::MIN ==> a.opposite().units == -a.units,
        a.units > i64::MIN ==> a.magnitude().units == (if a.units < 0 {
            -a.units
        } else {
            a.units as int
        }),
{
}

/// A constant is its fraction in billionths, rounded down; a count is as many wholes; and pi is pi
/// to nine decimals.
pub proof fn constants_are_what_they_say(n: int, d: int, k: usize)
    requires
        d > 0,
        -9_000_000_000 * d <= n <= 9_000_000_000 * d,
        k <= 9_000_000_000,
    ensures
        Fixed::fraction(n, d).units * d <= n * 1_000_000_000 < Fixed::fraction(n, d).units * d + d,
        count::<Fixed>(k).units == k * 1_000_000_000,
        pi::<Fixed>().units == 3_141_592_653,
{
    let exact = n * 1_000_000_000;
    let q = exact / d;
    lemma_fundamental_div_mod(exact, d);
    lemma_mod_bound(exact, d);
    assert(d * q == q * d) by (nonlinear_arith);
    assert(-9_000_000_000_000_000_001 <= q <= 9_000_000_000_000_000_000) by (nonlinear_arith)
        requires
            q * d <= exact < q * d + d,
            -9_000_000_000_000_000_000 * d <= exact <= 9_000_000_000_000_000_000 * d,
            d >= 1,
    ;
    assert(3141592653589793 * 1_000_000_000 == 3_141_592_653 * 1000000000000000
        + 589793000000000int);
    lemma_fundamental_div_mod_converse(
        3141592653589793int * 1_000_000_000,
        1000000000000000,
        3_141_592_653,
        589793000000000,
    );
}

/// The square of a root is the number, but for rounding.
pub proof fn roots_square_to_the_number(a: Fixed)
    requires
        a.units >= 0,
    ensures
        ({
            let r = a.square_root().units;
            r * r <= 1_000_000_000 * a.units < (r + 1) * (r + 1)
        }),
{
    let n = a.units * 1_000_000_000;
    integer_root_exists(n);
    let r = fixed::integer_root(n);
    assert(r <= 100_000_000_000_000) by (nonlinear_arith)
        requires
            0 <= r,
            r * r <= n,
            n <= 9_223_372_036_854_775_807 * 1_000_000_000,
    ;
    assert(fixed::is_integer_root(r, n));
    if a.units == 0 {
        assert(r == 0) by (nonlinear_arith)
            requires
                0 <= r,
                r * r <= 0,
        ;
    }
    assert(a.square_root().units == r);
}

proof fn empty_series(step: Fixed, stride: int, index: int, terms: nat)
    requires
        1 <= stride <= 2,
        1 <= index,
        index + stride * terms <= 1000,
    ensures
        fixed::series(Fixed { units: 0 }, step, stride, index, terms).units == 0,
    decreases terms,
{
    if terms > 0 {
        let divisor = if stride == 1 {
            index
        } else {
            index * (index + 1)
        };
        assert(1 <= index * (index + 1) <= 1001 * 1001) by (nonlinear_arith)
            requires
                1 <= index <= 1000,
        ;
        assert(stride * terms == stride * (terms - 1) + stride) by (nonlinear_arith);
        assert(stride * (terms - 1) >= 0) by (nonlinear_arith)
            requires
                stride >= 1,
                terms >= 1,
        ;
        let nothing = Fixed { units: 0 };
        assert(0 * step.units == 0);
        assert(nothing.product(step).units == 0);
        let d = Fixed::fraction(divisor, 1);
        assert(d.units == divisor * 1_000_000_000);
        lemma_div_basics(d.units as int);
        assert(nothing.product(step).quotient(d).units == 0);
        empty_series(step, stride, index + stride, (terms - 1) as nat);
    }
}

/// Near nothing a sine is the angle, a cosine is one, and an exponential is one more than the number.
pub proof fn series_begin_as_they_should(x: Fixed)
    requires
        -30_000 <= x.units <= 30_000,
    ensures
        x.sine().units == x.units,
        x.cosine().units == 1_000_000_000,
        x.exponential().units == 1_000_000_000 + x.units,
{
    let square = x.units * x.units;
    assert(0 <= square <= 900_000_000) by (nonlinear_arith)
        requires
            square == x.units * x.units,
            -30_000 <= x.units <= 30_000,
    ;
    assert(x.product(x).units == 0);
    let step = x.product(x).opposite();
    assert(step.units == 0);
    let one = Fixed::fraction(1, 1);
    assert(one.units == 1_000_000_000);
    // Sine and cosine: every further term is nothing.
    assert(x.units * 0 == 0);
    assert(x.product(step).units == 0);
    assert(one.product(step).units == 0);
    let six = Fixed::fraction(6, 1);
    let two = Fixed::fraction(2, 1);
    assert(six.units == 6_000_000_000 && two.units == 2_000_000_000);
    assert(x.product(step).quotient(six).units == 0);
    assert(one.product(step).quotient(two).units == 0);
    assert(2int * (2 + 1) == 6 && 1int * (1 + 1) == 2);
    empty_series(step, 2, 4, 19);
    empty_series(step, 2, 3, 19);
    reveal_with_fuel(fixed::series, 3);
    // Exponential: the second term is the number itself.
    assert(one.product(x).units == x.units) by {
        assert(one.units * x.units == 1_000_000_000 * x.units);
        lemma_fundamental_div_mod_converse(
            1_000_000_000 * x.units,
            1_000_000_000,
            x.units as int,
            0,
        );
    }
    assert(one.product(x).quotient(one).units == x.units) by {
        lemma_fundamental_div_mod_converse(
            x.units * 1_000_000_000,
            1_000_000_000,
            x.units as int,
            0,
        );
    }
    assert(one.product(x).quotient(one) == x);
    assert(x.product(x).quotient(two).units == 0);
    empty_series(x, 1, 3, 38);
}

/// A cosine does not depend on the sign of the angle.
pub proof fn cosine_is_even(x: Fixed)
    requires
        x.units > i64::MIN,
    ensures
        x.opposite().cosine() == x.cosine(),
{
    let y = x.opposite();
    assert(y.units * y.units == x.units * x.units) by (nonlinear_arith)
        requires
            y.units == -x.units,
    ;
}

/// The smaller and the larger of two numbers are one of them, in order.
pub proof fn lesser_and_greater_are_in_order(a: Fixed, b: Fixed)
    ensures
        a.lesser(b).units <= a.greater(b).units,
        a.lesser(b).units <= a.units && a.lesser(b).units <= b.units,
        a.greater(b).units >= a.units && a.greater(b).units >= b.units,
        a.lesser(b).units + a.greater(b).units == a.units + b.units,
        num::<Fixed>(0).units == 0,
{
}

} // verus!
