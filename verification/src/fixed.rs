//! Saturating decimal fixed-point numbers with nine digits after the point.
use crate::scalar::{Monotone, Ordered, Scalar};
use vstd::arithmetic::div_mod::*;
use vstd::prelude::*;

verus! {

/// How many units make one.
pub const SCALE: i128 = 1_000_000_000;

/// The number `units / 10^9`.
#[derive(Clone, Copy, Debug, PartialEq, Eq, Structural)]
pub struct Fixed {
    pub units: i64,
}

/// The closest representable number of units.
pub open spec fn saturated(n: int) -> Fixed {
    if n > i64::MAX {
        Fixed { units: i64::MAX }
    } else if n < i64::MIN {
        Fixed { units: i64::MIN }
    } else {
        Fixed { units: n as i64 }
    }
}

/// The largest whole number whose square is at most `n`.
pub open spec fn is_integer_root(r: int, n: int) -> bool {
    0 <= r && r * r <= n < (r + 1) * (r + 1)
}

pub open spec fn integer_root(n: int) -> int {
    choose|r: int| is_integer_root(r, n)
}

/// Partial sums of the power series that cosine, sine and the exponential share:
/// each term follows from the one before it by the factor `step / divisor`.
pub open spec fn series(term: Fixed, step: Fixed, stride: int, index: int, terms: nat) -> Fixed
    decreases terms,
{
    if terms == 0 {
        Fixed { units: 0 }
    } else {
        let divisor = if stride == 1 {
            index
        } else {
            index * (index + 1)
        };
        let next = term.product(step).quotient(Fixed::fraction(divisor, 1));
        term.sum(series(next, step, stride, index + stride, (terms - 1) as nat))
    }
}

fn saturate(n: i128) -> (r: Fixed)
    ensures
        r == saturated(n as int),
{
    if n > i64::MAX as i128 {
        Fixed { units: i64::MAX }
    } else if n < i64::MIN as i128 {
        Fixed { units: i64::MIN }
    } else {
        Fixed { units: n as i64 }
    }
}

/// Division that rounds towards negative infinity.
fn floor_div(a: i128, b: i128) -> (r: i128)
    requires
        b > 0,
        a > i128::MIN,
    ensures
        r as int == a as int / b as int,
{
    if a >= 0 {
        a / b
    } else {
        let m: i128 = -a;
        let q: i128 = m / b;
        let e: i128 = m % b;
        proof {
            lemma_fundamental_div_mod(m as int, b as int);
        }
        if e == 0 {
            proof {
                assert(a as int == b as int * (-(q as int))) by (nonlinear_arith)
                    requires
                        m as int == b as int * q as int + e as int,
                        e == 0,
                        a as int == -(m as int),
                ;
                lemma_fundamental_div_mod_converse(a as int, b as int, -(q as int), 0);
            }
            -q
        } else {
            proof {
                assert(a as int == b as int * (-(q as int) - 1) + (b as int - e as int))
                    by (nonlinear_arith)
                    requires
                        m as int == b as int * q as int + e as int,
                        a as int == -(m as int),
                ;
                lemma_fundamental_div_mod_converse(
                    a as int,
                    b as int,
                    -(q as int) - 1,
                    b as int - e as int,
                );
            }
            -q - 1
        }
    }
}

/// At most one whole number is the integer root of `n`.
proof fn integer_root_unique(r: int, s: int, n: int)
    requires
        is_integer_root(r, n),
        is_integer_root(s, n),
    ensures
        r == s,
{
    if r < s {
        assert((r + 1) * (r + 1) <= s * s) by (nonlinear_arith)
            requires
                0 <= r,
                r + 1 <= s,
        ;
    }
    if s < r {
        assert((s + 1) * (s + 1) <= r * r) by (nonlinear_arith)
            requires
                0 <= s,
                s + 1 <= r,
        ;
    }
}

/// The square root by bisection.
fn floor_root(n: i128) -> (r: i128)
    requires
        0 <= n <= i64::MAX * SCALE,
    ensures
        r as int == integer_root(n as int),
        0 <= r <= 100_000_000_000_000,
{
    let mut lo: i128 = 0;
    let mut hi: i128 = 100_000_000_000_000;
    assert((hi + 1) * (hi + 1) > n) by (nonlinear_arith)
        requires
            hi == 100_000_000_000_000,
            n <= i64::MAX * 1_000_000_000,
    ;
    while lo < hi
        invariant
            0 <= lo <= hi <= 100_000_000_000_000,
            lo * lo <= n,
            n < (hi + 1) * (hi + 1),
        decreases hi - lo,
    {
        let mid: i128 = lo + (hi - lo + 1) / 2;
        assert(0 <= mid * mid <= 100_000_000_000_000 * 100_000_000_000_000) by (nonlinear_arith)
            requires
                0 <= mid <= 100_000_000_000_000,
        ;
        if mid * mid <= n {
            lo = mid;
        } else {
            hi = mid - 1;
        }
    }
    proof {
        assert(is_integer_root(lo as int, n as int));
        integer_root_unique(lo as int, integer_root(n as int), n as int);
    }
    lo
}

/// The terms of [`series`] added from the last to the first.
fn add_series(term: Fixed, step: Fixed, stride: i64, index: i64, terms: u32) -> (r: Fixed)
    requires
        1 <= stride <= 2,
        1 <= index,
        index + stride * terms <= 1000,
    ensures
        r == series(term, step, stride as int, index as int, terms as nat),
    decreases terms,
{
    if terms == 0 {
        Fixed { units: 0 }
    } else {
        assert(1 <= index * (index + 1) <= 1001 * 1001) by (nonlinear_arith)
            requires
                1 <= index <= 1000,
        ;
        let divisor: i64 = if stride == 1 {
            index
        } else {
            index * (index + 1)
        };
        let next = term.mul(step).div(Fixed::ratio(divisor, 1));
        assert(index + stride + stride * (terms - 1) == index + stride * terms) by (nonlinear_arith);
        let rest = add_series(next, step, stride, index + stride, terms - 1);
        term.add(rest)
    }
}

impl Scalar for Fixed {
    open spec fn sum(self, other: Self) -> Self {
        saturated(self.units + other.units)
    }

    open spec fn difference(self, other: Self) -> Self {
        saturated(self.units - other.units)
    }

    open spec fn product(self, other: Self) -> Self {
        saturated((self.units * other.units) / (SCALE as int))
    }

    open spec fn quotient(self, other: Self) -> Self {
        if other.units > 0 {
            saturated((self.units * SCALE) / (other.units as int))
        } else if other.units < 0 {
            saturated((-self.units * SCALE) / (-other.units))
        } else if self.units > 0 {
            Fixed { units: i64::MAX }
        } else if self.units < 0 {
            Fixed { units: i64::MIN }
        } else {
            Fixed { units: 0 }
        }
    }

    open spec fn opposite(self) -> Self {
        saturated(-self.units)
    }

    open spec fn magnitude(self) -> Self {
        if self.units < 0 {
            saturated(-self.units)
        } else {
            self
        }
    }

    open spec fn square_root(self) -> Self {
        if self.units <= 0 {
            Fixed { units: 0 }
        } else {
            saturated(integer_root(self.units * SCALE))
        }
    }

    open spec fn cosine(self) -> Self {
        series(Fixed::fraction(1, 1), self.product(self).opposite(), 2, 1, 20)
    }

    open spec fn sine(self) -> Self {
        series(self, self.product(self).opposite(), 2, 2, 20)
    }

    open spec fn exponential(self) -> Self {
        series(Fixed::fraction(1, 1), self, 1, 1, 40)
    }

    open spec fn below(self, other: Self) -> bool {
        self.units < other.units
    }

    open spec fn at_most(self, other: Self) -> bool {
        self.units <= other.units
    }

    open spec fn same(self, other: Self) -> bool {
        self.units == other.units
    }

    open spec fn lesser(self, other: Self) -> Self {
        if self.units < other.units {
            self
        } else {
            other
        }
    }

    open spec fn greater(self, other: Self) -> Self {
        if other.units < self.units {
            self
        } else {
            other
        }
    }

    open spec fn fraction(numerator: int, denominator: int) -> Self {
        saturated((numerator * SCALE) / denominator)
    }

    open spec fn whole(n: nat) -> Self {
        saturated(n * SCALE)
    }

    open spec fn largest() -> Self {
        Fixed { units: i64::MAX }
    }

    open spec fn unbounded() -> Self {
        Fixed { units: i64::MAX }
    }

    open spec fn finite(self) -> bool {
        -i64::MAX < self.units < i64::MAX
    }

    fn add(self, other: Self) -> Self {
        saturate(self.units as i128 + other.units as i128)
    }

    fn sub(self, other: Self) -> Self {
        saturate(self.units as i128 - other.units as i128)
    }

    fn mul(self, other: Self) -> Self {
        let a: i128 = self.units as i128;
        let b: i128 = other.units as i128;
        assert(-0x4000_0000_0000_0000_0000_0000_0000_0000 <= a * b
            <= 0x4000_0000_0000_0000_0000_0000_0000_0000) by (nonlinear_arith)
            requires
                -0x8000_0000_0000_0000 <= a <= 0x7fff_ffff_ffff_ffff,
                -0x8000_0000_0000_0000 <= b <= 0x7fff_ffff_ffff_ffff,
        ;
        saturate(floor_div(a * b, SCALE))
    }

    fn div(self, other: Self) -> Self {
        if other.units > 0 {
            saturate(floor_div(self.units as i128 * SCALE, other.units as i128))
        } else if other.units < 0 {
            saturate(floor_div(-(self.units as i128) * SCALE, -(other.units as i128)))
        } else if self.units > 0 {
            Fixed { units: i64::MAX }
        } else if self.units < 0 {
            Fixed { units: i64::MIN }
        } else {
            Fixed { units: 0 }
        }
    }

    fn neg(self) -> Self {
        saturate(-(self.units as i128))
    }

    fn abs(self) -> Self {
        if self.units < 0 {
            saturate(-(self.units as i128))
        } else {
            self
        }
    }

    fn sqrt(self) -> Self {
        if self.units <= 0 {
            Fixed { units: 0 }
        } else {
            saturate(floor_root(self.units as i128 * SCALE))
        }
    }

    fn cos(self) -> Self {
        add_series(Fixed::ratio(1, 1), self.mul(self).neg(), 2, 1, 20)
    }

    fn sin(self) -> Self {
        add_series(self, self.mul(self).neg(), 2, 2, 20)
    }

    fn exp(self) -> Self {
        add_series(Fixed::ratio(1, 1), self, 1, 1, 40)
    }

    fn lt(self, other: Self) -> bool {
        self.units < other.units
    }

    fn le(self, other: Self) -> bool {
        self.units <= other.units
    }

    fn eq(self, other: Self) -> bool {
        self.units == other.units
    }

    fn min(self, other: Self) -> Self {
        if self.units < other.units {
            self
        } else {
            other
        }
    }

    fn max(self, other: Self) -> Self {
        if other.units < self.units {
            self
        } else {
            other
        }
    }

    fn ratio(numerator: i64, denominator: i64) -> Self {
        saturate(floor_div(numerator as i128 * SCALE, denominator as i128))
    }

    fn count(n: usize) -> Self {
        saturate(n as i128 * SCALE)
    }

    fn max_value() -> Self {
        Fixed { units: i64::MAX }
    }

    fn infinity() -> Self {
        Fixed { units: i64::MAX }
    }

    fn is_finite(self) -> bool {
        -i64::MAX < self.units && self.units < i64::MAX
    }
}

impl Ordered for Fixed {
    proof fn below_irreflexive(self) {
    }

    proof fn below_transitive(self, middle: Self, upper: Self) {
    }

    proof fn at_most_vs_below(self, other: Self) {
    }

    proof fn lesser_is_lesser(self, other: Self) {
    }

    proof fn greater_is_greater(self, other: Self) {
    }

    proof fn fractions_ordered(n1: int, d1: int, n2: int, d2: int) {
        let a = (n1 * SCALE) / d1;
        let b = (n2 * SCALE) / d2;
        lemma_fundamental_div_mod(n1 * SCALE, d1);
        lemma_fundamental_div_mod(n2 * SCALE, d2);
        lemma_mod_bound(n2 * SCALE, d2);
        assert((b + 1) * d2 == d2 * b + d2) by (nonlinear_arith);
        if b < a {
            // a * d1 <= n1 * SCALE and n2 * SCALE < (b + 1) * d2 <= a * d2.
            assert(false) by (nonlinear_arith)
                requires
                    a * d1 <= n1 * 1_000_000_000,
                    n2 * 1_000_000_000 < (b + 1) * d2,
                    b + 1 <= a,
                    d1 > 0,
                    d2 > 0,
                    n1 * d2 <= n2 * d1,
            {
                assert(n2 * 1_000_000_000 < a * d2);
                assert(n2 * 1_000_000_000 * d1 < a * d2 * d1);
                assert(a * d1 * d2 <= n1 * 1_000_000_000 * d2);
                assert(a * d2 * d1 == a * d1 * d2);
                assert(n1 * 1_000_000_000 * d2 == 1_000_000_000 * (n1 * d2));
                assert(n2 * 1_000_000_000 * d1 == 1_000_000_000 * (n2 * d1));
            }
        }
    }
}

/// Rounding down and saturation keep the order of what they round.
proof fn rounding_monotone(p: int, q: int, d: int)
    requires
        p <= q,
        0 < d,
    ensures
        saturated(p / d).units <= saturated(q / d).units,
{
    lemma_div_is_ordered(p, q, d);
}

impl Monotone for Fixed {
    proof fn sum_monotone(a: Self, b: Self, c: Self, d: Self) {
    }

    proof fn sum_goes_by_sign(a: Self, b: Self) {
    }

    proof fn difference_monotone(a: Self, b: Self, c: Self, d: Self) {
    }

    proof fn difference_goes_by_order(a: Self, b: Self) {
    }

    proof fn product_monotone(a: Self, b: Self, c: Self, d: Self) {
        assert(0 <= a.units * b.units <= c.units * d.units) by (nonlinear_arith)
            requires
                0 <= a.units <= c.units,
                0 <= b.units <= d.units,
        ;
        rounding_monotone(0, a.units * b.units, SCALE as int);
        rounding_monotone(a.units * b.units, c.units * d.units, SCALE as int);
    }

    proof fn scaling_monotone(k: Self, a: Self, b: Self) {
        assert(k.units * a.units <= k.units * b.units) by (nonlinear_arith)
            requires
                0 <= k.units,
                a.units <= b.units,
        ;
        rounding_monotone(k.units * a.units, k.units * b.units, SCALE as int);
    }

    proof fn share_shrinks(share: Self, x: Self) {
        let p = share.units * x.units;
        let whole = SCALE * x.units;
        lemma_div_multiples_vanish(x.units as int, SCALE as int);
        if x.units >= 0 {
            assert(0 <= p <= whole) by (nonlinear_arith)
                requires
                    p == share.units * x.units,
                    whole == SCALE * x.units,
                    0 <= share.units <= SCALE,
                    0 <= x.units,
            ;
            rounding_monotone(0, p, SCALE as int);
            rounding_monotone(p, whole, SCALE as int);
        }
        if x.units <= 0 {
            assert(whole <= p <= 0) by (nonlinear_arith)
                requires
                    p == share.units * x.units,
                    whole == SCALE * x.units,
                    0 <= share.units <= SCALE,
                    x.units <= 0,
            ;
            rounding_monotone(whole, p, SCALE as int);
            rounding_monotone(p, 0, SCALE as int);
        }
    }

    proof fn quotient_monotone(a: Self, b: Self, divisor: Self) {
        rounding_monotone(a.units * SCALE, b.units * SCALE, divisor.units as int);
    }

    proof fn quotient_not_negative(a: Self, divisor: Self) {
        lemma_div_pos_is_pos(a.units * SCALE, divisor.units as int);
    }

    proof fn magnitude_not_negative(self) {
    }

    proof fn wholes_ordered(m: nat, n: nat) {
    }

    proof fn fraction_is_positive(n: int) {
        assert((n * SCALE) / 1 == n * SCALE);
    }

    proof fn above_fraction_is_positive(self, n: int, d: int) {
        assert(0 <= n * SCALE);
        lemma_div_pos_is_pos(n * SCALE, d);
    }
}

} // verus!
