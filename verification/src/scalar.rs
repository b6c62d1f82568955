//! The arithmetic that the engineering formulas of this crate are written in.
//!
//! Every quantity (a temperature, a flow, a coordinate) has a type that implements
//! [`Scalar`]. The formulas are stated over the operations of the trait, so one
//! contract covers each number type that a caller brings, and [`crate::fixed::Fixed`]
//! is one that is proved to meet it.
use vstd::prelude::*;

verus! {

/// The result of the operation number `which` on two numbers, with nothing said of it.
pub closed spec fn open_operation<T>(which: int, a: T, b: T) -> T {
    let result: spec_fn(int, T, T) -> T = arbitrary();
    result(which, a, b)
}

/// Whether the relation number `which` holds of two numbers, with nothing said of it.
pub closed spec fn open_relation<T>(which: int, a: T, b: T) -> bool {
    let holds: spec_fn(int, T, T) -> bool = arbitrary();
    holds(which, a, b)
}

/// The constant number `which` for two whole numbers, with nothing said of it.
pub closed spec fn open_constant<T>(which: int, n: int, d: int) -> T {
    let value: spec_fn(int, int, int) -> T = arbitrary();
    value(which, n, d)
}

/// A number type with the four operations, an order and a few elementary functions.
///
/// Each executable method returns what the specification function named in its
/// `ensures` says. A type that says nothing of a specification function leaves the
/// value of that operation open.
pub trait Scalar: Copy + Sized {
    closed spec fn sum(self, other: Self) -> Self {
        open_operation(0, self, other)
    }

    closed spec fn difference(self, other: Self) -> Self {
        open_operation(1, self, other)
    }

    closed spec fn product(self, other: Self) -> Self {
        open_operation(2, self, other)
    }

    closed spec fn quotient(self, other: Self) -> Self {
        open_operation(3, self, other)
    }

    closed spec fn opposite(self) -> Self {
        open_operation(4, self, self)
    }

    closed spec fn magnitude(self) -> Self {
        open_operation(5, self, self)
    }

    closed spec fn square_root(self) -> Self {
        open_operation(6, self, self)
    }

    closed spec fn cosine(self) -> Self {
        open_operation(7, self, self)
    }

    closed spec fn sine(self) -> Self {
        open_operation(8, self, self)
    }

    closed spec fn exponential(self) -> Self {
        open_operation(9, self, self)
    }

    /// `self` is strictly less than `other`.
    closed spec fn below(self, other: Self) -> bool {
        open_relation(10, self, other)
    }

    /// `self` is less than or equal to `other`.
    closed spec fn at_most(self, other: Self) -> bool {
        open_relation(11, self, other)
    }

    /// `self` and `other` are the same number.
    closed spec fn same(self, other: Self) -> bool {
        open_relation(12, self, other)
    }

    closed spec fn lesser(self, other: Self) -> Self {
        open_operation(13, self, other)
    }

    closed spec fn greater(self, other: Self) -> Self {
        open_operation(14, self, other)
    }

    /// The number nearest to `numerator / denominator`.
    closed spec fn fraction(numerator: int, denominator: int) -> Self {
        open_constant(15, numerator, denominator)
    }

    /// The number nearest to the whole number `n`.
    closed spec fn whole(n: nat) -> Self {
        open_constant(16, n as int, 1)
    }

    /// The largest finite number.
    closed spec fn largest() -> Self {
        open_constant(17, 0, 1)
    }

    /// A bound that no number exceeds.
    closed spec fn unbounded() -> Self {
        open_constant(18, 0, 1)
    }

    closed spec fn finite(self) -> bool {
        open_relation(19, self, self)
    }

    fn add(self, other: Self) -> (r: Self)
        ensures
            r == self.sum(other),
    ;

    fn sub(self, other: Self) -> (r: Self)
        ensures
            r == self.difference(other),
    ;

    fn mul(self, other: Self) -> (r: Self)
        ensures
            r == self.product(other),
    ;

    fn div(self, other: Self) -> (r: Self)
        ensures
            r == self.quotient(other),
    ;

    fn neg(self) -> (r: Self)
        ensures
            r == self.opposite(),
    ;

    fn abs(self) -> (r: Self)
        ensures
            r == self.magnitude(),
    ;

    fn sqrt(self) -> (r: Self)
        ensures
            r == self.square_root(),
    ;

    fn cos(self) -> (r: Self)
        ensures
            r == self.cosine(),
    ;

    fn sin(self) -> (r: Self)
        ensures
            r == self.sine(),
    ;

    fn exp(self) -> (r: Self)
        ensures
            r == self.exponential(),
    ;

    fn lt(self, other: Self) -> (r: bool)
        ensures
            r == self.below(other),
    ;

    fn le(self, other: Self) -> (r: bool)
        ensures
            r == self.at_most(other),
    ;

    fn eq(self, other: Self) -> (r: bool)
        ensures
            r == self.same(other),
    ;

    fn min(self, other: Self) -> (r: Self)
        ensures
            r == self.lesser(other),
    ;

    fn max(self, other: Self) -> (r: Self)
        ensures
            r == self.greater(other),
    ;

    fn ratio(numerator: i64, denominator: i64) -> (r: Self)
        requires
            denominator > 0,
        ensures
            r == Self::fraction(numerator as int, denominator as int),
    ;

    fn count(n: usize) -> (r: Self)
        ensures
            r == Self::whole(n as nat),
    ;

    fn max_value() -> (r: Self)
        ensures
            r == Self::largest(),
    ;

    fn infinity() -> (r: Self)
        ensures
            r == Self::unbounded(),
    ;

    fn is_finite(self) -> (r: bool)
        ensures
            r == self.finite(),
    ;
}

/// The order of a number type, as far as the laws of this crate rely on it.
///
/// The order is only asked to be a strict partial order, so that a type with values
/// that compare with nothing is welcome too.
pub trait Ordered: Scalar {
    /// No number is below itself.
    proof fn below_irreflexive(self)
        ensures
            !self.below(self),
    ;

    proof fn below_transitive(self, middle: Self, upper: Self)
        requires
            self.below(middle),
            middle.below(upper),
        ensures
            self.below(upper),
    ;

    /// `<` implies `<=`, and `<=` excludes the reverse `<`.
    proof fn at_most_vs_below(self, other: Self)
        ensures
            self.below(other) ==> self.at_most(other),
            self.at_most(other) ==> !other.below(self),
    ;

    /// The lesser of two numbers is one of them, and neither is below it.
    proof fn lesser_is_lesser(self, other: Self)
        ensures
            self.lesser(other) == self || self.lesser(other) == other,
            !self.below(self.lesser(other)),
            !other.below(self.lesser(other)),
    ;

    /// The greater of two numbers is one of them, and it is below neither.
    proof fn greater_is_greater(self, other: Self)
        ensures
            self.greater(other) == self || self.greater(other) == other,
            !self.greater(other).below(self),
            !self.greater(other).below(other),
    ;

    /// Fractions keep the order of the rationals that they stand for.
    proof fn fractions_ordered(n1: int, d1: int, n2: int, d2: int)
        requires
            d1 > 0,
            d2 > 0,
            n1 * d2 <= n2 * d1,
        ensures
            !Self::fraction(n2, d2).below(Self::fraction(n1, d1)),
    ;
}

/// A number type whose operations keep the order of their operands, as they do wherever the
/// exact result is rounded to the nearest number.
///
/// All of it is said in terms of what is not below what, so that it also holds of a type with
/// values that compare with nothing.
pub trait Monotone: Ordered {
    proof fn sum_monotone(a: Self, b: Self, c: Self, d: Self)
        requires
            !c.below(a),
            !d.below(b),
        ensures
            !c.sum(d).below(a.sum(b)),
    ;

    /// What is added moves a number the way its sign says.
    proof fn sum_goes_by_sign(a: Self, b: Self)
        ensures
            !b.below(Self::fraction(0, 1)) ==> !a.sum(b).below(a),
            !Self::fraction(0, 1).below(b) ==> !a.below(a.sum(b)),
    ;

    /// A difference grows with what is taken from and shrinks with what is taken away.
    proof fn difference_monotone(a: Self, b: Self, c: Self, d: Self)
        requires
            !c.below(a),
            !b.below(d),
        ensures
            !c.difference(d).below(a.difference(b)),
    ;

    /// The sign of a difference says which of the two is less, and what is taken away lowers.
    proof fn difference_goes_by_order(a: Self, b: Self)
        ensures
            !a.below(b) ==> !a.difference(b).below(Self::fraction(0, 1)),
            !b.below(a) ==> !Self::fraction(0, 1).below(a.difference(b)),
            b.below(a) ==> Self::fraction(0, 1).below(a.difference(b)),
            !b.below(Self::fraction(0, 1)) ==> !a.below(a.difference(b)),
    ;

    /// Products of numbers that are not negative are not negative, and grow with them.
    proof fn product_monotone(a: Self, b: Self, c: Self, d: Self)
        requires
            !a.below(Self::fraction(0, 1)),
            !b.below(Self::fraction(0, 1)),
            !c.below(a),
            !d.below(b),
        ensures
            !a.product(b).below(Self::fraction(0, 1)),
            !c.product(d).below(a.product(b)),
    ;

    /// A factor that is not negative keeps the order.
    proof fn scaling_monotone(k: Self, a: Self, b: Self)
        requires
            !k.below(Self::fraction(0, 1)),
            !b.below(a),
        ensures
            !k.product(b).below(k.product(a)),
    ;

    /// A share of a number lies between zero and the number.
    proof fn share_shrinks(share: Self, x: Self)
        requires
            !share.below(Self::fraction(0, 1)),
            !Self::fraction(1, 1).below(share),
        ensures
            !x.below(Self::fraction(0, 1)) ==> {
                &&& !share.product(x).below(Self::fraction(0, 1))
                &&& !x.below(share.product(x))
            },
            !Self::fraction(0, 1).below(x) ==> {
                &&& !Self::fraction(0, 1).below(share.product(x))
                &&& !share.product(x).below(x)
            },
    ;

    proof fn quotient_monotone(a: Self, b: Self, divisor: Self)
        requires
            Self::fraction(0, 1).below(divisor),
            !b.below(a),
        ensures
            !b.quotient(divisor).below(a.quotient(divisor)),
    ;

    proof fn quotient_not_negative(a: Self, divisor: Self)
        requires
            Self::fraction(0, 1).below(divisor),
            !a.below(Self::fraction(0, 1)),
        ensures
            !a.quotient(divisor).below(Self::fraction(0, 1)),
    ;

    proof fn magnitude_not_negative(self)
        ensures
            !self.magnitude().below(Self::fraction(0, 1)),
    ;

    /// Whole numbers keep their order; none is negative, and those above zero are positive.
    proof fn wholes_ordered(m: nat, n: nat)
        requires
            m <= n,
        ensures
            !Self::whole(n).below(Self::whole(m)),
            !Self::whole(m).below(Self::fraction(0, 1)),
            0 < m ==> Self::fraction(0, 1).below(Self::whole(m)),
    ;

    /// Whole numbers above zero are positive as fractions too.
    proof fn fraction_is_positive(n: int)
        requires
            0 < n,
        ensures
            Self::fraction(0, 1).below(Self::fraction(n, 1)),
    ;

    /// A number above a fraction that is not negative is positive.
    proof fn above_fraction_is_positive(self, n: int, d: int)
        requires
            0 <= n,
            0 < d,
            Self::fraction(n, d).below(self),
        ensures
            Self::fraction(0, 1).below(self),
    ;
}

#[verifier::allow_in_spec]
pub fn plus<T: Scalar>(a: T, b: T) -> T
    returns
        a.sum(b),
{
    a.add(b)
}

#[verifier::allow_in_spec]
pub fn minus<T: Scalar>(a: T, b: T) -> T
    returns
        a.difference(b),
{
    a.sub(b)
}

#[verifier::allow_in_spec]
pub fn times<T: Scalar>(a: T, b: T) -> T
    returns
        a.product(b),
{
    a.mul(b)
}

#[verifier::allow_in_spec]
pub fn over<T: Scalar>(a: T, b: T) -> T
    returns
        a.quotient(b),
{
    a.div(b)
}

#[verifier::allow_in_spec]
pub fn negated<T: Scalar>(a: T) -> T
    returns
        a.opposite(),
{
    a.neg()
}

#[verifier::allow_in_spec]
pub fn absolute<T: Scalar>(a: T) -> T
    returns
        a.magnitude(),
{
    a.abs()
}

#[verifier::allow_in_spec]
pub fn root<T: Scalar>(a: T) -> T
    returns
        a.square_root(),
{
    a.sqrt()
}

#[verifier::allow_in_spec]
pub fn cosine<T: Scalar>(a: T) -> T
    returns
        a.cosine(),
{
    a.cos()
}

#[verifier::allow_in_spec]
pub fn sine<T: Scalar>(a: T) -> T
    returns
        a.sine(),
{
    a.sin()
}

#[verifier::allow_in_spec]
pub fn exponential<T: Scalar>(a: T) -> T
    returns
        a.exponential(),
{
    a.exp()
}

#[verifier::allow_in_spec]
pub fn lt<T: Scalar>(a: T, b: T) -> bool
    returns
        a.below(b),
{
    a.lt(b)
}

#[verifier::allow_in_spec]
pub fn le<T: Scalar>(a: T, b: T) -> bool
    returns
        a.at_most(b),
{
    a.le(b)
}

#[verifier::allow_in_spec]
pub fn gt<T: Scalar>(a: T, b: T) -> bool
    returns
        b.below(a),
{
    b.lt(a)
}

#[verifier::allow_in_spec]
pub fn ge<T: Scalar>(a: T, b: T) -> bool
    returns
        b.at_most(a),
{
    b.le(a)
}

#[verifier::allow_in_spec]
pub fn same<T: Scalar>(a: T, b: T) -> bool
    returns
        a.same(b),
{
    a.eq(b)
}

#[verifier::allow_in_spec]
pub fn least<T: Scalar>(a: T, b: T) -> T
    returns
        a.lesser(b),
{
    a.min(b)
}

#[verifier::allow_in_spec]
pub fn most<T: Scalar>(a: T, b: T) -> T
    returns
        a.greater(b),
{
    a.max(b)
}

/// The constant `numerator / denominator`.
#[verifier::allow_in_spec]
pub fn lit<T: Scalar>(numerator: i64, denominator: i64) -> T
    requires
        denominator > 0,
    returns
        T::fraction(numerator as int, denominator as int),
{
    T::ratio(numerator, denominator)
}

/// The whole constant `n`.
#[verifier::allow_in_spec]
pub fn num<T: Scalar>(n: i64) -> T
    returns
        T::fraction(n as int, 1),
{
    T::ratio(n, 1)
}

/// A count of items as a number.
#[verifier::allow_in_spec]
pub fn count<T: Scalar>(n: usize) -> T
    returns
        T::whole(n as nat),
{
    T::count(n)
}

/// `lo` and `hi` can bound a range.
#[verifier::allow_in_spec]
pub fn in_order<T: Scalar>(lo: T, hi: T) -> bool
    returns
        lo.at_most(hi),
{
    lo.le(hi)
}

/// `x` held between `lo` and `hi`.
#[verifier::allow_in_spec]
pub fn clamp<T: Scalar>(x: T, lo: T, hi: T) -> T
    returns
        (if x.below(lo) {
            lo
        } else if hi.below(x) {
            hi
        } else {
            x
        }),
{
    if x.lt(lo) {
        lo
    } else if hi.lt(x) {
        hi
    } else {
        x
    }
}

/// The ratio of a circle's circumference to its diameter, to sixteen digits.
#[verifier::allow_in_spec]
pub fn pi<T: Scalar>() -> T
    returns
        T::fraction(3141592653589793, 1000000000000000),
{
    T::ratio(3141592653589793, 1000000000000000)
}

/// Clamping keeps the order of two values.
pub proof fn clamp_monotone<T: Ordered>(x: T, y: T, lo: T, hi: T)
    requires
        !hi.below(lo),
        !y.below(x),
    ensures
        !clamp(y, lo, hi).below(clamp(x, lo, hi)),
{
    lo.below_irreflexive();
    hi.below_irreflexive();
    if clamp(y, lo, hi).below(clamp(x, lo, hi)) {
        if y.below(lo) {
            y.below_transitive(lo, clamp(x, lo, hi));
        }
        if hi.below(x) {
            if y.below(lo) {
                y.below_transitive(hi, x);
            } else {
                clamp(y, lo, hi).below_transitive(hi, x);
            }
        }
    }
}

/// A clamped value never leaves its bounds.
pub proof fn clamp_stays_within<T: Ordered>(x: T, lo: T, hi: T)
    requires
        !hi.below(lo),
    ensures
        !clamp(x, lo, hi).below(lo),
        !hi.below(clamp(x, lo, hi)),
{
    lo.below_irreflexive();
    hi.below_irreflexive();
}

} // verus!
