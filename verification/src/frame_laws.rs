//! The axes of the plane of a surface, on fixed-point numbers: they are perpendicular and of
//! length one but for rounding.
use crate::fixed;
use crate::fixed::Fixed;
use crate::geometry::{Point3D, Vec3};
use crate::plane_laws;
use crate::plane_laws::{exact_dot, nearly_orthonormal};
use crate::scalar::Scalar;
use crate::shading;
use crate::shading::Point2D;
use vstd::arithmetic::div_mod::*;
use vstd::prelude::*;

verus! {

/// No component of a vector is longer than `reach` units.
pub open spec fn vector_within(v: Vec3<Fixed>, reach: int) -> bool {
    &&& -reach <= v.x.units <= reach
    &&& -reach <= v.y.units <= reach
    &&& -reach <= v.z.units <= reach
}

// ---------------------------------------------------------------------------
// Lengths

/// Every number that is not negative has an integer root.
pub proof fn integer_root_exists(n: int)
    requires
        0 <= n,
    ensures
        fixed::is_integer_root(fixed::integer_root(n), n),
    decreases n,
{
    if n == 0 {
        assert(fixed::is_integer_root(0, 0));
    } else {
        integer_root_exists(n - 1);
        let r = fixed::integer_root(n - 1);
        if (r + 1) * (r + 1) <= n {
            assert((r + 2) * (r + 2) > n) by (nonlinear_arith)
                requires
                    n - 1 < (r + 1) * (r + 1),
                    0 <= r,
            ;
            assert(fixed::is_integer_root(r + 1, n));
        } else {
            assert(fixed::is_integer_root(r, n));
        }
    }
}

proof fn square_is_rounded(a: Fixed)
    requires
        -10_000_000_000_000 <= a.units <= 10_000_000_000_000,
    ensures
        ({
            let p = a.product(a).units;
            &&& fixed::SCALE * p <= a.units * a.units < fixed::SCALE * p + fixed::SCALE
            &&& 0 <= p <= 100_000_000_000_000_000
        }),
{
    let exact = a.units * a.units;
    assert(0 <= exact <= 100_000_000_000_000_000_000_000_000) by (nonlinear_arith)
        requires
            exact == a.units * a.units,
            -10_000_000_000_000 <= a.units <= 10_000_000_000_000,
    ;
    lemma_fundamental_div_mod(exact, fixed::SCALE as int);
    lemma_mod_bound(exact, fixed::SCALE as int);
}

/// The length of a vector, next to the exact one.
pub proof fn length_is_rounded(e: Vec3<Fixed>)
    requires
        vector_within(e, 10_000_000_000_000),
        e.length().units > 0,
    ensures
        ({
            let l = e.length().units;
            &&& l * l <= exact_dot(e, e) < (l + 1) * (l + 1) + 3 * fixed::SCALE
            &&& l <= 1_000_000_000_000_000
        }),
{
    square_is_rounded(e.x);
    square_is_rounded(e.y);
    square_is_rounded(e.z);
    let f = e.x.product(e.x).sum(e.y.product(e.y)).sum(e.z.product(e.z));
    let n = f.units * fixed::SCALE;
    integer_root_exists(n);
    let r = fixed::integer_root(n);
    assert(r <= 1_000_000_000_000_000) by (nonlinear_arith)
        requires
            r * r <= n,
            n <= 300_000_000_000_000_000 * 1_000_000_000,
            0 <= r,
    ;
    assert(e.length().units == r);
}

// ---------------------------------------------------------------------------
// Vectors of length one

/// How much the square of a vector of length one may be off, in units, where what it was made
/// from was at least one part in `k` of a metre long.
pub open spec fn unit_slack(k: int) -> int {
    3 * k * k + 3 * k + 13
}

/// One component of a vector of length one: `lost` is what rounding took from it.
proof fn component_of_unit(e: Fixed, l: Fixed) -> (lost: int)
    requires
        l.units > 0,
        -2 * l.units <= e.units <= 2 * l.units,
    ensures
        e.quotient(l).units * l.units == e.units * fixed::SCALE - lost,
        0 <= lost < l.units,
        -2 * fixed::SCALE <= e.quotient(l).units <= 2 * fixed::SCALE,
{
    let exact = e.units * fixed::SCALE;
    let d = l.units as int;
    let q = exact / d;
    lemma_fundamental_div_mod(exact, d);
    lemma_mod_bound(exact, d);
    assert(-2_000_000_000 <= q <= 2_000_000_000) by (nonlinear_arith)
        requires
            exact == d * q + exact % d,
            0 <= exact % d < d,
            -2 * d * 1_000_000_000 <= exact <= 2 * d * 1_000_000_000,
            d > 0,
    ;
    assert(d * q == q * d) by (nonlinear_arith);
    exact % d
}

/// No component of a vector is more than twice as long as its length.
proof fn components_within_length(e: Vec3<Fixed>, k: int)
    requires
        vector_within(e, 10_000_000_000_000),
        e.length().units > 0,
        1 <= k <= 1000,
        e.length().units * k >= fixed::SCALE,
    ensures
        vector_within(e, 2 * e.length().units),
{
    length_is_rounded(e);
    let l = e.length().units as int;
    let (x, y, z) = (e.x.units as int, e.y.units as int, e.z.units as int);
    assert(l >= 1_000_000) by (nonlinear_arith)
        requires
            l * k >= 1_000_000_000,
            1 <= k <= 1000,
    ;
    assert(0 <= x * x && 0 <= y * y && 0 <= z * z) by (nonlinear_arith);
    assert(exact_dot(e, e) < 4 * (l * l)) by (nonlinear_arith)
        requires
            exact_dot(e, e) < (l + 1) * (l + 1) + 3_000_000_000,
            l >= 1_000_000,
    ;
    component_within(x, l, exact_dot(e, e));
    component_within(y, l, exact_dot(e, e));
    component_within(z, l, exact_dot(e, e));
}

proof fn component_within(c: int, l: int, total: int)
    requires
        c * c <= total,
        total < 4 * (l * l),
        0 <= l,
    ensures
        -2 * l <= c <= 2 * l,
{
    if c > 2 * l {
        assert(c * c > 4 * (l * l)) by (nonlinear_arith)
            requires
                c > 2 * l,
                0 <= l,
        ;
    }
    if c < -2 * l {
        assert(c * c > 4 * (l * l)) by (nonlinear_arith)
            requires
                c < -2 * l,
                0 <= l,
        ;
    }
}

/// What one component adds to the square of a vector of length one, times the square of the
/// length.
proof fn square_of_component(w: int, l: int, e: int, lost: int)
    requires
        w * l == e * 1_000_000_000 - lost,
        0 <= lost < l,
        -2 * l <= e <= 2 * l,
    ensures
        ({
            let off = (l * l) * (w * w) - 1_000_000_000_000_000_000 * (e * e);
            -4_000_000_000 * (l * l) <= off <= 4_000_000_001 * (l * l)
        }),
{
    let exact = e * 1_000_000_000 - lost;
    let off = lost * lost - 2_000_000_000 * (e * lost);
    assert((l * l) * (w * w) == (w * l) * (w * l)) by (nonlinear_arith);
    assert(exact * exact == 1_000_000_000_000_000_000 * (e * e) + off) by (nonlinear_arith)
        requires
            exact == e * 1_000_000_000 - lost,
            off == lost * lost - 2_000_000_000 * (e * lost),
    ;
    assert(w * l == exact);
    assert(0 <= lost * lost <= l * l) by (nonlinear_arith)
        requires
            0 <= lost < l,
    ;
    assert(-2 * (l * l) <= e * lost <= 2 * (l * l)) by (nonlinear_arith)
        requires
            0 <= lost < l,
            -2 * l <= e <= 2 * l,
    ;
    assert((w * l) * (w * l) == exact * exact);
    let l2 = l * l;
    assert(-4_000_000_000 * l2 <= off <= 4_000_000_001 * l2);
    assert((l * l) * (w * w) - 1_000_000_000_000_000_000 * (e * e) == off);
}

/// The square of a vector of length one is one, but for rounding.
proof fn unit_vector_is_near_one(e: Vec3<Fixed>, k: int)
    requires
        vector_within(e, 10_000_000_000_000),
        1 <= k <= 1000,
        e.length().units > 0,
        e.length().units * k >= fixed::SCALE,
    ensures
        ({
            let w = e.normalize();
            let off = exact_dot(w, w) - 1_000_000_000_000_000_000;
            &&& -unit_slack(k) * fixed::SCALE <= off <= unit_slack(k) * fixed::SCALE
            &&& vector_within(w, 2 * fixed::SCALE)
        }),
{
    length_is_rounded(e);
    components_within_length(e, k);
    let length = e.length();
    let l = length.units as int;
    assert(Fixed::fraction(1, 10_000_000_000).units == 0);
    let w = e.normalize();
    let lost_x = component_of_unit(e.x, length);
    let lost_y = component_of_unit(e.y, length);
    let lost_z = component_of_unit(e.z, length);
    let (x, y, z) = (e.x.units as int, e.y.units as int, e.z.units as int);
    let (a, b, c) = (w.x.units as int, w.y.units as int, w.z.units as int);
    square_of_component(a, l, x, lost_x);
    square_of_component(b, l, y, lost_y);
    square_of_component(c, l, z, lost_z);
    unit_square(
        l,
        k,
        x * x,
        y * y,
        z * z,
        a * a,
        b * b,
        c * c,
    );
}

proof fn unit_square(l: int, k: int, x2: int, y2: int, z2: int, a2: int, b2: int, c2: int)
    requires
        1 <= k <= 1000,
        0 < l,
        l * k >= 1_000_000_000,
        l * l <= x2 + y2 + z2 < (l + 1) * (l + 1) + 3_000_000_000,
        -4_000_000_000 * (l * l) <= (l * l) * a2 - 1_000_000_000_000_000_000 * x2 <= 4_000_000_001
            * (l * l),
        -4_000_000_000 * (l * l) <= (l * l) * b2 - 1_000_000_000_000_000_000 * y2 <= 4_000_000_001
            * (l * l),
        -4_000_000_000 * (l * l) <= (l * l) * c2 - 1_000_000_000_000_000_000 * z2 <= 4_000_000_001
            * (l * l),
    ensures
        -unit_slack(k) * 1_000_000_000 <= a2 + b2 + c2 - 1_000_000_000_000_000_000
            <= unit_slack(k) * 1_000_000_000,
{
    let square: int = 1_000_000_000_000_000_000;
    let scale: int = 1_000_000_000;
    let total = a2 + b2 + c2;
    let l2 = l * l;
    let over = x2 + y2 + z2 - l2;
    assert(0 <= over <= 2 * l + 3 * scale) by (nonlinear_arith)
        requires
            over == x2 + y2 + z2 - l2,
            l2 == l * l,
            l2 <= x2 + y2 + z2 < (l + 1) * (l + 1) + 3 * scale,
    ;
    // What is over is small next to the square of the length.
    assert(scale * over <= (3 * k * k + 3 * k) * l2) by (nonlinear_arith)
        requires
            over <= 2 * l + 3 * scale,
            l * k >= scale,
            l2 == l * l,
            0 < l,
            1 <= k,
            scale == 1_000_000_000,
    {
        assert(scale * scale <= (l * k) * (l * k)) by (nonlinear_arith)
            requires
                scale <= l * k,
                0 <= scale,
        ;
        assert((l * k) * (l * k) == k * k * (l * l)) by (nonlinear_arith);
        assert(scale * l <= (l * k) * l) by (nonlinear_arith)
            requires
                scale <= l * k,
                0 < l,
        ;
        assert((l * k) * l == k * (l * l)) by (nonlinear_arith);
        assert(scale * over <= 2 * (scale * l) + 3 * (scale * scale)) by (nonlinear_arith)
            requires
                over <= 2 * l + 3 * scale,
                0 <= scale,
        ;
        assert((3 * k * k + 3 * k) * l2 == 3 * (k * k * (l * l)) + 3 * (k * (l * l)))
            by (nonlinear_arith)
            requires
                l2 == l * l,
        ;
        assert(k * (l * l) >= 0) by (nonlinear_arith)
            requires
                1 <= k,
        ;
    }
    let part = 3 * k * k + 3 * k;
    assert(l2 * total == l2 * a2 + l2 * b2 + l2 * c2) by (nonlinear_arith)
        requires
            total == a2 + b2 + c2,
    ;
    assert(square * over == scale * (scale * over)) by (nonlinear_arith)
        requires
            square == scale * scale,
    ;
    assert(l2 > 0) by (nonlinear_arith)
        requires
            l2 == l * l,
            0 < l,
    ;
    let most = (part + 13) * scale;
    assert(scale * (part * l2) + 13 * scale * l2 == most * l2) by (nonlinear_arith)
        requires
            most == (part + 13) * scale,
    ;
    assert(square * over <= scale * (part * l2));
    assert(part >= 0) by (nonlinear_arith)
        requires
            part == 3 * k * k + 3 * k,
            1 <= k,
    ;
    assert(part * l2 >= 0) by (nonlinear_arith)
        requires
            part >= 0,
            l2 > 0,
    ;
    let off = total - square;
    assert(l2 * off == l2 * total - square * l2) by (nonlinear_arith)
        requires
            off == total - square,
    ;
    assert(square * (x2 + y2 + z2) == square * over + square * l2) by (nonlinear_arith)
        requires
            over == x2 + y2 + z2 - l2,
    ;
    assert(-(most * l2) <= l2 * off <= most * l2);
    assert(-most <= off <= most) by (nonlinear_arith)
        requires
            -(most * l2) <= l2 * off <= most * l2,
            l2 > 0,
    ;
}

// ---------------------------------------------------------------------------
// The second axis

/// The cross product of two vectors, in squared units, without rounding.
pub open spec fn exact_cross(a: Vec3<Fixed>, b: Vec3<Fixed>) -> (int, int, int) {
    (
        a.y.units * b.z.units - a.z.units * b.y.units,
        a.z.units * b.x.units - a.x.units * b.z.units,
        a.x.units * b.y.units - a.y.units * b.x.units,
    )
}

/// A product of components of at most two, rounded.
proof fn short_product(a: Fixed, b: Fixed)
    requires
        -2 * fixed::SCALE <= a.units <= 2 * fixed::SCALE,
        -2 * fixed::SCALE <= b.units <= 2 * fixed::SCALE,
    ensures
        ({
            let p = a.product(b).units;
            &&& fixed::SCALE * p <= a.units * b.units < fixed::SCALE * p + fixed::SCALE
            &&& -5 * fixed::SCALE <= p <= 5 * fixed::SCALE
            &&& -4_000_000_000_000_000_000 <= a.units * b.units <= 4_000_000_000_000_000_000
        }),
{
    let exact = a.units * b.units;
    assert(-4_000_000_000_000_000_000 <= exact <= 4_000_000_000_000_000_000) by (nonlinear_arith)
        requires
            exact == a.units * b.units,
            -2_000_000_000 <= a.units <= 2_000_000_000,
            -2_000_000_000 <= b.units <= 2_000_000_000,
    ;
    lemma_fundamental_div_mod(exact, fixed::SCALE as int);
    lemma_mod_bound(exact, fixed::SCALE as int);
}

/// Each component of a cross product of short vectors is off by less than a unit.
proof fn cross_is_rounded(a: Vec3<Fixed>, b: Vec3<Fixed>)
    requires
        vector_within(a, 2 * fixed::SCALE),
        vector_within(b, 2 * fixed::SCALE),
    ensures
        ({
            let c = a.cross(&b);
            let x = exact_cross(a, b);
            let scale = fixed::SCALE as int;
            &&& -scale < scale * c.x.units - x.0 < scale
            &&& -scale < scale * c.y.units - x.1 < scale
            &&& -scale < scale * c.z.units - x.2 < scale
            &&& vector_within(c, 10 * fixed::SCALE)
            &&& -8_000_000_000_000_000_000 <= x.0 <= 8_000_000_000_000_000_000
            &&& -8_000_000_000_000_000_000 <= x.1 <= 8_000_000_000_000_000_000
            &&& -8_000_000_000_000_000_000 <= x.2 <= 8_000_000_000_000_000_000
        }),
{
    short_product(a.y, b.z);
    short_product(a.z, b.y);
    short_product(a.z, b.x);
    short_product(a.x, b.z);
    short_product(a.x, b.y);
    short_product(a.y, b.x);
}

/// The square of a cross product and that of the dot product make up the product of the squares.
proof fn cross_and_dot(a: Vec3<Fixed>, b: Vec3<Fixed>)
    ensures
        ({
            let x = exact_cross(a, b);
            x.0 * x.0 + x.1 * x.1 + x.2 * x.2 + exact_dot(a, b) * exact_dot(a, b) == exact_dot(a, a)
                * exact_dot(b, b)
        }),
{
    let (a1, a2, a3) = (a.x.units as int, a.y.units as int, a.z.units as int);
    let (b1, b2, b3) = (b.x.units as int, b.y.units as int, b.z.units as int);
    let (p11, p12, p13) = (a1 * b1, a1 * b2, a1 * b3);
    let (p21, p22, p23) = (a2 * b1, a2 * b2, a2 * b3);
    let (p31, p32, p33) = (a3 * b1, a3 * b2, a3 * b3);
    square_of_two(p23, p32);
    square_of_two(p31, p13);
    square_of_two(p12, p21);
    square_of_three(p11, p22, p33);
    swapped_factors(a2, b3, a3, b2);
    swapped_factors(a3, b1, a1, b3);
    swapped_factors(a1, b2, a2, b1);
    row_of_squares(a1, b1, b2, b3);
    row_of_squares(a2, b1, b2, b3);
    row_of_squares(a3, b1, b2, b3);
    let total = b1 * b1 + b2 * b2 + b3 * b3;
    assert((a1 * a1 + a2 * a2 + a3 * a3) * total == (a1 * a1) * total + (a2 * a2) * total + (a3
        * a3) * total) by (nonlinear_arith);
    assert(p33 * p11 == p11 * p33) by (nonlinear_arith);
}

proof fn square_of_two(p: int, q: int)
    ensures
        (p - q) * (p - q) == p * p - 2 * (p * q) + q * q,
{
    assert((p - q) * (p - q) == p * p - 2 * (p * q) + q * q) by (nonlinear_arith);
}

proof fn square_of_three(p: int, q: int, r: int)
    ensures
        (p + q + r) * (p + q + r) == p * p + q * q + r * r + 2 * (p * q) + 2 * (p * r) + 2 * (q * r),
{
    assert((p + q + r) * (p + q + r) == p * p + q * q + r * r + 2 * (p * q) + 2 * (p * r) + 2 * (q
        * r)) by (nonlinear_arith);
}

/// Two products of two factors have the same product with the second factors exchanged.
proof fn swapped_factors(a: int, b: int, c: int, d: int)
    ensures
        (a * b) * (c * d) == (a * d) * (c * b),
{
    assert((a * b) * (c * d) == (a * d) * (c * b)) by (nonlinear_arith);
}

proof fn row_of_squares(a: int, x: int, y: int, z: int)
    ensures
        (a * a) * (x * x + y * y + z * z) == (a * x) * (a * x) + (a * y) * (a * y) + (a * z) * (a
            * z),
{
    let (x2, y2, z2) = (x * x, y * y, z * z);
    let a2 = a * a;
    assert(a2 * (x2 + y2 + z2) == a2 * x2 + a2 * y2 + a2 * z2) by (nonlinear_arith);
    assert((a * a) * (x * x) == (a * x) * (a * x)) by (nonlinear_arith);
    assert((a * a) * (y * y) == (a * y) * (a * y)) by (nonlinear_arith);
    assert((a * a) * (z * z) == (a * z) * (a * z)) by (nonlinear_arith);
}

/// A cross product is perpendicular to its second factor.
proof fn cross_is_perpendicular(a: Vec3<Fixed>, b: Vec3<Fixed>)
    ensures
        ({
            let x = exact_cross(a, b);
            x.0 * b.x.units + x.1 * b.y.units + x.2 * b.z.units == 0
        }),
{
    let (a1, a2, a3) = (a.x.units as int, a.y.units as int, a.z.units as int);
    let (b1, b2, b3) = (b.x.units as int, b.y.units as int, b.z.units as int);
    assert((a2 * b3 - a3 * b2) * b1 == a2 * (b1 * b3) - a3 * (b1 * b2)) by (nonlinear_arith);
    assert((a3 * b1 - a1 * b3) * b2 == a3 * (b1 * b2) - a1 * (b2 * b3)) by (nonlinear_arith);
    assert((a1 * b2 - a2 * b1) * b3 == a1 * (b2 * b3) - a2 * (b1 * b3)) by (nonlinear_arith);
}

/// What one component of a rounded cross product is short of in its square.
proof fn square_of_rounded_cross(c: int, x: int)
    requires
        -1_000_000_000 < 1_000_000_000 * c - x < 1_000_000_000,
        -8_000_000_000_000_000_000 <= x <= 8_000_000_000_000_000_000,
    ensures
        1_000_000_000_000_000_000 * (c * c) >= x * x - 16_000_000_000_000_000_000_000_000_000,
{
    let y = 1_000_000_000 * c;
    let off = y - x;
    assert(y * y == 1_000_000_000_000_000_000 * (c * c)) by (nonlinear_arith)
        requires
            y == 1_000_000_000 * c,
    ;
    assert(y * y == x * x + 2 * (off * x) + off * off) by (nonlinear_arith)
        requires
            off == y - x,
    ;
    assert(off * off >= 0) by (nonlinear_arith);
    assert(off * x >= -8_000_000_000_000_000_000_000_000_000) by (nonlinear_arith)
        requires
            -1_000_000_000 <= off <= 1_000_000_000,
            -8_000_000_000_000_000_000 <= x <= 8_000_000_000_000_000_000,
    ;
}

/// A vector of about length one that is about perpendicular to another of about length one.
pub open spec fn roughly_perpendicular(n: Vec3<Fixed>, u: Vec3<Fixed>) -> bool {
    &&& 900_000_000_000_000_000 <= exact_dot(n, n) <= 1_100_000_000_000_000_000
    &&& -100_000_000_000_000_000 <= exact_dot(n, u) <= 100_000_000_000_000_000
}

/// The cross product of a normal with an axis is at least half as long as one.
proof fn cross_is_long(n: Vec3<Fixed>, u: Vec3<Fixed>)
    requires
        vector_within(n, 2 * fixed::SCALE),
        vector_within(u, 2 * fixed::SCALE),
        roughly_perpendicular(n, u),
        exact_dot(u, u) >= 900_000_000_000_000_000,
    ensures
        n.cross(&u).length().units * 2 >= fixed::SCALE,
        n.cross(&u).length().units > 0,
{
    cross_is_rounded(n, u);
    cross_and_dot(n, u);
    let c = n.cross(&u);
    let x = exact_cross(n, u);
    square_of_rounded_cross(c.x.units as int, x.0);
    square_of_rounded_cross(c.y.units as int, x.1);
    square_of_rounded_cross(c.z.units as int, x.2);
    let (nn, uu, nu) = (exact_dot(n, n), exact_dot(u, u), exact_dot(n, u));
    assert(nn * uu >= 810_000_000_000_000_000_000_000_000_000_000_000) by (nonlinear_arith)
        requires
            nn >= 900_000_000_000_000_000,
            uu >= 900_000_000_000_000_000,
    ;
    assert(nu * nu <= 10_000_000_000_000_000_000_000_000_000_000_000) by (nonlinear_arith)
        requires
            -100_000_000_000_000_000 <= nu <= 100_000_000_000_000_000,
    ;
    let cc = exact_dot(c, c);
    assert(cc >= 700_000_000_000_000_000);
    square_is_rounded(c.x);
    square_is_rounded(c.y);
    square_is_rounded(c.z);
    let f = c.x.product(c.x).sum(c.y.product(c.y)).sum(c.z.product(c.z));
    assert(f.units > 600_000_000);
    let m = f.units * fixed::SCALE;
    integer_root_exists(m);
    let r = fixed::integer_root(m);
    assert(r >= 500_000_000) by (nonlinear_arith)
        requires
            m < (r + 1) * (r + 1),
            m >= 600_000_000 * 1_000_000_000,
            0 <= r,
    ;
    assert(r <= 1_000_000_000_000_000) by (nonlinear_arith)
        requires
            r * r <= m,
            m <= 300_000_000_000_000_000 * 1_000_000_000,
            0 <= r,
    ;
    assert(c.length().units == r);
}

/// One component of the second axis times the same one of the first, times the length.
proof fn overlap_of_component(v: int, l: int, c: int, x: int, u: int, lost: int)
    requires
        v * l == c * 1_000_000_000 - lost,
        0 <= lost < l,
        -1_000_000_000 < 1_000_000_000 * c - x < 1_000_000_000,
        -2_000_000_000 <= u <= 2_000_000_000,
    ensures
        -2_000_000_000 * (l + 1_000_000_000) <= l * (v * u) - x * u <= 2_000_000_000 * (l
            + 1_000_000_000),
{
    let off = v * l - x;
    assert(l * (v * u) - x * u == off * u) by (nonlinear_arith)
        requires
            off == v * l - x,
    ;
    let most = l + 1_000_000_000;
    assert(-most <= off <= most);
    assert(-2_000_000_000 * most <= off * u <= 2_000_000_000 * most) by (nonlinear_arith)
        requires
            -most <= off <= most,
            -2_000_000_000 <= u <= 2_000_000_000,
    ;
}

/// The second axis is perpendicular to the first, but for rounding.
proof fn second_axis_is_perpendicular(n: Vec3<Fixed>, u: Vec3<Fixed>)
    requires
        vector_within(n, 2 * fixed::SCALE),
        vector_within(u, 2 * fixed::SCALE),
        roughly_perpendicular(n, u),
        exact_dot(u, u) >= 900_000_000_000_000_000,
    ensures
        ({
            let v = n.cross(&u).normalize();
            -18 * fixed::SCALE <= exact_dot(u, v) <= 18 * fixed::SCALE
        }),
{
    cross_is_long(n, u);
    cross_is_rounded(n, u);
    cross_is_perpendicular(n, u);
    let c = n.cross(&u);
    components_within_length(c, 2);
    let length = c.length();
    let l = length.units as int;
    assert(Fixed::fraction(1, 10_000_000_000).units == 0);
    let v = c.normalize();
    let lost_x = component_of_unit(c.x, length);
    let lost_y = component_of_unit(c.y, length);
    let lost_z = component_of_unit(c.z, length);
    let x = exact_cross(n, u);
    let (u1, u2, u3) = (u.x.units as int, u.y.units as int, u.z.units as int);
    let (v1, v2, v3) = (v.x.units as int, v.y.units as int, v.z.units as int);
    overlap_of_component(v1, l, c.x.units as int, x.0, u1, lost_x);
    overlap_of_component(v2, l, c.y.units as int, x.1, u2, lost_y);
    overlap_of_component(v3, l, c.z.units as int, x.2, u3, lost_z);
    let overlap = v1 * u1 + v2 * u2 + v3 * u3;
    assert(l * overlap == l * (v1 * u1) + l * (v2 * u2) + l * (v3 * u3)) by (nonlinear_arith)
        requires
            overlap == v1 * u1 + v2 * u2 + v3 * u3,
    ;
    assert(-18_000_000_000 * l <= l * overlap <= 18_000_000_000 * l);
    assert(-18_000_000_000 <= overlap <= 18_000_000_000) by (nonlinear_arith)
        requires
            -18_000_000_000 * l <= l * overlap <= 18_000_000_000 * l,
            l > 0,
    ;
    assert(v1 * u1 == u1 * v1 && v2 * u2 == u2 * v2 && v3 * u3 == u3 * v3) by (nonlinear_arith);
}

/// How much the axes of a surface may be off, in units, where its first edge is at least one part
/// in `k` of a metre long.
pub open spec fn frame_slack(k: int) -> int {
    3 * k * k + 3 * k + 31
}

/// A surface whose axes can be relied on: its first edge is at least one part in `k` of a metre
/// long, its normal is about of length one, and the edge lies about at right angles to it.
pub open spec fn is_well_placed(
    vertices: Seq<Point3D<Fixed>>,
    normal: Vec3<Fixed>,
    k: int,
) -> bool {
    let edge = vertices[1].from(&vertices[0]);
    &&& vertices.len() >= 2
    &&& 1 <= k <= 1000
    &&& vector_within(edge, 10_000_000_000_000)
    &&& edge.length().units * k >= fixed::SCALE
    &&& vector_within(normal, 2 * fixed::SCALE)
    &&& roughly_perpendicular(normal, edge.normalize())
}

/// The axes of the plane of a surface are perpendicular and of length one, but for rounding.
pub proof fn axes_are_nearly_orthonormal(
    vertices: Seq<Point3D<Fixed>>,
    normal: Vec3<Fixed>,
    k: int,
)
    requires
        is_well_placed(vertices, normal, k),
    ensures
        ({
            let (origin, u, v) = shading::local_axes(vertices, normal);
            nearly_orthonormal(u, v, frame_slack(k))
        }),
{
    let edge = vertices[1].from(&vertices[0]);
    assert(edge.length().units > 0) by (nonlinear_arith)
        requires
            edge.length().units * k >= 1_000_000_000,
            1 <= k,
    ;
    unit_vector_is_near_one(edge, k);
    let u = edge.normalize();
    assert(3 * k * k + 3 * k + 31 <= 4_000_000 && 3 * k * k >= 3 && unit_slack(k) <= 4_000_000)
        by (nonlinear_arith)
        requires
            1 <= k <= 1000,
            unit_slack(k) == 3 * k * k + 3 * k + 13,
    ;
    let s = unit_slack(k);
    assert(s * fixed::SCALE <= 4_000_000_000_000_000);
    cross_is_long(normal, u);
    cross_is_rounded(normal, u);
    let c = normal.cross(&u);
    unit_vector_is_near_one(c, 2);
    assert(unit_slack(2) == 31);
    second_axis_is_perpendicular(normal, u);
    let big = frame_slack(k);
    assert(s * fixed::SCALE <= big * fixed::SCALE);
    assert(31 * fixed::SCALE <= big * fixed::SCALE);
}

/// On the plane of a surface points come back from their coordinates, but for rounding.
pub proof fn surface_points_come_back(
    vertices: Seq<Point3D<Fixed>>,
    normal: Vec3<Fixed>,
    k: int,
    point: Point2D<Fixed>,
    reach: int,
)
    requires
        is_well_placed(vertices, normal, k),
        0 <= reach <= 1_000_000_000_000_000,
        plane_laws::point_within(vertices[0], reach),
        -reach <= point.x.units <= reach,
        -reach <= point.y.units <= reach,
    ensures
        ({
            let (o, u, v) = shading::local_axes(vertices, normal);
            let p = shading::from_local_2d(&point, &o, &u, &v);
            let image = shading::to_local_2d(&p, &o, &u, &v);
            let back = shading::from_local_2d(&image, &o, &u, &v);
            let e = 4 * plane_laws::coordinate_slack(reach, frame_slack(k)) + 2;
            &&& -e <= back.x.units - p.x.units <= e
            &&& -e <= back.y.units - p.y.units <= e
            &&& -e <= back.z.units - p.z.units <= e
        }),
{
    axes_are_nearly_orthonormal(vertices, normal, k);
    let (o, u, v) = shading::local_axes(vertices, normal);
    plane_laws::points_of_a_plane_come_back(point, o, u, v, frame_slack(k), reach);
}

/// On the plane of a surface the distance of two points is that of their coordinates, but for
/// rounding: the squares differ by no more than stated.
pub proof fn surface_distances_are_kept(
    vertices: Seq<Point3D<Fixed>>,
    normal: Vec3<Fixed>,
    k: int,
    x: Point2D<Fixed>,
    y: Point2D<Fixed>,
    reach: int,
)
    requires
        is_well_placed(vertices, normal, k),
        0 <= reach <= 1_000_000_000_000_000,
        plane_laws::point_within(vertices[0], reach),
        -reach <= x.x.units <= reach,
        -reach <= x.y.units <= reach,
        -reach <= y.x.units <= reach,
        -reach <= y.y.units <= reach,
    ensures
        ({
            let (o, u, v) = shading::local_axes(vertices, normal);
            let (p, q) = (
                shading::from_local_2d(&x, &o, &u, &v),
                shading::from_local_2d(&y, &o, &u, &v),
            );
            let (a, b) = (
                shading::to_local_2d(&p, &o, &u, &v),
                shading::to_local_2d(&q, &o, &u, &v),
            );
            let in_plane = (a.x.units - b.x.units) * (a.x.units - b.x.units) + (a.y.units
                - b.y.units) * (a.y.units - b.y.units);
            let in_space = (p.x.units - q.x.units) * (p.x.units - q.x.units) + (p.y.units
                - q.y.units) * (p.y.units - q.y.units) + (p.z.units - q.z.units) * (p.z.units
                - q.z.units);
            let slack = frame_slack(k);
            let e = plane_laws::coordinate_slack(reach, slack);
            let allowed = 16 * (reach * reach) * slack + fixed::SCALE * (96 * reach + 60)
                + fixed::SCALE * (4 * e * (4 * reach + 2 * e));
            -allowed <= fixed::SCALE * (in_plane - in_space) <= allowed
        }),
{
    axes_are_nearly_orthonormal(vertices, normal, k);
    let (o, u, v) = shading::local_axes(vertices, normal);
    plane_laws::distances_of_images_are_kept(x, y, o, u, v, frame_slack(k), reach);
}

} // verus!
