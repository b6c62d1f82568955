//! What holds of areas and coordinates in a plane, on fixed-point numbers.
use crate::fixed;
use crate::fixed::Fixed;
use crate::geometry;
use crate::geometry::{Point3D, Vec3};
use crate::scalar::{num, Monotone, Scalar};
use crate::shading;
use crate::shading::Point2D;
use vstd::arithmetic::div_mod::*;
use vstd::prelude::*;

verus! {

// ---------------------------------------------------------------------------
// Sums around a polygon

/// The sum of `f` over the first `edges` edges of a polygon.
pub open spec fn ring_sum(
    poly: Seq<Point2D<Fixed>>,
    f: spec_fn(Point2D<Fixed>, Point2D<Fixed>) -> int,
    edges: nat,
) -> int
    decreases edges,
{
    if edges == 0 {
        0
    } else {
        let i = edges - 1;
        ring_sum(poly, f, i as nat) + f(
            poly[i],
            poly[geometry::after_on_ring(i, poly.len() as int)],
        )
    }
}

/// A polygon with its corners listed from corner `k` on.
pub open spec fn turned(poly: Seq<Point2D<Fixed>>, k: int) -> Seq<Point2D<Fixed>> {
    poly.skip(k) + poly.take(k)
}

proof fn ring_sum_of_next(
    poly: Seq<Point2D<Fixed>>,
    f: spec_fn(Point2D<Fixed>, Point2D<Fixed>) -> int,
    edges: nat,
)
    requires
        poly.len() >= 2,
        edges < poly.len(),
    ensures
        ring_sum(turned(poly, 1), f, edges) == ring_sum(poly, f, edges + 1) - f(poly[0], poly[1]),
    decreases edges,
{
    if edges == 0 {
        assert(ring_sum(poly, f, 0) == 0);
        assert(ring_sum(turned(poly, 1), f, 0) == 0);
    } else {
        ring_sum_of_next(poly, f, (edges - 1) as nat);
        let next = turned(poly, 1);
        assert(next[edges - 1] == poly[edges as int]);
        if edges + 1 < poly.len() {
            assert(next[edges as int] == poly[(edges + 1) as int]);
        } else {
            assert(next[edges as int] == poly[0]);
        }
    }
}

/// The sum around a polygon does not depend on the corner where it begins.
proof fn ring_sum_of_turned(
    poly: Seq<Point2D<Fixed>>,
    f: spec_fn(Point2D<Fixed>, Point2D<Fixed>) -> int,
    k: nat,
)
    requires
        poly.len() >= 2,
        k <= poly.len(),
    ensures
        ring_sum(turned(poly, k as int), f, poly.len()) == ring_sum(poly, f, poly.len()),
    decreases k,
{
    if k == 0 {
        assert(turned(poly, 0) =~= poly);
    } else {
        let before = turned(poly, k - 1);
        ring_sum_of_turned(poly, f, (k - 1) as nat);
        assert(turned(poly, k as int) =~= turned(before, 1));
        let n = poly.len();
        let next = turned(before, 1);
        ring_sum_of_next(before, f, (n - 1) as nat);
        assert(next[n - 1] == before[0]);
        assert(next[0] == before[1]);
    }
}

proof fn ring_sum_of_reversed(
    poly: Seq<Point2D<Fixed>>,
    f: spec_fn(Point2D<Fixed>, Point2D<Fixed>) -> int,
    edges: nat,
)
    requires
        poly.len() >= 2,
        edges < poly.len(),
        forall|a: Point2D<Fixed>, b: Point2D<Fixed>| #[trigger] f(a, b) == -f(b, a),
    ensures
        ring_sum(poly.reverse(), f, edges) == ring_sum(
            poly,
            f,
            (poly.len() - 1 - edges) as nat,
        ) - ring_sum(poly, f, (poly.len() - 1) as nat),
    decreases edges,
{
    if edges == 0 {
        assert(ring_sum(poly.reverse(), f, 0) == 0);
    } else {
        ring_sum_of_reversed(poly, f, (edges - 1) as nat);
        let n = poly.len();
        let back = poly.reverse();
        assert(back[edges - 1] == poly[n - edges]);
        assert(back[edges as int] == poly[n - 1 - edges]);
        assert(f(poly[n - edges], poly[n - 1 - edges]) == -f(poly[n - 1 - edges], poly[n - edges]));
        assert(geometry::after_on_ring(n - 1 - edges, n as int) == n - edges);
    }
}

/// A sum that changes sign with each edge changes sign where the polygon is gone round the
/// other way.
proof fn ring_sum_of_all_reversed(
    poly: Seq<Point2D<Fixed>>,
    f: spec_fn(Point2D<Fixed>, Point2D<Fixed>) -> int,
)
    requires
        poly.len() >= 2,
        forall|a: Point2D<Fixed>, b: Point2D<Fixed>| #[trigger] f(a, b) == -f(b, a),
    ensures
        ring_sum(poly.reverse(), f, poly.len()) == -ring_sum(poly, f, poly.len()),
{
    let n = poly.len();
    let back = poly.reverse();
    ring_sum_of_reversed(poly, f, (n - 1) as nat);
    assert(ring_sum(poly, f, 0) == 0);
    assert(back[n - 1] == poly[0]);
    assert(back[0] == poly[n - 1]);
    assert(f(poly[0], poly[n - 1]) == -f(poly[n - 1], poly[0]));
}

// ---------------------------------------------------------------------------
// The area and its exact value

/// What an edge adds to the doubled area, in units, with both products rounded.
pub open spec fn swept(a: Point2D<Fixed>, b: Point2D<Fixed>) -> int {
    a.x.product(b.y).units - b.x.product(a.y).units
}

/// What an edge adds to the doubled area, in squared units, without rounding.
pub open spec fn crossed(a: Point2D<Fixed>, b: Point2D<Fixed>) -> int {
    a.x.units * b.y.units - b.x.units * a.y.units
}

/// The coordinates of a polygon are no larger than `reach` units either way, and its doubled
/// area is within the range of the numbers.
pub open spec fn within_reach(poly: Seq<Point2D<Fixed>>, reach: int) -> bool {
    &&& 0 <= reach
    &&& forall|i: int|
        0 <= i < poly.len() ==> -reach <= (#[trigger] poly[i]).x.units <= reach && -reach
            <= poly[i].y.units <= reach
    &&& poly.len() * (2 * (reach * reach / (fixed::SCALE as int)) + 2) <= i64::MAX
}

/// A rounded product, next to the exact one.
proof fn product_is_rounded(a: Fixed, b: Fixed, reach: int)
    requires
        -reach <= a.units <= reach,
        -reach <= b.units <= reach,
        reach * reach / (fixed::SCALE as int) < i64::MAX,
    ensures
        ({
            let p = a.product(b).units;
            let exact = a.units * b.units;
            let most = reach * reach / (fixed::SCALE as int) + 1;
            &&& fixed::SCALE * p <= exact < fixed::SCALE * p + fixed::SCALE
            &&& -most <= p <= most
        }),
{
    let exact = a.units * b.units;
    let scale = fixed::SCALE as int;
    assert(-(reach * reach) <= exact <= reach * reach) by (nonlinear_arith)
        requires
            exact == a.units * b.units,
            -reach <= a.units <= reach,
            -reach <= b.units <= reach,
    ;
    lemma_fundamental_div_mod(exact, scale);
    lemma_mod_bound(exact, scale);
    lemma_fundamental_div_mod(reach * reach, scale);
    lemma_mod_bound(reach * reach, scale);
}

proof fn edge_is_rounded(a: Point2D<Fixed>, b: Point2D<Fixed>, reach: int)
    requires
        -reach <= a.x.units <= reach,
        -reach <= a.y.units <= reach,
        -reach <= b.x.units <= reach,
        -reach <= b.y.units <= reach,
        reach * reach / (fixed::SCALE as int) < i64::MAX,
    ensures
        fixed::SCALE * swept(a, b) - fixed::SCALE <= crossed(a, b) <= fixed::SCALE * swept(a, b)
            + fixed::SCALE,
{
    product_is_rounded(a.x, b.y, reach);
    product_is_rounded(b.x, a.y, reach);
}

/// The rounded sum is the sum of the rounded edges, and it is as near to the exact sum as the
/// edges are many.
proof fn shoelace_is_rounded(poly: Seq<Point2D<Fixed>>, reach: int, edges: nat)
    requires
        within_reach(poly, reach),
        edges <= poly.len(),
    ensures
        ({
            let sum = shading::shoelace(poly, edges).units;
            let exact = ring_sum(poly, |a: Point2D<Fixed>, b: Point2D<Fixed>| crossed(a, b), edges);
            let most = edges * (2 * (reach * reach / (fixed::SCALE as int)) + 2);
            &&& sum == ring_sum(
                poly,
                |a: Point2D<Fixed>, b: Point2D<Fixed>| swept(a, b),
                edges,
            )
            &&& -most <= sum <= most
            &&& fixed::SCALE * (sum - edges) <= exact <= fixed::SCALE * (sum + edges)
        }),
    decreases edges,
{
    if edges > 0 {
        let m = (edges - 1) as nat;
        shoelace_is_rounded(poly, reach, m);
        let a = poly[m as int];
        let b = poly[geometry::after_on_ring(m as int, poly.len() as int)];
        let square = reach * reach / (fixed::SCALE as int);
        assert(square >= 0) by {
            assert(reach * reach >= 0) by (nonlinear_arith);
            lemma_div_pos_is_pos(reach * reach, fixed::SCALE as int);
        }
        assert(edges * (2 * square + 2) <= poly.len() * (2 * square + 2) && edges * (2 * square + 2)
            == m * (2 * square + 2) + 2 * square + 2 && m * (2 * square + 2) >= 0)
            by (nonlinear_arith)
            requires
                edges <= poly.len(),
                edges == m + 1,
                square >= 0,
        ;
        product_is_rounded(a.x, b.y, reach);
        product_is_rounded(b.x, a.y, reach);
        edge_is_rounded(a, b, reach);
    }
}

/// Half of a sum, rounded down, without its sign.
proof fn half_without_sign(sum: Fixed)
    ensures
        ({
            let half = sum.quotient(num(2)).magnitude().units;
            let size = if sum.units < 0 {
                -sum.units
            } else {
                sum.units as int
            };
            &&& 0 <= half
            &&& if sum.units < 0 {
                half == (size + 1) / 2
            } else {
                half == size / 2
            }
        }),
{
    assert(num::<Fixed>(2).units == 2_000_000_000);
    let half = (sum.units * fixed::SCALE) / 2_000_000_000;
    assert(half == sum.units as int / 2);
}

/// The area of a polygon is not negative, and nothing with fewer than three corners has one.
pub proof fn area_is_not_negative<T: Monotone>(poly: Seq<Point2D<T>>)
    ensures
        !shading::plane_area(poly).below(num(0)),
        poly.len() < 3 ==> shading::plane_area(poly) == num::<T>(0),
{
    num::<T>(0).below_irreflexive();
    shading::shoelace(poly, poly.len()).quotient(num(2)).magnitude_not_negative();
}

/// The area of a polygon is near its exact area: the two are at most half as many units apart
/// as it has corners, and half a unit more.
pub proof fn area_is_near_the_exact_area(poly: Seq<Point2D<Fixed>>, reach: int)
    requires
        poly.len() >= 3,
        within_reach(poly, reach),
    ensures
        ({
            let doubled = 2 * shading::plane_area(poly).units;
            let exact = ring_sum(
                poly,
                |a: Point2D<Fixed>, b: Point2D<Fixed>| crossed(a, b),
                poly.len(),
            );
            let size = if exact < 0 {
                -exact
            } else {
                exact
            };
            fixed::SCALE * (doubled - poly.len() - 1) <= size <= fixed::SCALE * (doubled
                + poly.len() + 1)
        }),
{
    shoelace_is_rounded(poly, reach, poly.len());
    half_without_sign(shading::shoelace(poly, poly.len()));
}

/// The area does not depend on the corner that is listed first.
pub proof fn area_survives_turning(poly: Seq<Point2D<Fixed>>, k: nat, reach: int)
    requires
        within_reach(poly, reach),
        k <= poly.len(),
    ensures
        shading::plane_area(turned(poly, k as int)) == shading::plane_area(poly),
{
    if poly.len() >= 3 {
        let f = |a: Point2D<Fixed>, b: Point2D<Fixed>| swept(a, b);
        let next = turned(poly, k as int);
        assert forall|i: int| 0 <= i < next.len() implies -reach <= (#[trigger] next[i]).x.units
            <= reach && -reach <= next[i].y.units <= reach by {
            let j = if i + k < poly.len() {
                i + k
            } else {
                i + k - poly.len()
            };
            assert(next[i] == poly[j]);
        }
        shoelace_is_rounded(poly, reach, poly.len());
        shoelace_is_rounded(next, reach, poly.len());
        ring_sum_of_turned(poly, f, k);
    }
}

/// Gone round the other way, a polygon keeps its area, but for one unit of rounding.
pub proof fn area_survives_reversal(poly: Seq<Point2D<Fixed>>, reach: int)
    requires
        within_reach(poly, reach),
    ensures
        shading::plane_area(poly).units - 1 <= shading::plane_area(poly.reverse()).units
            <= shading::plane_area(poly).units + 1,
{
    if poly.len() >= 3 {
        let f = |a: Point2D<Fixed>, b: Point2D<Fixed>| swept(a, b);
        let back = poly.reverse();
        assert forall|i: int| 0 <= i < back.len() implies -reach <= (#[trigger] back[i]).x.units
            <= reach && -reach <= back[i].y.units <= reach by {
            assert(back[i] == poly[poly.len() - 1 - i]);
        }
        shoelace_is_rounded(poly, reach, poly.len());
        shoelace_is_rounded(back, reach, poly.len());
        ring_sum_of_all_reversed(poly, f);
        half_without_sign(shading::shoelace(poly, poly.len()));
        half_without_sign(shading::shoelace(back, poly.len()));
    }
}

/// `moved` is the polygon, moved by `dx` and `dy` units.
pub open spec fn is_moved(
    poly: Seq<Point2D<Fixed>>,
    moved: Seq<Point2D<Fixed>>,
    dx: int,
    dy: int,
) -> bool {
    &&& moved.len() == poly.len()
    &&& forall|i: int|
        0 <= i < poly.len() ==> {
            &&& (#[trigger] moved[i]).x.units == poly[i].x.units + dx
            &&& moved[i].y.units == poly[i].y.units + dy
        }
}

proof fn edge_of_moved(ax: int, ay: int, bx: int, by: int, dx: int, dy: int)
    ensures
        (ax + dx) * (by + dy) - (bx + dx) * (ay + dy) == ax * by - bx * ay + dy * (ax - bx) + dx * (
        by - ay),
{
    assert((ax + dx) * (by + dy) == ax * by + ax * dy + dx * by + dx * dy) by (nonlinear_arith);
    assert((bx + dx) * (ay + dy) == bx * ay + bx * dy + dx * ay + dx * dy) by (nonlinear_arith);
    assert(dy * (ax - bx) == ax * dy - bx * dy) by (nonlinear_arith);
    assert(dx * (by - ay) == dx * by - dx * ay) by (nonlinear_arith);
}

proof fn exact_sum_of_moved(
    poly: Seq<Point2D<Fixed>>,
    moved: Seq<Point2D<Fixed>>,
    dx: int,
    dy: int,
    edges: nat,
)
    requires
        poly.len() >= 3,
        is_moved(poly, moved, dx, dy),
        edges < poly.len(),
    ensures
        ({
            let f = |a: Point2D<Fixed>, b: Point2D<Fixed>| crossed(a, b);
            ring_sum(moved, f, edges) == ring_sum(poly, f, edges) + dy * (poly[0].x.units
                - poly[edges as int].x.units) + dx * (poly[edges as int].y.units
                - poly[0].y.units)
        }),
    decreases edges,
{
    let f = |a: Point2D<Fixed>, b: Point2D<Fixed>| crossed(a, b);
    if edges == 0 {
        assert(ring_sum(moved, f, 0) == 0 && ring_sum(poly, f, 0) == 0);
        assert(dy * 0int == 0 && dx * 0int == 0);
    } else {
        let i = edges - 1;
        exact_sum_of_moved(poly, moved, dx, dy, i as nat);
        let (a, b, c) = (poly[0], poly[i], poly[edges as int]);
        assert(moved[i].x.units == b.x.units + dx && moved[edges as int].x.units == c.x.units + dx);
        edge_of_moved(
            b.x.units as int,
            b.y.units as int,
            c.x.units as int,
            c.y.units as int,
            dx,
            dy,
        );
        assert(dy * (a.x.units - b.x.units) + dy * (b.x.units - c.x.units) == dy * (a.x.units
            - c.x.units)) by (nonlinear_arith);
        assert(dx * (b.y.units - a.y.units) + dx * (c.y.units - b.y.units) == dx * (c.y.units
            - a.y.units)) by (nonlinear_arith);
    }
}

/// Moved, a polygon keeps its area, but for as many units of rounding as it has corners, and
/// one.
pub proof fn area_survives_moving(
    poly: Seq<Point2D<Fixed>>,
    moved: Seq<Point2D<Fixed>>,
    dx: int,
    dy: int,
    reach: int,
)
    requires
        within_reach(poly, reach),
        within_reach(moved, reach),
        is_moved(poly, moved, dx, dy),
    ensures
        shading::plane_area(poly).units - poly.len() - 1 <= shading::plane_area(moved).units
            <= shading::plane_area(poly).units + poly.len() + 1,
{
    if poly.len() >= 3 {
        let f = |a: Point2D<Fixed>, b: Point2D<Fixed>| crossed(a, b);
        let n = poly.len();
        exact_sum_of_moved(poly, moved, dx, dy, (n - 1) as nat);
        let (a, b) = (poly[n - 1], poly[0]);
        assert(moved[n - 1].x.units == a.x.units + dx && moved[0].x.units == b.x.units + dx);
        edge_of_moved(
            a.x.units as int,
            a.y.units as int,
            b.x.units as int,
            b.y.units as int,
            dx,
            dy,
        );
        assert(dy * (b.x.units - a.x.units) + dy * (a.x.units - b.x.units) == 0)
            by (nonlinear_arith);
        assert(dx * (a.y.units - b.y.units) + dx * (b.y.units - a.y.units) == 0)
            by (nonlinear_arith);
        assert(ring_sum(moved, f, n) == ring_sum(poly, f, n));
        area_is_near_the_exact_area(poly, reach);
        area_is_near_the_exact_area(moved, reach);
    }
}

// ---------------------------------------------------------------------------
// Coordinates in the plane of a surface

/// The dot product of two vectors, in squared units, without rounding.
pub open spec fn exact_dot(a: Vec3<Fixed>, b: Vec3<Fixed>) -> int {
    a.x.units * b.x.units + a.y.units * b.y.units + a.z.units * b.z.units
}

/// Two axes are perpendicular and of length one, each as far as `slack` units go.
pub open spec fn nearly_orthonormal(u: Vec3<Fixed>, v: Vec3<Fixed>, slack: int) -> bool {
    let scale = fixed::SCALE as int;
    &&& 0 <= slack <= scale
    &&& -slack * scale <= exact_dot(u, u) - scale * scale <= slack * scale
    &&& -slack * scale <= exact_dot(v, v) - scale * scale <= slack * scale
    &&& -slack * scale <= exact_dot(u, v) <= slack * scale
}

/// Each coordinate is at most `reach` units from zero.
pub open spec fn point_within(p: Point3D<Fixed>, reach: int) -> bool {
    &&& -reach <= p.x.units <= reach
    &&& -reach <= p.y.units <= reach
    &&& -reach <= p.z.units <= reach
}

/// No component of a vector is longer than two.
spec fn is_short(v: Vec3<Fixed>) -> bool {
    let two = 2 * fixed::SCALE;
    &&& -two <= v.x.units <= two
    &&& -two <= v.y.units <= two
    &&& -two <= v.z.units <= two
}

proof fn square_is_bounded(c: int, rest: int)
    requires
        c * c + rest <= 2_000_000_000 * 1_000_000_000,
        rest >= 0,
    ensures
        -2_000_000_000 <= c <= 2_000_000_000,
{
    if c > 2_000_000_000 {
        assert(c * c > 2_000_000_000 * 1_000_000_000) by (nonlinear_arith)
            requires
                c > 2_000_000_000,
        ;
    }
    if c < -2_000_000_000 {
        assert(c * c > 2_000_000_000 * 1_000_000_000) by (nonlinear_arith)
            requires
                c < -2_000_000_000,
        ;
    }
}

proof fn unit_vector_is_short(v: Vec3<Fixed>)
    requires
        exact_dot(v, v) <= 2_000_000_000 * 1_000_000_000,
    ensures
        is_short(v),
{
    let (x, y, z) = (v.x.units as int, v.y.units as int, v.z.units as int);
    assert(0 <= x * x) by (nonlinear_arith);
    assert(0 <= y * y) by (nonlinear_arith);
    assert(0 <= z * z) by (nonlinear_arith);
    square_is_bounded(x, y * y + z * z);
    square_is_bounded(y, x * x + z * z);
    square_is_bounded(z, x * x + y * y);
}

/// A product with a component of at most two, rounded: exact to one unit.
proof fn product_with_short(a: Fixed, c: Fixed, reach: int)
    requires
        -reach <= a.units <= reach,
        0 <= reach <= 1_000_000_000_000_000_000,
        -2_000_000_000 <= c.units <= 2_000_000_000,
    ensures
        ({
            let p = a.product(c).units;
            &&& fixed::SCALE * p <= a.units * c.units < fixed::SCALE * p + fixed::SCALE
            &&& -2 * reach - 1 <= p <= 2 * reach
        }),
{
    let exact = a.units * c.units;
    assert(-2_000_000_000 * reach <= exact <= 2_000_000_000 * reach) by (nonlinear_arith)
        requires
            exact == a.units * c.units,
            -reach <= a.units <= reach,
            -2_000_000_000 <= c.units <= 2_000_000_000,
    ;
    lemma_fundamental_div_mod(exact, fixed::SCALE as int);
    lemma_mod_bound(exact, fixed::SCALE as int);
}

/// How far a component of a point, taken to the plane and back, is from the exact one: `d` is
/// the way from the origin along one axis of space, and `r` what rounding took from it.
proof fn component_there_and_back(
    a: Fixed,
    b: Fixed,
    u: Fixed,
    v: Fixed,
    w: Fixed,
    o: Fixed,
    reach: int,
) -> (r: int)
    requires
        -reach <= a.units <= reach,
        -reach <= b.units <= reach,
        -reach <= o.units <= reach,
        0 <= reach <= 10_000_000_000_000_000,
        -2_000_000_000 <= u.units <= 2_000_000_000,
        -2_000_000_000 <= v.units <= 2_000_000_000,
        -2_000_000_000 <= w.units <= 2_000_000_000,
    ensures
        ({
            let d = o.sum(a.product(u)).sum(b.product(v)).difference(o);
            let scale = fixed::SCALE as int;
            &&& -8 * reach - 9 <= d.product(w).units <= 8 * reach + 9
            &&& scale * scale * d.product(w).units == a.units * (u.units * w.units) + b.units * (
            v.units * w.units) - r
            &&& -5 * (scale * scale) <= r <= 5 * (scale * scale)
        }),
{
    let scale = fixed::SCALE as int;
    product_with_short(a, u, reach);
    product_with_short(b, v, reach);
    let d = o.sum(a.product(u)).sum(b.product(v)).difference(o);
    assert(d.units == a.product(u).units + b.product(v).units);
    product_with_short(d, w, 4 * reach + 2);
    let p = d.product(w).units as int;
    let first = a.units * u.units + b.units * v.units - scale * d.units;
    assert(0 <= first <= 2 * scale);
    let second = d.units * w.units - scale * p;
    assert(0 <= second <= scale);
    let r = first * w.units + scale * second;
    assert(-2 * scale * (2 * scale) <= first * w.units <= 2 * scale * (2 * scale))
        by (nonlinear_arith)
        requires
            0 <= first <= 2 * scale,
            -2 * scale <= w.units <= 2 * scale,
    ;
    assert(0 <= scale * second <= scale * scale) by (nonlinear_arith)
        requires
            0 <= second <= scale,
            0 <= scale,
    ;
    assert(scale * scale * p == a.units * (u.units * w.units) + b.units * (v.units * w.units) - r)
        by {
        assert(scale * scale * p == scale * (scale * p)) by (nonlinear_arith);
        assert(scale * (d.units * w.units - second) == scale * (d.units * w.units) - scale * second)
            by (nonlinear_arith);
        assert(scale * (d.units * w.units) == (scale * d.units) * w.units) by (nonlinear_arith);
        assert((a.units * u.units + b.units * v.units - first) * w.units == (a.units * u.units)
            * w.units + (b.units * v.units) * w.units - first * w.units) by (nonlinear_arith);
        assert((a.units * u.units) * w.units == a.units * (u.units * w.units)) by (nonlinear_arith);
        assert((b.units * v.units) * w.units == b.units * (v.units * w.units)) by (nonlinear_arith);
    }
    r
}

/// One coordinate of a point taken from the plane to space and back, along the axis `w`.
proof fn coordinate_there_and_back(
    point: Point2D<Fixed>,
    origin: Point3D<Fixed>,
    u: Vec3<Fixed>,
    v: Vec3<Fixed>,
    w: Vec3<Fixed>,
    reach: int,
)
    requires
        -reach <= point.x.units <= reach,
        -reach <= point.y.units <= reach,
        point_within(origin, reach),
        0 <= reach <= 10_000_000_000_000_000,
        is_short(u),
        is_short(v),
        is_short(w),
    ensures
        ({
            let scale = fixed::SCALE as int;
            let back = shading::from_local_2d(&point, &origin, &u, &v).from(&origin).dot(&w).units;
            let off = point.x.units * exact_dot(u, w) + point.y.units * exact_dot(v, w) - scale
                * scale * back;
            -15 * (scale * scale) <= off <= 15 * (scale * scale)
        }),
{
    let scale = fixed::SCALE as int;
    let (a, b) = (point.x, point.y);
    let r1 = component_there_and_back(a, b, u.x, v.x, w.x, origin.x, reach);
    let r2 = component_there_and_back(a, b, u.y, v.y, w.y, origin.y, reach);
    let r3 = component_there_and_back(a, b, u.z, v.z, w.z, origin.z, reach);
    let d = shading::from_local_2d(&point, &origin, &u, &v).from(&origin);
    let (p, q, s) = (d.x.product(w.x).units, d.y.product(w.y).units, d.z.product(w.z).units);
    assert(d.dot(&w).units == p + q + s);
    assert(scale * scale * (p + q + s) == scale * scale * p + scale * scale * q + scale * scale * s)
        by (nonlinear_arith);
    assert(a.units * exact_dot(u, w) == a.units * (u.x.units * w.x.units) + a.units * (u.y.units
        * w.y.units) + a.units * (u.z.units * w.z.units)) by (nonlinear_arith)
        requires
            exact_dot(u, w) == u.x.units * w.x.units + u.y.units * w.y.units + u.z.units
                * w.z.units,
    ;
    assert(b.units * exact_dot(v, w) == b.units * (v.x.units * w.x.units) + b.units * (v.y.units
        * w.y.units) + b.units * (v.z.units * w.z.units)) by (nonlinear_arith)
        requires
            exact_dot(v, w) == v.x.units * w.x.units + v.y.units * w.y.units + v.z.units
                * w.z.units,
    ;
}

/// A point of a plane that is taken to space and back is where it was, but for 15 units of
/// rounding, and for what the axes are short of being perpendicular and of length one.
pub proof fn plane_coordinates_come_back(
    point: Point2D<Fixed>,
    origin: Point3D<Fixed>,
    u: Vec3<Fixed>,
    v: Vec3<Fixed>,
    slack: int,
    reach: int,
)
    requires
        nearly_orthonormal(u, v, slack),
        -reach <= point.x.units <= reach,
        -reach <= point.y.units <= reach,
        point_within(origin, reach),
        0 <= reach <= 10_000_000_000_000_000,
    ensures
        ({
            let back = shading::to_local_2d(
                &shading::from_local_2d(&point, &origin, &u, &v),
                &origin,
                &u,
                &v,
            );
            let allowed = 2 * reach * slack + 15 * fixed::SCALE;
            &&& -allowed <= fixed::SCALE * (back.x.units - point.x.units) <= allowed
            &&& -allowed <= fixed::SCALE * (back.y.units - point.y.units) <= allowed
        }),
{
    let scale = fixed::SCALE as int;
    assert(slack * scale <= scale * scale) by (nonlinear_arith)
        requires
            0 <= slack <= scale,
    ;
    unit_vector_is_short(u);
    unit_vector_is_short(v);
    coordinate_there_and_back(point, origin, u, v, u, reach);
    coordinate_there_and_back(point, origin, u, v, v, reach);
    let d = shading::from_local_2d(&point, &origin, &u, &v).from(&origin);
    assert(exact_dot(v, u) == exact_dot(u, v)) by {
        assert(u.x.units * v.x.units == v.x.units * u.x.units) by (nonlinear_arith);
        assert(u.y.units * v.y.units == v.y.units * u.y.units) by (nonlinear_arith);
        assert(u.z.units * v.z.units == v.z.units * u.z.units) by (nonlinear_arith);
    }
    offset_is_allowed(
        point.x.units as int,
        point.y.units as int,
        d.dot(&u).units as int,
        exact_dot(u, u),
        exact_dot(v, u),
        slack,
        reach,
    );
    offset_is_allowed(
        point.y.units as int,
        point.x.units as int,
        d.dot(&v).units as int,
        exact_dot(v, v),
        exact_dot(u, v),
        slack,
        reach,
    );
}

proof fn offset_is_allowed(
    a: int,
    b: int,
    back: int,
    square: int,
    skew: int,
    slack: int,
    reach: int,
)
    requires
        -reach <= a <= reach,
        -reach <= b <= reach,
        0 <= slack,
        -slack * 1_000_000_000 <= square - 1_000_000_000 * 1_000_000_000 <= slack * 1_000_000_000,
        -slack * 1_000_000_000 <= skew <= slack * 1_000_000_000,
        -15 * (1_000_000_000 * 1_000_000_000) <= a * square + b * skew - 1_000_000_000
            * 1_000_000_000 * back <= 15 * (1_000_000_000 * 1_000_000_000),
    ensures
        -(2 * reach * slack + 15 * 1_000_000_000) <= 1_000_000_000 * (back - a) <= 2 * reach * slack
            + 15 * 1_000_000_000,
{
    let over = square - 1_000_000_000 * 1_000_000_000;
    let limit = slack * 1_000_000_000;
    assert(a * square == a * over + 1_000_000_000 * 1_000_000_000 * a) by (nonlinear_arith)
        requires
            over == square - 1_000_000_000 * 1_000_000_000,
    ;
    assert(-(reach * limit) <= a * over <= reach * limit) by (nonlinear_arith)
        requires
            -reach <= a <= reach,
            -limit <= over <= limit,
    ;
    assert(-(reach * limit) <= b * skew <= reach * limit) by (nonlinear_arith)
        requires
            -reach <= b <= reach,
            -limit <= skew <= limit,
    ;
    assert(reach * limit == 1_000_000_000 * (reach * slack)) by (nonlinear_arith)
        requires
            limit == slack * 1_000_000_000,
    ;
    assert(2 * reach * slack == 2 * (reach * slack)) by (nonlinear_arith);
    let far = reach * slack;
    let gap = back - a;
    assert(1_000_000_000 * 1_000_000_000 * back - 1_000_000_000 * 1_000_000_000 * a
        == 1_000_000_000 * (1_000_000_000 * gap)) by (nonlinear_arith)
        requires
            gap == back - a,
    ;
    assert(1_000_000_000 * (1_000_000_000 * gap) <= 1_000_000_000 * (2 * far + 15_000_000_000));
    assert(-(1_000_000_000 * (2 * far + 15_000_000_000)) <= 1_000_000_000 * (1_000_000_000 * gap));
}

/// The way between two points of a plane along one axis of space: `e` is what rounding took
/// from it.
proof fn component_between(
    p: Point2D<Fixed>,
    q: Point2D<Fixed>,
    u: Fixed,
    v: Fixed,
    o: Fixed,
    reach: int,
) -> (e: int)
    requires
        -reach <= p.x.units <= reach,
        -reach <= p.y.units <= reach,
        -reach <= q.x.units <= reach,
        -reach <= q.y.units <= reach,
        -reach <= o.units <= reach,
        0 <= reach <= 10_000_000_000_000_000,
        -2_000_000_000 <= u.units <= 2_000_000_000,
        -2_000_000_000 <= v.units <= 2_000_000_000,
    ensures
        ({
            let way = o.sum(p.x.product(u)).sum(p.y.product(v)).units - o.sum(
                q.x.product(u),
            ).sum(q.y.product(v)).units;
            &&& fixed::SCALE * way == (p.x.units - q.x.units) * u.units + (p.y.units - q.y.units)
                * v.units - e
            &&& -2 * fixed::SCALE <= e <= 2 * fixed::SCALE
            &&& -8 * reach - 4 <= way <= 8 * reach + 4
        }),
{
    product_with_short(p.x, u, reach);
    product_with_short(p.y, v, reach);
    product_with_short(q.x, u, reach);
    product_with_short(q.y, v, reach);
    assert((p.x.units - q.x.units) * u.units == p.x.units * u.units - q.x.units * u.units)
        by (nonlinear_arith);
    assert((p.y.units - q.y.units) * v.units == p.y.units * v.units - q.y.units * v.units)
        by (nonlinear_arith);
    let way = o.sum(p.x.product(u)).sum(p.y.product(v)).units - o.sum(q.x.product(u)).sum(
        q.y.product(v),
    ).units;
    (p.x.units - q.x.units) * u.units + (p.y.units - q.y.units) * v.units - fixed::SCALE * way
}

/// The square of a way that rounding changed by `e`.
proof fn square_of_rounded(way: int, exact: int, e: int, limit: int)
    requires
        1_000_000_000 * way == exact - e,
        -2_000_000_000 <= e <= 2_000_000_000,
        -limit <= way <= limit,
    ensures
        ({
            let scale: int = 1_000_000_000;
            let lost = exact * exact - scale * scale * (way * way);
            let most = 4 * (scale * scale) * (limit + 1);
            -most <= lost <= most
        }),
{
    let scale: int = 1_000_000_000;
    let lost = e * (2 * scale * way + e);
    assert(exact * exact - scale * scale * (way * way) == lost) by (nonlinear_arith)
        requires
            scale * way == exact - e,
            lost == e * (2 * scale * way + e),
    {
        assert(exact == scale * way + e);
        assert(exact * exact == (scale * way) * (scale * way) + 2 * (scale * way) * e + e * e);
        assert((scale * way) * (scale * way) == scale * scale * (way * way));
        assert(lost == 2 * (scale * way) * e + e * e);
    }
    let span = 2 * scale * (limit + 1);
    assert(-span <= 2 * scale * way + e <= span);
    assert(-(2 * scale * span) <= lost <= 2 * scale * span) by (nonlinear_arith)
        requires
            lost == e * (2 * scale * way + e),
            -2 * scale <= e <= 2 * scale,
            -span <= 2 * scale * way + e <= span,
    ;
    assert(2 * scale * span == 4 * (scale * scale) * (limit + 1)) by (nonlinear_arith)
        requires
            span == 2 * scale * (limit + 1),
    ;
}

/// The squares of a combination of two axes add up as their dot products say.
proof fn squares_of_combination(dx: int, dy: int, u: Vec3<Fixed>, v: Vec3<Fixed>)
    ensures
        ({
            let x = dx * u.x.units + dy * v.x.units;
            let y = dx * u.y.units + dy * v.y.units;
            let z = dx * u.z.units + dy * v.z.units;
            x * x + y * y + z * z == (dx * dx) * exact_dot(u, u) + 2 * ((dx * dy) * exact_dot(u, v))
                + (dy * dy) * exact_dot(v, v)
        }),
{
    square_of_sum(dx, dy, u.x.units as int, v.x.units as int);
    square_of_sum(dx, dy, u.y.units as int, v.y.units as int);
    square_of_sum(dx, dy, u.z.units as int, v.z.units as int);
    three_terms(dx * dx, u, u);
    three_terms(dx * dy, u, v);
    three_terms(dy * dy, v, v);
}

proof fn three_terms(k: int, a: Vec3<Fixed>, b: Vec3<Fixed>)
    ensures
        k * exact_dot(a, b) == k * (a.x.units * b.x.units) + k * (a.y.units * b.y.units) + k * (
        a.z.units * b.z.units),
{
    let (p, q, r) = (
        a.x.units * b.x.units,
        a.y.units * b.y.units,
        a.z.units * b.z.units,
    );
    assert(k * (p + q + r) == k * p + k * q + k * r) by (nonlinear_arith);
}

proof fn square_of_sum(dx: int, dy: int, a: int, b: int)
    ensures
        (dx * a + dy * b) * (dx * a + dy * b) == (dx * dx) * (a * a) + 2 * ((dx * dy) * (a * b)) + (
        dy * dy) * (b * b),
{
    let (s, t) = (dx * a, dy * b);
    assert((s + t) * (s + t) == s * s + 2 * (s * t) + t * t) by (nonlinear_arith);
    assert(s * s == (dx * dx) * (a * a)) by (nonlinear_arith)
        requires
            s == dx * a,
    ;
    assert(s * t == (dx * dy) * (a * b)) by (nonlinear_arith)
        requires
            s == dx * a,
            t == dy * b,
    ;
    assert(t * t == (dy * dy) * (b * b)) by (nonlinear_arith)
        requires
            t == dy * b,
    ;
}

/// A square, or a product, of two ways of at most `far`, times what an axis is off.
proof fn part_off(k: int, off: int, far: int, limit: int)
    requires
        -(far * far) <= k <= far * far,
        -limit <= off <= limit,
    ensures
        -(far * far * limit) <= k * off <= far * far * limit,
{
    let most = far * far;
    assert(-(most * limit) <= k * off <= most * limit) by (nonlinear_arith)
        requires
            -most <= k <= most,
            -limit <= off <= limit,
    ;
}

/// Distances in a plane are kept in space, but for rounding, and for what the axes are short of
/// being perpendicular and of length one: the squares differ by no more than stated.
pub proof fn plane_distances_are_kept(
    p: Point2D<Fixed>,
    q: Point2D<Fixed>,
    origin: Point3D<Fixed>,
    u: Vec3<Fixed>,
    v: Vec3<Fixed>,
    slack: int,
    reach: int,
)
    requires
        nearly_orthonormal(u, v, slack),
        -reach <= p.x.units <= reach,
        -reach <= p.y.units <= reach,
        -reach <= q.x.units <= reach,
        -reach <= q.y.units <= reach,
        point_within(origin, reach),
        0 <= reach <= 10_000_000_000_000_000,
    ensures
        ({
            let a = shading::from_local_2d(&p, &origin, &u, &v);
            let b = shading::from_local_2d(&q, &origin, &u, &v);
            let (x, y, z) = (
                a.x.units - b.x.units,
                a.y.units - b.y.units,
                a.z.units - b.z.units,
            );
            let (dx, dy) = (p.x.units - q.x.units, p.y.units - q.y.units);
            let gap = x * x + y * y + z * z - (dx * dx + dy * dy);
            let allowed = 16 * (reach * reach) * slack + fixed::SCALE * (96 * reach + 60);
            -allowed <= fixed::SCALE * gap <= allowed
        }),
{
    let scale: int = 1_000_000_000;
    assert(fixed::SCALE == scale);
    assert(slack * scale <= scale * scale) by (nonlinear_arith)
        requires
            0 <= slack <= scale,
    ;
    unit_vector_is_short(u);
    unit_vector_is_short(v);
    let a = shading::from_local_2d(&p, &origin, &u, &v);
    let b = shading::from_local_2d(&q, &origin, &u, &v);
    let (x, y, z) = (a.x.units - b.x.units, a.y.units - b.y.units, a.z.units - b.z.units);
    let (dx, dy) = (p.x.units - q.x.units, p.y.units - q.y.units);
    let ex = component_between(p, q, u.x, v.x, origin.x, reach);
    let ey = component_between(p, q, u.y, v.y, origin.y, reach);
    let ez = component_between(p, q, u.z, v.z, origin.z, reach);
    let xx = dx * u.x.units + dy * v.x.units;
    let yy = dx * u.y.units + dy * v.y.units;
    let zz = dx * u.z.units + dy * v.z.units;
    let limit = 8 * reach + 4;
    square_of_rounded(x, xx, ex, limit);
    square_of_rounded(y, yy, ey, limit);
    square_of_rounded(z, zz, ez, limit);
    squares_of_combination(dx, dy, u, v);
    let far = 2 * reach;
    assert(-(far * far) <= dx * dx <= far * far && -(far * far) <= dy * dy <= far * far && -(far
        * far) <= dx * dy <= far * far) by (nonlinear_arith)
        requires
            -far <= dx <= far,
            -far <= dy <= far,
    ;
    let tilt = slack * scale;
    let (uu, uv, vv) = (
        exact_dot(u, u) - scale * scale,
        exact_dot(u, v),
        exact_dot(v, v) - scale * scale,
    );
    part_off(dx * dx, uu, far, tilt);
    part_off(dx * dy, uv, far, tilt);
    part_off(dy * dy, vv, far, tilt);
    assert((dx * dx) * exact_dot(u, u) == (dx * dx) * uu + scale * scale * (dx * dx))
        by (nonlinear_arith)
        requires
            uu == exact_dot(u, u) - scale * scale,
    ;
    assert((dy * dy) * exact_dot(v, v) == (dy * dy) * vv + scale * scale * (dy * dy))
        by (nonlinear_arith)
        requires
            vv == exact_dot(v, v) - scale * scale,
    ;
    assert(limit + 1 == 8 * reach + 5);
    gap_is_allowed(
        x * x,
        y * y,
        z * z,
        dx * dx,
        dy * dy,
        xx * xx,
        yy * yy,
        zz * zz,
        (dx * dx) * uu,
        (dx * dy) * uv,
        (dy * dy) * vv,
        slack,
        reach,
    );
}

/// The bound on a difference of squared distances, from bounds on its parts.
proof fn gap_is_allowed(
    x2: int,
    y2: int,
    z2: int,
    dx2: int,
    dy2: int,
    xx2: int,
    yy2: int,
    zz2: int,
    off_u: int,
    off_uv: int,
    off_v: int,
    slack: int,
    reach: int,
)
    requires
        ({
            let scale: int = 1_000_000_000;
            let lost = 4 * (scale * scale) * (8 * reach + 5);
            let off = (2 * reach) * (2 * reach) * (slack * scale);
            &&& -lost <= xx2 - scale * scale * x2 <= lost
            &&& -lost <= yy2 - scale * scale * y2 <= lost
            &&& -lost <= zz2 - scale * scale * z2 <= lost
            &&& -off <= off_u <= off
            &&& -off <= off_uv <= off
            &&& -off <= off_v <= off
            &&& xx2 + yy2 + zz2 == off_u + scale * scale * dx2 + 2 * off_uv + off_v + scale * scale
                * dy2
        }),
    ensures
        ({
            let gap = x2 + y2 + z2 - (dx2 + dy2);
            let allowed = 16 * (reach * reach) * slack + 1_000_000_000 * (96 * reach + 60);
            -allowed <= 1_000_000_000 * gap <= allowed
        }),
{
    let scale: int = 1_000_000_000;
    let square: int = 1_000_000_000_000_000_000;
    assert(scale * scale == square);
    let gap = x2 + y2 + z2 - (dx2 + dy2);
    let lost = 4 * (scale * scale) * (8 * reach + 5);
    let off = (2 * reach) * (2 * reach) * (slack * scale);
    assert(scale * scale * x2 == square * x2 && scale * scale * y2 == square * y2 && scale * scale
        * z2 == square * z2 && scale * scale * dx2 == square * dx2 && scale * scale * dy2 == square
        * dy2) by (nonlinear_arith)
        requires
            scale * scale == square,
    ;
    assert(lost == square * (32 * reach + 20)) by (nonlinear_arith)
        requires
            lost == 4 * (scale * scale) * (8 * reach + 5),
            scale * scale == square,
    ;
    let area = reach * reach * slack;
    assert(off == 4 * (scale * area)) by (nonlinear_arith)
        requires
            off == (2 * reach) * (2 * reach) * (slack * scale),
            area == reach * reach * slack,
    {
        assert((2 * reach) * (2 * reach) == 4 * (reach * reach));
        assert(4 * (reach * reach) * (slack * scale) == 4 * ((reach * reach * slack) * scale));
    }
    assert(16 * (reach * reach) * slack == 16 * area) by (nonlinear_arith)
        requires
            area == reach * reach * slack,
    ;
    assert(-(3 * lost + 4 * off) <= square * gap <= 3 * lost + 4 * off);
    assert(3 * lost + 4 * off == scale * (16 * area + scale * (96 * reach + 60)));
    assert(square * gap == scale * (scale * gap));
}

/// The origin of a plane has the coordinates zero in it, whatever its axes.
pub proof fn origin_is_at_zero(origin: Point3D<Fixed>, u: Vec3<Fixed>, v: Vec3<Fixed>)
    ensures
        shading::to_local_2d(&origin, &origin, &u, &v) == (Point2D {
            x: num::<Fixed>(0),
            y: num::<Fixed>(0),
        }),
{
    let zero = Fixed { units: 0 };
    let d = origin.from(&origin);
    assert(d == Vec3 { x: zero, y: zero, z: zero });
    assert forall|c: Fixed| #[trigger] zero.product(c) == zero by {
        assert(0 * c.units == 0);
    }
}

/// How far a coordinate may be off once a point has gone to space and back, in units.
pub open spec fn coordinate_slack(reach: int, slack: int) -> int {
    2 * reach * slack / (fixed::SCALE as int) + 16
}

/// A point of a plane that is taken to space and back is within the coordinate slack.
proof fn coordinates_within_slack(
    point: Point2D<Fixed>,
    origin: Point3D<Fixed>,
    u: Vec3<Fixed>,
    v: Vec3<Fixed>,
    slack: int,
    reach: int,
)
    requires
        nearly_orthonormal(u, v, slack),
        -reach <= point.x.units <= reach,
        -reach <= point.y.units <= reach,
        point_within(origin, reach),
        0 <= reach <= 1_000_000_000_000_000,
    ensures
        ({
            let back = shading::to_local_2d(
                &shading::from_local_2d(&point, &origin, &u, &v),
                &origin,
                &u,
                &v,
            );
            let e = coordinate_slack(reach, slack);
            &&& -e <= back.x.units - point.x.units <= e
            &&& -e <= back.y.units - point.y.units <= e
            &&& 16 <= e <= 2 * reach + 16
        }),
{
    plane_coordinates_come_back(point, origin, u, v, slack, reach);
    let scale = fixed::SCALE as int;
    let far = 2 * reach * slack;
    assert(0 <= far <= 2 * reach * scale) by (nonlinear_arith)
        requires
            far == 2 * reach * slack,
            0 <= slack <= scale,
            0 <= reach,
    ;
    lemma_fundamental_div_mod(far, scale);
    lemma_mod_bound(far, scale);
    lemma_div_pos_is_pos(far, scale);
}

/// A point of a plane is where its coordinates say, but for rounding and for what the axes are
/// short of being perpendicular and of length one. The points of the plane are those that have
/// coordinates in it.
pub proof fn points_of_a_plane_come_back(
    point: Point2D<Fixed>,
    origin: Point3D<Fixed>,
    u: Vec3<Fixed>,
    v: Vec3<Fixed>,
    slack: int,
    reach: int,
)
    requires
        nearly_orthonormal(u, v, slack),
        -reach <= point.x.units <= reach,
        -reach <= point.y.units <= reach,
        point_within(origin, reach),
        0 <= reach <= 1_000_000_000_000_000,
    ensures
        ({
            let p = shading::from_local_2d(&point, &origin, &u, &v);
            let image = shading::to_local_2d(&p, &origin, &u, &v);
            let back = shading::from_local_2d(&image, &origin, &u, &v);
            let e = 4 * coordinate_slack(reach, slack) + 2;
            &&& -e <= back.x.units - p.x.units <= e
            &&& -e <= back.y.units - p.y.units <= e
            &&& -e <= back.z.units - p.z.units <= e
        }),
{
    let scale: int = 1_000_000_000;
    coordinates_within_slack(point, origin, u, v, slack, reach);
    assert(slack * scale <= scale * scale) by (nonlinear_arith)
        requires
            0 <= slack <= scale,
    ;
    unit_vector_is_short(u);
    unit_vector_is_short(v);
    let p = shading::from_local_2d(&point, &origin, &u, &v);
    let image = shading::to_local_2d(&p, &origin, &u, &v);
    let e = coordinate_slack(reach, slack);
    let wide = 3 * reach + 16;
    let ex = component_between(image, point, u.x, v.x, origin.x, wide);
    let ey = component_between(image, point, u.y, v.y, origin.y, wide);
    let ez = component_between(image, point, u.z, v.z, origin.z, wide);
    let (dx, dy) = (image.x.units - point.x.units, image.y.units - point.y.units);
    combination_is_small(dx, dy, u.x.units as int, v.x.units as int, e);
    combination_is_small(dx, dy, u.y.units as int, v.y.units as int, e);
    combination_is_small(dx, dy, u.z.units as int, v.z.units as int, e);
}

proof fn combination_is_small(dx: int, dy: int, a: int, b: int, e: int)
    requires
        -e <= dx <= e,
        -e <= dy <= e,
        -2_000_000_000 <= a <= 2_000_000_000,
        -2_000_000_000 <= b <= 2_000_000_000,
    ensures
        -4_000_000_000 * e <= dx * a + dy * b <= 4_000_000_000 * e,
{
    assert(-2_000_000_000 * e <= dx * a <= 2_000_000_000 * e) by (nonlinear_arith)
        requires
            -e <= dx <= e,
            -2_000_000_000 <= a <= 2_000_000_000,
    ;
    assert(-2_000_000_000 * e <= dy * b <= 2_000_000_000 * e) by (nonlinear_arith)
        requires
            -e <= dy <= e,
            -2_000_000_000 <= b <= 2_000_000_000,
    ;
}

/// A square does not change much where what is squared does not.
proof fn square_is_near(d: int, off: int, far: int, e: int)
    requires
        -far <= d <= far,
        -2 * e <= off <= 2 * e,
    ensures
        -(2 * e * (2 * far + 2 * e)) <= (d + off) * (d + off) - d * d <= 2 * e * (2 * far + 2 * e),
{
    let most = 2 * far + 2 * e;
    assert((d + off) * (d + off) - d * d == off * (2 * d + off)) by (nonlinear_arith);
    assert(-(2 * e * most) <= off * (2 * d + off) <= 2 * e * most) by (nonlinear_arith)
        requires
            -2 * e <= off <= 2 * e,
            -most <= 2 * d + off <= most,
    ;
}

/// The distance of two points of a plane is that of their coordinates, but for rounding and for
/// what the axes are short of being perpendicular and of length one: the squares differ by no
/// more than stated.
pub proof fn distances_of_images_are_kept(
    x: Point2D<Fixed>,
    y: Point2D<Fixed>,
    origin: Point3D<Fixed>,
    u: Vec3<Fixed>,
    v: Vec3<Fixed>,
    slack: int,
    reach: int,
)
    requires
        nearly_orthonormal(u, v, slack),
        -reach <= x.x.units <= reach,
        -reach <= x.y.units <= reach,
        -reach <= y.x.units <= reach,
        -reach <= y.y.units <= reach,
        point_within(origin, reach),
        0 <= reach <= 1_000_000_000_000_000,
    ensures
        ({
            let (p, q) = (
                shading::from_local_2d(&x, &origin, &u, &v),
                shading::from_local_2d(&y, &origin, &u, &v),
            );
            let (a, b) = (
                shading::to_local_2d(&p, &origin, &u, &v),
                shading::to_local_2d(&q, &origin, &u, &v),
            );
            let in_plane = (a.x.units - b.x.units) * (a.x.units - b.x.units) + (a.y.units
                - b.y.units) * (a.y.units - b.y.units);
            let in_space = (p.x.units - q.x.units) * (p.x.units - q.x.units) + (p.y.units
                - q.y.units) * (p.y.units - q.y.units) + (p.z.units - q.z.units) * (p.z.units
                - q.z.units);
            let e = coordinate_slack(reach, slack);
            let allowed = 16 * (reach * reach) * slack + fixed::SCALE * (96 * reach + 60)
                + fixed::SCALE * (4 * e * (4 * reach + 2 * e));
            -allowed <= fixed::SCALE * (in_plane - in_space) <= allowed
        }),
{
    let (p, q) = (
        shading::from_local_2d(&x, &origin, &u, &v),
        shading::from_local_2d(&y, &origin, &u, &v),
    );
    let (a, b) = (
        shading::to_local_2d(&p, &origin, &u, &v),
        shading::to_local_2d(&q, &origin, &u, &v),
    );
    let e = coordinate_slack(reach, slack);
    plane_distances_are_kept(x, y, origin, u, v, slack, reach);
    coordinates_within_slack(x, origin, u, v, slack, reach);
    coordinates_within_slack(y, origin, u, v, slack, reach);
    let (dx, dy) = (x.x.units - y.x.units, x.y.units - y.y.units);
    let (ax, ay) = (a.x.units - b.x.units, a.y.units - b.y.units);
    square_is_near(dx, ax - dx, 2 * reach, e);
    square_is_near(dy, ay - dy, 2 * reach, e);
    assert(dx + (ax - dx) == ax && dy + (ay - dy) == ay);
    let off = 2 * e * (4 * reach + 2 * e);
    assert(2 * e * (2 * (2 * reach) + 2 * e) == off);
    assert(4 * e * (4 * reach + 2 * e) == 2 * off) by (nonlinear_arith)
        requires
            off == 2 * e * (4 * reach + 2 * e),
    ;
}

} // verus!
