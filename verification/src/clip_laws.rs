//! How near the vertices of a clipped polygon are to where they belong, on fixed-point numbers.
use crate::fixed;
use crate::fixed::Fixed;
use crate::geometry;
use crate::scalar::{lit, Scalar};
use crate::shading;
use crate::shading::Point2D;
use crate::shading_laws;
use vstd::arithmetic::div_mod::*;
use vstd::prelude::*;

verus! {

/// On which side of an edge a point lies, in squared units, without rounding: positive on the
/// left, zero on the line, and as large as the distance times the length of the edge.
pub open spec fn side(
    p: Point2D<Fixed>,
    edge_start: Point2D<Fixed>,
    edge_end: Point2D<Fixed>,
) -> int {
    (edge_end.x.units - edge_start.x.units) * (p.y.units - edge_start.y.units) - (edge_end.y.units
        - edge_start.y.units) * (p.x.units - edge_start.x.units)
}

/// A point is within `reach` units of zero either way.
pub open spec fn near_zero(p: Point2D<Fixed>, reach: int) -> bool {
    -reach <= p.x.units <= reach && -reach <= p.y.units <= reach
}

/// Products of coordinates within `reach` stay within the range of the numbers.
pub open spec fn is_reach(reach: int) -> bool {
    0 <= reach <= 10_000_000_000_000
}

/// What a product of two differences of coordinates is rounded to.
proof fn rounded_product(a: Fixed, b: Fixed, reach: int)
    requires
        is_reach(reach),
        -2 * reach <= a.units <= 2 * reach,
        -2 * reach <= b.units <= 2 * reach,
    ensures
        ({
            let p = a.product(b).units;
            &&& fixed::SCALE * p <= a.units * b.units < fixed::SCALE * p + fixed::SCALE
            &&& -1_000_000_000_000_000_000 <= p <= 1_000_000_000_000_000_000
        }),
{
    let exact = a.units * b.units;
    assert(-400_000_000_000_000_000_000_000_000 <= exact <= 400_000_000_000_000_000_000_000_000)
        by (nonlinear_arith)
        requires
            exact == a.units * b.units,
            -20_000_000_000_000 <= a.units <= 20_000_000_000_000,
            -20_000_000_000_000 <= b.units <= 20_000_000_000_000,
    ;
    lemma_fundamental_div_mod(exact, fixed::SCALE as int);
    lemma_mod_bound(exact, fixed::SCALE as int);
}

/// The side that the rounded test sees.
pub open spec fn seen_side(
    p: Point2D<Fixed>,
    edge_start: Point2D<Fixed>,
    edge_end: Point2D<Fixed>,
) -> Fixed {
    edge_end.x.difference(edge_start.x).product(p.y.difference(edge_start.y)).difference(
        edge_end.y.difference(edge_start.y).product(p.x.difference(edge_start.x)),
    )
}

proof fn seen_side_is_near(
    p: Point2D<Fixed>,
    edge_start: Point2D<Fixed>,
    edge_end: Point2D<Fixed>,
    reach: int,
)
    requires
        is_reach(reach),
        near_zero(p, reach),
        near_zero(edge_start, reach),
        near_zero(edge_end, reach),
    ensures
        ({
            let seen = seen_side(p, edge_start, edge_end).units;
            let exact = side(p, edge_start, edge_end);
            &&& fixed::SCALE * seen - fixed::SCALE < exact < fixed::SCALE * seen + fixed::SCALE
            &&& shading::inside_edge(p, edge_start, edge_end) <==> seen >= 0
        }),
{
    let dx = edge_end.x.difference(edge_start.x);
    let dy = edge_end.y.difference(edge_start.y);
    let px = p.x.difference(edge_start.x);
    let py = p.y.difference(edge_start.y);
    rounded_product(dx, py, reach);
    rounded_product(dy, px, reach);
    assert(lit::<Fixed>(1, 10_000_000_000).units == 0);
}

/// The divisor of the meeting point of a side with an edge, as it is rounded.
pub open spec fn divisor(
    p1: Point2D<Fixed>,
    p2: Point2D<Fixed>,
    p3: Point2D<Fixed>,
    p4: Point2D<Fixed>,
) -> Fixed {
    p1.x.difference(p2.x).product(p3.y.difference(p4.y)).difference(
        p1.y.difference(p2.y).product(p3.x.difference(p4.x)),
    )
}

spec fn dividend(p1: Point2D<Fixed>, p3: Point2D<Fixed>, p4: Point2D<Fixed>) -> Fixed {
    p1.x.difference(p3.x).product(p3.y.difference(p4.y)).difference(
        p1.y.difference(p3.y).product(p3.x.difference(p4.x)),
    )
}

proof fn dividend_is_near(p1: Point2D<Fixed>, p3: Point2D<Fixed>, p4: Point2D<Fixed>, reach: int)
    requires
        is_reach(reach),
        near_zero(p1, reach),
        near_zero(p3, reach),
        near_zero(p4, reach),
    ensures
        ({
            let n = dividend(p1, p3, p4).units;
            let exact = side(p1, p3, p4);
            fixed::SCALE * n - fixed::SCALE < exact < fixed::SCALE * n + fixed::SCALE
        }),
{
    let a = p1.x.difference(p3.x);
    let b = p3.y.difference(p4.y);
    let c = p1.y.difference(p3.y);
    let d = p3.x.difference(p4.x);
    rounded_product(a, b, reach);
    rounded_product(c, d, reach);
    assert(a.units * b.units - c.units * d.units == side(p1, p3, p4)) by {
        assert(a.units * b.units == -((p4.y.units - p3.y.units) * (p1.x.units - p3.x.units)))
            by (nonlinear_arith)
            requires
                a.units == p1.x.units - p3.x.units,
                b.units == p3.y.units - p4.y.units,
        ;
        assert(c.units * d.units == -((p4.x.units - p3.x.units) * (p1.y.units - p3.y.units)))
            by (nonlinear_arith)
            requires
                c.units == p1.y.units - p3.y.units,
                d.units == p3.x.units - p4.x.units,
        ;
    }
}

proof fn divisor_is_near(
    p1: Point2D<Fixed>,
    p2: Point2D<Fixed>,
    p3: Point2D<Fixed>,
    p4: Point2D<Fixed>,
    reach: int,
)
    requires
        is_reach(reach),
        near_zero(p1, reach),
        near_zero(p2, reach),
        near_zero(p3, reach),
        near_zero(p4, reach),
    ensures
        ({
            let d = divisor(p1, p2, p3, p4).units;
            let exact = side(p1, p3, p4) - side(p2, p3, p4);
            &&& fixed::SCALE * d - fixed::SCALE < exact < fixed::SCALE * d + fixed::SCALE
            &&& -2_000_000_000_000_000_000 <= d <= 2_000_000_000_000_000_000
        }),
{
    let a = p1.x.difference(p2.x);
    let b = p3.y.difference(p4.y);
    let c = p1.y.difference(p2.y);
    let d = p3.x.difference(p4.x);
    rounded_product(a, b, reach);
    rounded_product(c, d, reach);
    let dx = p4.x.units - p3.x.units;
    let dy = p4.y.units - p3.y.units;
    assert(a.units * b.units == dy * (p2.x.units - p3.x.units) - dy * (p1.x.units - p3.x.units))
        by (nonlinear_arith)
        requires
            a.units == p1.x.units - p2.x.units,
            b.units == p3.y.units - p4.y.units,
            dy == p4.y.units - p3.y.units,
    ;
    assert(c.units * d.units == dx * (p2.y.units - p3.y.units) - dx * (p1.y.units - p3.y.units))
        by (nonlinear_arith)
        requires
            c.units == p1.y.units - p2.y.units,
            d.units == p3.x.units - p4.x.units,
            dx == p4.x.units - p3.x.units,
    ;
}

/// The share of the way along a side at which it meets an edge, where its ends lie on
/// different sides of the edge.
proof fn share_is_bounded(n: Fixed, d: Fixed, one: int, other: int)
    requires
        d.units != 0,
        -2_000_000_000_000_000_000 <= d.units <= 2_000_000_000_000_000_000,
        1_000_000_000 * n.units - 1_000_000_000 < one < 1_000_000_000 * n.units + 1_000_000_000,
        1_000_000_000 * d.units - 1_000_000_000 < one - other < 1_000_000_000 * d.units
            + 1_000_000_000,
        (one > -1_000_000_000 && other < 0) || (one < 0 && other > -1_000_000_000),
    ensures
        ({
            let t = n.quotient(d).units;
            let size = if d.units < 0 {
                -d.units
            } else {
                d.units as int
            };
            &&& -4_000_000_000 <= t <= 4_000_000_000
            &&& -size <= d.units * t - n.units * 1_000_000_000 <= size
        }),
{
    let size = if d.units < 0 {
        -d.units
    } else {
        d.units as int
    };
    let top = if d.units < 0 {
        -n.units
    } else {
        n.units as int
    };
    assert(-size - 2 <= top <= size + 2);
    let exact = top * 1_000_000_000;
    let q = exact / size;
    lemma_fundamental_div_mod(exact, size);
    lemma_mod_bound(exact, size);
    assert(-4_000_000_000 <= q <= 4_000_000_000) by (nonlinear_arith)
        requires
            exact == size * q + exact % size,
            0 <= exact % size < size,
            1 <= size,
            -(size + 2) * 1_000_000_000 <= exact <= (size + 2) * 1_000_000_000,
    ;
    if d.units < 0 {
        assert(-n.units * fixed::SCALE == exact);
        assert(n.quotient(d).units == q);
        assert(d.units * q == -(size * q)) by (nonlinear_arith)
            requires
                size == -d.units,
        ;
    } else {
        assert(n.units * fixed::SCALE == exact);
        assert(n.quotient(d).units == q);
    }
}

/// A step along one coordinate of a side, and what rounding took from it.
proof fn step_along(t: Fixed, from: Fixed, to: Fixed, reach: int) -> (lost: int)
    requires
        is_reach(reach),
        -reach <= from.units <= reach,
        -reach <= to.units <= reach,
        -4_000_000_000 <= t.units <= 4_000_000_000,
    ensures
        ({
            let at = from.sum(t.product(to.difference(from))).units;
            &&& fixed::SCALE * (at - from.units) == t.units * (to.units - from.units) - lost
            &&& 0 <= lost < fixed::SCALE
        }),
{
    let way = to.difference(from);
    let exact = t.units * way.units;
    assert(-80_000_000_000_000_000_000_000 <= exact <= 80_000_000_000_000_000_000_000)
        by (nonlinear_arith)
        requires
            exact == t.units * way.units,
            -4_000_000_000 <= t.units <= 4_000_000_000,
            -20_000_000_000_000 <= way.units <= 20_000_000_000_000,
    ;
    lemma_fundamental_div_mod(exact, fixed::SCALE as int);
    lemma_mod_bound(exact, fixed::SCALE as int);
    exact % (fixed::SCALE as int)
}

/// How far off the line of an edge a crossing is: the sum of what each rounding adds.
proof fn offset_of_crossing(
    dx: int,
    dy: int,
    ax: int,
    ay: int,
    wx: int,
    wy: int,
    kx: int,
    ky: int,
    lost_x: int,
    lost_y: int,
    t: int,
    n: int,
    d: int,
    size: int,
)
    requires
        1_000_000_000 * kx == t * wx - lost_x,
        1_000_000_000 * ky == t * wy - lost_y,
        0 <= lost_x < 1_000_000_000,
        0 <= lost_y < 1_000_000_000,
        -4_000_000_000 <= t <= 4_000_000_000,
        -size <= d * t - n * 1_000_000_000 <= size,
        -1_000_000_000 <= dx * ay - dy * ax - 1_000_000_000 * n <= 1_000_000_000,
        -1_000_000_000 <= -(dx * wy - dy * wx) - 1_000_000_000 * d <= 1_000_000_000,
        0 <= size,
    ensures
        ({
            let off = dx * (ay + ky) - dy * (ax + kx);
            let length = (if dx < 0 {
                -dx
            } else {
                dx
            }) + (if dy < 0 {
                -dy
            } else {
                dy
            });
            -(5_000_000_000 + size + length) <= off <= 5_000_000_000 + size + length
        }),
{
    let scale: int = 1_000_000_000;
    let off = dx * (ay + ky) - dy * (ax + kx);
    let start = dx * ay - dy * ax;
    let drop = -(dx * wy - dy * wx);
    let e1 = drop - scale * d;
    let e2 = start - scale * n;
    let e3 = d * t - n * scale;
    assert(off == start + dx * ky - dy * kx) by (nonlinear_arith)
        requires
            off == dx * (ay + ky) - dy * (ax + kx),
            start == dx * ay - dy * ax,
    ;
    assert(scale * (dx * ky) == dx * (t * wy - lost_y)) by (nonlinear_arith)
        requires
            scale * ky == t * wy - lost_y,
    ;
    assert(scale * (dy * kx) == dy * (t * wx - lost_x)) by (nonlinear_arith)
        requires
            scale * kx == t * wx - lost_x,
    ;
    assert(dx * (t * wy - lost_y) - dy * (t * wx - lost_x) == -(t * drop) - dx * lost_y + dy
        * lost_x) by (nonlinear_arith)
        requires
            drop == -(dx * wy - dy * wx),
    {
        assert(dx * (t * wy - lost_y) == t * (dx * wy) - dx * lost_y);
        assert(dy * (t * wx - lost_x) == t * (dy * wx) - dy * lost_x);
        assert(t * drop == -(t * (dx * wy)) + t * (dy * wx));
    }
    assert(t * drop == scale * (n * scale) + scale * e3 + t * e1) by (nonlinear_arith)
        requires
            drop == scale * d + e1,
            d * t == n * scale + e3,
    {
        assert(t * drop == scale * (d * t) + t * e1);
    }
    assert(scale * start == scale * (n * scale) + scale * e2) by (nonlinear_arith)
        requires
            start == scale * n + e2,
    ;
    let (sx, sy) = (
        if dx < 0 {
            -dx
        } else {
            dx
        },
        if dy < 0 {
            -dy
        } else {
            dy
        },
    );
    assert(-(scale * sx) <= dx * lost_y <= scale * sx) by (nonlinear_arith)
        requires
            -sx <= dx <= sx,
            0 <= lost_y <= scale,
    ;
    assert(-(scale * sy) <= dy * lost_x <= scale * sy) by (nonlinear_arith)
        requires
            -sy <= dy <= sy,
            0 <= lost_x <= scale,
    ;
    assert(-(4 * scale * scale) <= t * e1 <= 4 * scale * scale) by (nonlinear_arith)
        requires
            -4 * scale <= t <= 4 * scale,
            -scale <= e1 <= scale,
    ;
    assert(scale * off == scale * e2 - scale * e3 - t * e1 - dx * lost_y + dy * lost_x);
}

/// The point where a side crosses an edge lies on the line of the edge but for rounding: the
/// ends of the side lie on different sides of the edge, and the side is not so near to being
/// parallel that the rounded divisor is zero.
pub proof fn crossing_lies_on_the_edge(
    p1: Point2D<Fixed>,
    p2: Point2D<Fixed>,
    edge_start: Point2D<Fixed>,
    edge_end: Point2D<Fixed>,
    reach: int,
)
    requires
        is_reach(reach),
        near_zero(p1, reach),
        near_zero(p2, reach),
        near_zero(edge_start, reach),
        near_zero(edge_end, reach),
        shading::inside_edge(p1, edge_start, edge_end) != shading::inside_edge(
            p2,
            edge_start,
            edge_end,
        ),
        divisor(p1, p2, edge_start, edge_end).units != 0,
    ensures
        ({
            let crossing = shading::meeting_point(p1, p2, edge_start, edge_end);
            let off = side(crossing->Some_0, edge_start, edge_end);
            let allowed = crossing_slack(p1, p2, edge_start, edge_end);
            crossing is Some && -allowed <= off <= allowed
        }),
{
    let (s, e) = (edge_start, edge_end);
    let n = dividend(p1, s, e);
    let d = divisor(p1, p2, s, e);
    dividend_is_near(p1, s, e, reach);
    divisor_is_near(p1, p2, s, e, reach);
    seen_side_is_near(p1, s, e, reach);
    seen_side_is_near(p2, s, e, reach);
    share_is_bounded(n, d, side(p1, s, e), side(p2, s, e));
    let t = n.quotient(d);
    assert(lit::<Fixed>(1, 1_000_000_000_000).units == 0);
    let at = shading::meeting_point(p1, p2, s, e)->Some_0;
    let lost_x = step_along(t, p1.x, p2.x, reach);
    let lost_y = step_along(t, p1.y, p2.y, reach);
    let (dx, dy) = (e.x.units - s.x.units, e.y.units - s.y.units);
    let (ax, ay) = (p1.x.units - s.x.units, p1.y.units - s.y.units);
    let (wx, wy) = (p2.x.units - p1.x.units, p2.y.units - p1.y.units);
    assert(-(dx * wy - dy * wx) == side(p1, s, e) - side(p2, s, e)) by (nonlinear_arith)
        requires
            side(p1, s, e) == dx * ay - dy * ax,
            side(p2, s, e) == dx * (ay + wy) - dy * (ax + wx),
    ;
    offset_of_crossing(
        dx,
        dy,
        ax,
        ay,
        wx,
        wy,
        at.x.units - p1.x.units,
        at.y.units - p1.y.units,
        lost_x,
        lost_y,
        t.units as int,
        n.units as int,
        d.units as int,
        if d.units < 0 {
            -d.units
        } else {
            d.units as int
        },
    );
}

/// How far rounding may put a crossing off the line of an edge, in squared units: five for the
/// products, and the divisor and the edge once each.
pub open spec fn crossing_slack(
    p1: Point2D<Fixed>,
    p2: Point2D<Fixed>,
    edge_start: Point2D<Fixed>,
    edge_end: Point2D<Fixed>,
) -> int {
    let d = divisor(p1, p2, edge_start, edge_end).units;
    let dx = edge_end.x.units - edge_start.x.units;
    let dy = edge_end.y.units - edge_start.y.units;
    5 * fixed::SCALE + (if d < 0 {
        -d
    } else {
        d as int
    }) + (if dx < 0 {
        -dx
    } else {
        dx
    }) + (if dy < 0 {
        -dy
    } else {
        dy
    })
}

/// The sides of a polygon that cross an edge are none of them so near to being parallel to it
/// that the rounded divisor is zero.
pub open spec fn crosses_clearly(
    polygon: Seq<Point2D<Fixed>>,
    edge_start: Point2D<Fixed>,
    edge_end: Point2D<Fixed>,
) -> bool {
    forall|i: int|
        0 <= i < polygon.len() ==> {
            let previous = polygon[geometry::before_on_ring(i, polygon.len() as int)];
            let current = #[trigger] polygon[i];
            shading::inside_edge(previous, edge_start, edge_end) != shading::inside_edge(
                current,
                edge_start,
                edge_end,
            ) ==> divisor(previous, current, edge_start, edge_end).units != 0
        }
}

/// A vertex lies on the inner side of an edge, to within `slack` squared units.
pub open spec fn on_inner_side(
    v: Point2D<Fixed>,
    edge_start: Point2D<Fixed>,
    edge_end: Point2D<Fixed>,
    slack: int,
) -> bool {
    side(v, edge_start, edge_end) >= -slack
}

/// Behind a clip edge no vertex is left outside it, but for rounding: a corner that is kept is
/// off by less than a unit of area, and a crossing by no more than its rounding.
pub proof fn nothing_is_left_outside_an_edge(
    polygon: Seq<Point2D<Fixed>>,
    edge_start: Point2D<Fixed>,
    edge_end: Point2D<Fixed>,
    reach: int,
    slack: int,
    k: int,
)
    requires
        is_reach(reach),
        near_zero(edge_start, reach),
        near_zero(edge_end, reach),
        forall|i: int| 0 <= i < polygon.len() ==> near_zero(#[trigger] polygon[i], reach),
        crosses_clearly(polygon, edge_start, edge_end),
        fixed::SCALE <= slack,
        forall|i: int|
            0 <= i < polygon.len() ==> crossing_slack(
                polygon[geometry::before_on_ring(i, polygon.len() as int)],
                #[trigger] polygon[i],
                edge_start,
                edge_end,
            ) <= slack,
        0 <= k < shading::clip_by_edge(polygon, edge_start, edge_end, polygon.len()).len(),
    ensures
        on_inner_side(
            shading::clip_by_edge(polygon, edge_start, edge_end, polygon.len())[k],
            edge_start,
            edge_end,
            slack,
        ),
{
    let v = shading::clip_by_edge(polygon, edge_start, edge_end, polygon.len())[k];
    shading_laws::clip_by_edge_keeps_or_crosses(polygon, edge_start, edge_end, polygon.len(), k);
    if polygon.contains(v) && shading::inside_edge(v, edge_start, edge_end) {
        let m = choose|m: int| 0 <= m < polygon.len() && polygon[m] == v;
        assert(near_zero(polygon[m], reach));
        seen_side_is_near(v, edge_start, edge_end, reach);
    } else {
        let i = choose|i: int|
            0 <= i < polygon.len() && {
                let previous = polygon[geometry::before_on_ring(i, polygon.len() as int)];
                let current = #[trigger] polygon[i];
                &&& shading::inside_edge(previous, edge_start, edge_end) != shading::inside_edge(
                    current,
                    edge_start,
                    edge_end,
                )
                &&& shading::meeting_point(previous, current, edge_start, edge_end) == Some(v)
            };
        let previous = polygon[geometry::before_on_ring(i, polygon.len() as int)];
        assert(near_zero(previous, reach));
        crossing_lies_on_the_edge(previous, polygon[i], edge_start, edge_end, reach);
    }
}

/// A point to the left of an edge is inside it and one to the right is not, but for a unit of area.
pub proof fn left_of_an_edge_is_inside(
    p: Point2D<Fixed>,
    edge_start: Point2D<Fixed>,
    edge_end: Point2D<Fixed>,
    reach: int,
)
    requires
        is_reach(reach),
        near_zero(p, reach),
        near_zero(edge_start, reach),
        near_zero(edge_end, reach),
    ensures
        side(p, edge_start, edge_end) >= 1_000_000_000 ==> shading::inside_edge(
            p,
            edge_start,
            edge_end,
        ),
        side(p, edge_start, edge_end) <= -1_000_000_000 ==> !shading::inside_edge(
            p,
            edge_start,
            edge_end,
        ),
{
    seen_side_is_near(p, edge_start, edge_end, reach);
}

proof fn along_both(kx: int, ky: int, t: int, wx: int, wy: int, lost_x: int, lost_y: int)
    requires
        1_000_000_000 * kx == t * wx - lost_x,
        1_000_000_000 * ky == t * wy - lost_y,
        0 <= lost_x < 1_000_000_000,
        0 <= lost_y < 1_000_000_000,
    ensures
        ({
            let sx = if wx < 0 {
                -wx
            } else {
                wx
            };
            let sy = if wy < 0 {
                -wy
            } else {
                wy
            };
            -(sx + sy) <= kx * wy - ky * wx <= sx + sy
        }),
{
    let scale: int = 1_000_000_000;
    let sx = if wx < 0 {
        -wx
    } else {
        wx
    };
    let sy = if wy < 0 {
        -wy
    } else {
        wy
    };
    assert(scale * (kx * wy) == (t * wx) * wy - lost_x * wy) by (nonlinear_arith)
        requires
            scale * kx == t * wx - lost_x,
    ;
    assert(scale * (ky * wx) == (t * wy) * wx - lost_y * wx) by (nonlinear_arith)
        requires
            scale * ky == t * wy - lost_y,
    ;
    assert((t * wx) * wy == (t * wy) * wx) by (nonlinear_arith);
    assert(-(scale * sy) <= lost_x * wy <= scale * sy) by (nonlinear_arith)
        requires
            0 <= lost_x < scale,
            -sy <= wy <= sy,
    ;
    assert(-(scale * sx) <= lost_y * wx <= scale * sx) by (nonlinear_arith)
        requires
            0 <= lost_y < scale,
            -sx <= wx <= sx,
    ;
}

/// The point where a side crosses an edge lies on the side, but for rounding.
pub proof fn crossing_lies_on_the_side(
    p1: Point2D<Fixed>,
    p2: Point2D<Fixed>,
    edge_start: Point2D<Fixed>,
    edge_end: Point2D<Fixed>,
    reach: int,
)
    requires
        is_reach(reach),
        near_zero(p1, reach),
        near_zero(p2, reach),
        near_zero(edge_start, reach),
        near_zero(edge_end, reach),
        shading::inside_edge(p1, edge_start, edge_end) != shading::inside_edge(
            p2,
            edge_start,
            edge_end,
        ),
        divisor(p1, p2, edge_start, edge_end).units != 0,
    ensures
        ({
            let crossing = shading::meeting_point(p1, p2, edge_start, edge_end);
            let (wx, wy) = (p2.x.units - p1.x.units, p2.y.units - p1.y.units);
            let at = crossing->Some_0;
            let off = (at.x.units - p1.x.units) * wy - (at.y.units - p1.y.units) * wx;
            let allowed = (if wx < 0 {
                -wx
            } else {
                wx
            }) + (if wy < 0 {
                -wy
            } else {
                wy
            });
            crossing is Some && -allowed <= off <= allowed
        }),
{
    let (s, e) = (edge_start, edge_end);
    let n = dividend(p1, s, e);
    let d = divisor(p1, p2, s, e);
    dividend_is_near(p1, s, e, reach);
    divisor_is_near(p1, p2, s, e, reach);
    seen_side_is_near(p1, s, e, reach);
    seen_side_is_near(p2, s, e, reach);
    share_is_bounded(n, d, side(p1, s, e), side(p2, s, e));
    let t = n.quotient(d);
    assert(lit::<Fixed>(1, 1_000_000_000_000).units == 0);
    let at = shading::meeting_point(p1, p2, s, e)->Some_0;
    let lost_x = step_along(t, p1.x, p2.x, reach);
    let lost_y = step_along(t, p1.y, p2.y, reach);
    along_both(
        at.x.units - p1.x.units,
        at.y.units - p1.y.units,
        t.units as int,
        p2.x.units - p1.x.units,
        p2.y.units - p1.y.units,
        lost_x,
        lost_y,
    );
}

/// Each side of a polygon leaves its share behind an edge: a side that comes in its crossing and its
/// end, a side inside its end, a side that goes out its crossing, and a side outside nothing. The
/// side of a corner comes from the corner before it, and that of the first from the last.
pub proof fn each_side_leaves_its_share<T: Scalar>(
    polygon: Seq<Point2D<T>>,
    edge_start: Point2D<T>,
    edge_end: Point2D<T>,
    n: nat,
)
    requires
        n < polygon.len(),
    ensures
        shading::clip_by_edge(polygon, edge_start, edge_end, 0).len() == 0,
        ({
            let before = shading::clip_by_edge(polygon, edge_start, edge_end, n);
            let after = shading::clip_by_edge(polygon, edge_start, edge_end, n + 1);
            let p = polygon[if n == 0 {
                polygon.len() - 1
            } else {
                n - 1
            }];
            let q = polygon[n as int];
            let (p_in, q_in) = (
                shading::inside_edge(p, edge_start, edge_end),
                shading::inside_edge(q, edge_start, edge_end),
            );
            let m = shading::meeting_point(p, q, edge_start, edge_end);
            &&& p_in && q_in ==> after == before.push(q)
            &&& !p_in && q_in && m is Some ==> after == before.push(m->Some_0).push(q)
            &&& !p_in && q_in && m is None ==> after == before.push(q)
            &&& p_in && !q_in && m is Some ==> after == before.push(m->Some_0)
            &&& p_in && !q_in && m is None ==> after == before
            &&& !p_in && !q_in ==> after == before
        }),
{
    let before = shading::clip_by_edge(polygon, edge_start, edge_end, n);
    let after = shading::clip_by_edge(polygon, edge_start, edge_end, n + 1);
    let p = polygon[if n == 0 {
        polygon.len() - 1
    } else {
        n - 1
    }];
    let q = polygon[n as int];
    let m = shading::meeting_point(p, q, edge_start, edge_end);
    if m is Some {
        assert(before + seq![m->Some_0].push(q) =~= before.push(m->Some_0).push(q));
        assert(before + seq![m->Some_0] =~= before.push(m->Some_0));
    }
    assert(before + Seq::<Point2D<T>>::empty().push(q) =~= before.push(q));
    assert(before + seq![q] =~= before.push(q));
    assert(before + Seq::<Point2D<T>>::empty() =~= before);
}

/// Every edge of the clip takes its part of what the edges before it left, the last one from its last
/// corner back to the first; without a polygon to clip by nothing is left.
pub proof fn every_edge_of_the_clip_counts<T: Scalar>(
    subject: Seq<Point2D<T>>,
    clip: Seq<Point2D<T>>,
    n: nat,
)
    requires
        n < clip.len(),
    ensures
        shading::clip_by_edges(subject, clip, 0) == subject,
        ({
            let before = shading::clip_by_edges(subject, clip, n);
            let next = if n + 1 == clip.len() {
                0
            } else {
                n as int + 1
            };
            shading::clip_by_edges(subject, clip, n + 1) == shading::clip_by_edge(
                before,
                clip[n as int],
                clip[next],
                before.len(),
            )
        }),
        clip.len() >= 3 ==> shading::clipped(subject, clip) == shading::clip_by_edges(
            subject,
            clip,
            clip.len(),
        ),
        clip.len() < 3 ==> shading::clipped(subject, clip).len() == 0,
{
}

} // verus!
