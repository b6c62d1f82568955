//! Directions, normals, and where overhangs and fins stand, on fixed-point numbers.
use crate::fixed;
use crate::fixed::Fixed;
use crate::frame_laws::{length_is_rounded, vector_within};
use crate::geometry;
use crate::geometry::{Point3D, Vec3};
use crate::number_laws::series_begin_as_they_should;
use crate::plane_laws::point_within;
use crate::rounding::whole_product_is_exact;
use crate::scalar::{lit, num, Scalar};
use crate::shading;
use crate::shading::{
    FinInput, FinSide, OverhangInput, Point2D, ShadingPolygon, ShadingSurfaceInput,
};
use vstd::arithmetic::div_mod::*;
use vstd::prelude::*;

verus! {

// ---------------------------------------------------------------------------
// Directions

/// The length of a vector is the root of the sum of its squares, but for rounding.
pub proof fn length_is_the_root_of_the_squares(e: Vec3<Fixed>)
    requires
        vector_within(e, 10_000_000_000_000),
        e.length().units > 0,
    ensures
        ({
            let l = e.length().units;
            let squares = e.x.units * e.x.units + e.y.units * e.y.units + e.z.units * e.z.units;
            l * l <= squares < (l + 1) * (l + 1) + 3_000_000_000
        }),
{
    length_is_rounded(e);
}

proof fn share_of_a_length(c: Fixed, l: Fixed)
    requires
        l.units > 0,
        -8_000_000_000 <= c.units <= 8_000_000_000 || (l.units >= 10_000 && -10_000_000_000_000
            <= c.units <= 10_000_000_000_000),
    ensures
        ({
            let q = c.quotient(l).units;
            q * l.units <= c.units * 1_000_000_000 < q * l.units + l.units
        }),
{
    let exact = c.units * 1_000_000_000;
    let d = l.units as int;
    let q = exact / d;
    lemma_fundamental_div_mod(exact, d);
    lemma_mod_bound(exact, d);
    assert(d * q == q * d) by (nonlinear_arith);
    if l.units >= 10_000 {
        assert(-1_000_000_000_000_000_000 - 1 <= q <= 1_000_000_000_000_000_000)
            by (nonlinear_arith)
            requires
                q * d <= exact < q * d + d,
                -10_000_000_000_000_000_000_000 <= exact <= 10_000_000_000_000_000_000_000,
                d >= 10_000,
        ;
    } else {
        assert(-8_000_000_000_000_000_001 <= q <= 8_000_000_000_000_000_000) by (nonlinear_arith)
            requires
                q * d <= exact < q * d + d,
                -8_000_000_000_000_000_000 <= exact <= 8_000_000_000_000_000_000,
                d >= 1,
        ;
    }
}

/// The vector of length one goes the same way: times the length it is the vector again, but for
/// rounding.
pub proof fn unit_vector_keeps_the_direction(e: Vec3<Fixed>)
    requires
        vector_within(e, 10_000_000_000_000),
        e.length().units >= 10_000,
    ensures
        ({
            let l = e.length().units;
            let u = e.normalize();
            &&& u.x.units * l <= e.x.units * 1_000_000_000 < u.x.units * l + l
            &&& u.y.units * l <= e.y.units * 1_000_000_000 < u.y.units * l + l
            &&& u.z.units * l <= e.z.units * 1_000_000_000 < u.z.units * l + l
        }),
{
    assert(lit::<Fixed>(1, 10_000_000_000).units == 0);
    let l = e.length();
    share_of_a_length(e.x, l);
    share_of_a_length(e.y, l);
    share_of_a_length(e.z, l);
}

// ---------------------------------------------------------------------------
// Normals

proof fn newell_edge(a: Fixed, b: Fixed, c: Fixed, d: Fixed)
    requires
        -1_000_000_000_000 <= a.units <= 1_000_000_000_000,
        -1_000_000_000_000 <= b.units <= 1_000_000_000_000,
        -1_000_000_000_000 <= c.units <= 1_000_000_000_000,
        -1_000_000_000_000 <= d.units <= 1_000_000_000_000,
    ensures
        ({
            let p = a.difference(b).product(c.sum(d)).units;
            let exact = (a.units - b.units) * (c.units + d.units);
            &&& fixed::SCALE * p <= exact < fixed::SCALE * p + fixed::SCALE
            &&& -4_000_000_000_000_001 <= p <= 4_000_000_000_000_000
        }),
{
    let exact = (a.units - b.units) * (c.units + d.units);
    assert(-4_000_000_000_000_000_000_000_000 <= exact <= 4_000_000_000_000_000_000_000_000)
        by (nonlinear_arith)
        requires
            exact == (a.units - b.units) * (c.units + d.units),
            -1_000_000_000_000 <= a.units <= 1_000_000_000_000,
            -1_000_000_000_000 <= b.units <= 1_000_000_000_000,
            -1_000_000_000_000 <= c.units <= 1_000_000_000_000,
            -1_000_000_000_000 <= d.units <= 1_000_000_000_000,
    ;
    lemma_fundamental_div_mod(exact, fixed::SCALE as int);
    lemma_mod_bound(exact, fixed::SCALE as int);
}

proof fn three_edges(y0: int, z0: int, y1: int, z1: int, y2: int, z2: int)
    ensures
        (y0 - y1) * (z0 + z1) + (y1 - y2) * (z1 + z2) + (y2 - y0) * (z2 + z0) == (y1 - y0) * (z2
            - z0) - (z1 - z0) * (y2 - y0),
{
    assert((y0 - y1) * (z0 + z1) == y0 * z0 + y0 * z1 - y1 * z0 - y1 * z1) by (nonlinear_arith);
    assert((y1 - y2) * (z1 + z2) == y1 * z1 + y1 * z2 - y2 * z1 - y2 * z2) by (nonlinear_arith);
    assert((y2 - y0) * (z2 + z0) == y2 * z2 + y2 * z0 - y0 * z2 - y0 * z0) by (nonlinear_arith);
    assert((y1 - y0) * (z2 - z0) == y1 * z2 - y1 * z0 - y0 * z2 + y0 * z0) by (nonlinear_arith);
    assert((z1 - z0) * (y2 - y0) == z1 * y2 - z1 * y0 - z0 * y2 + z0 * y0) by (nonlinear_arith);
    assert(z1 * y2 == y2 * z1 && z1 * y0 == y0 * z1 && z0 * y2 == y2 * z0 && z0 * y0 == y0 * z0)
        by (nonlinear_arith);
}

/// The normal of a triangle is the cross product of the sides that leave its first corner, but for
/// rounding: seen from where it points, the corners go round counterclockwise.
pub proof fn normal_of_a_triangle(corners: Seq<Point3D<Fixed>>)
    requires
        corners.len() == 3,
        point_within(corners[0], 1_000_000_000_000),
        point_within(corners[1], 1_000_000_000_000),
        point_within(corners[2], 1_000_000_000_000),
    ensures
        ({
            let n = geometry::newell_sum(corners, 3);
            let (a, b, c) = (corners[0], corners[1], corners[2]);
            let (ux, uy, uz) = (
                b.x.units - a.x.units,
                b.y.units - a.y.units,
                b.z.units - a.z.units,
            );
            let (vx, vy, vz) = (
                c.x.units - a.x.units,
                c.y.units - a.y.units,
                c.z.units - a.z.units,
            );
            &&& 1_000_000_000 * n.x.units <= uy * vz - uz * vy < 1_000_000_000 * n.x.units
                + 3_000_000_000
            &&& 1_000_000_000 * n.y.units <= uz * vx - ux * vz < 1_000_000_000 * n.y.units
                + 3_000_000_000
            &&& 1_000_000_000 * n.z.units <= ux * vy - uy * vx < 1_000_000_000 * n.z.units
                + 3_000_000_000
        }),
{
    let (a, b, c) = (corners[0], corners[1], corners[2]);
    reveal_with_fuel(geometry::newell_sum, 4);
    newell_edge(a.y, b.y, a.z, b.z);
    newell_edge(b.y, c.y, b.z, c.z);
    newell_edge(c.y, a.y, c.z, a.z);
    newell_edge(a.z, b.z, a.x, b.x);
    newell_edge(b.z, c.z, b.x, c.x);
    newell_edge(c.z, a.z, c.x, a.x);
    newell_edge(a.x, b.x, a.y, b.y);
    newell_edge(b.x, c.x, b.y, c.y);
    newell_edge(c.x, a.x, c.y, a.y);
    let (ax, ay, az) = (a.x.units as int, a.y.units as int, a.z.units as int);
    let (bx, by, bz) = (b.x.units as int, b.y.units as int, b.z.units as int);
    let (cx, cy, cz) = (c.x.units as int, c.y.units as int, c.z.units as int);
    three_edges(ay, az, by, bz, cy, cz);
    three_edges(az, ax, bz, bx, cz, cx);
    three_edges(ax, ay, bx, by, cx, cy);
}

/// Every edge of a polygon adds to its normal, the last one back to the first corner, and nothing
/// else does.
pub proof fn every_edge_adds_to_the_normal<T: Scalar>(vertices: Seq<Point3D<T>>, n: nat)
    requires
        n < vertices.len(),
    ensures
        ({
            let before = geometry::newell_sum(vertices, n);
            let after = geometry::newell_sum(vertices, n + 1);
            let a = vertices[n as int];
            let b = vertices[if n + 1 == vertices.len() {
                0
            } else {
                n as int + 1
            }];
            &&& after.x == before.x.sum(a.y.difference(b.y).product(a.z.sum(b.z)))
            &&& after.y == before.y.sum(a.z.difference(b.z).product(a.x.sum(b.x)))
            &&& after.z == before.z.sum(a.x.difference(b.x).product(a.y.sum(b.y)))
        }),
{
}

/// The area of a polygon is half the length of its normal, but for rounding.
pub proof fn area_is_half_the_normal(vertices: Seq<Point3D<Fixed>>)
    requires
        geometry::newell_sum(vertices, vertices.len()).length().units >= 0,
    ensures
        ({
            let l = geometry::newell_sum(vertices, vertices.len()).length().units;
            let a = geometry::area_of(vertices).units;
            2 * a <= l <= 2 * a + 1
        }),
{
    assert(num::<Fixed>(2).units == 2_000_000_000);
    let l = geometry::newell_sum(vertices, vertices.len()).length().units as int;
    let q = l / 2;
    assert(l * 1_000_000_000 == q * 2_000_000_000 + (l % 2) * 1_000_000_000);
    lemma_fundamental_div_mod_converse(
        l * 1_000_000_000,
        2_000_000_000,
        q,
        (l % 2) * 1_000_000_000,
    );
}

/// A shading surface counts where it has three corners or more, in the order given.
pub proof fn surfaces_count_from_three_corners<T: Scalar>(
    inputs: Seq<ShadingSurfaceInput<T>>,
    further: ShadingSurfaceInput<T>,
)
    ensures
        shading::usable_surfaces(Seq::<ShadingSurfaceInput<T>>::empty()).len() == 0,
        further.vertices@.len() >= 3 ==> shading::usable_surfaces(inputs.push(further))
            == shading::usable_surfaces(inputs).push(further),
        further.vertices@.len() < 3 ==> shading::usable_surfaces(inputs.push(further))
            == shading::usable_surfaces(inputs),
{
    reveal(Seq::filter);
    assert(inputs.push(further).drop_last() =~= inputs);
}

// ---------------------------------------------------------------------------
// Devices

/// From one coordinate to another it is `k` times a share in billionths, but for rounding.
pub open spec fn is_off_by(from: Fixed, to: Fixed, exact: int) -> bool {
    exact - 2_000_000_000 <= 1_000_000_000 * (to.units - from.units) <= exact + 2_000_000_000
}

/// From one point to another it is `along` on one direction and `up` on the other.
pub open spec fn is_reached(
    from: Point3D<Fixed>,
    to: Point3D<Fixed>,
    d: Vec3<Fixed>,
    along: int,
    e: Vec3<Fixed>,
    up: int,
) -> bool {
    &&& is_off_by(from.x, to.x, along * d.x.units + up * e.x.units)
    &&& is_off_by(from.y, to.y, along * d.y.units + up * e.y.units)
    &&& is_off_by(from.z, to.z, along * d.z.units + up * e.z.units)
}

/// No component is longer than two.
pub open spec fn is_direction(v: Vec3<Fixed>) -> bool {
    vector_within(v, 2_000_000_000)
}

/// A measure of a device: no more than a kilometre.
pub open spec fn is_measure(m: Fixed) -> bool {
    -1_000_000_000_000 <= m.units <= 1_000_000_000_000
}

proof fn stretched(m: Fixed, d: Fixed)
    requires
        is_measure(m),
        -2_000_000_000 <= d.units <= 2_000_000_000,
    ensures
        ({
            let p = m.product(d).units;
            &&& fixed::SCALE * p <= m.units * d.units < fixed::SCALE * p + fixed::SCALE
            &&& -2_000_000_000_001 <= p <= 2_000_000_000_000
        }),
{
    let exact = m.units * d.units;
    assert(-2_000_000_000_000_000_000_000 <= exact <= 2_000_000_000_000_000_000_000)
        by (nonlinear_arith)
        requires
            exact == m.units * d.units,
            -1_000_000_000_000 <= m.units <= 1_000_000_000_000,
            -2_000_000_000 <= d.units <= 2_000_000_000,
    ;
    lemma_fundamental_div_mod(exact, fixed::SCALE as int);
    lemma_mod_bound(exact, fixed::SCALE as int);
}

proof fn stretched_vector(m: Fixed, d: Vec3<Fixed>)
    requires
        is_measure(m),
        is_direction(d),
    ensures
        ({
            let (x, y, z) = (
                m.product(d.x).units,
                m.product(d.y).units,
                m.product(d.z).units,
            );
            &&& fixed::SCALE * x <= m.units * d.x.units < fixed::SCALE * x + fixed::SCALE
            &&& fixed::SCALE * y <= m.units * d.y.units < fixed::SCALE * y + fixed::SCALE
            &&& fixed::SCALE * z <= m.units * d.z.units < fixed::SCALE * z + fixed::SCALE
            &&& -2_000_000_000_001 <= x <= 2_000_000_000_000
            &&& -2_000_000_000_001 <= y <= 2_000_000_000_000
            &&& -2_000_000_000_001 <= z <= 2_000_000_000_000
        }),
{
    stretched(m, d.x);
    stretched(m, d.y);
    stretched(m, d.z);
}

proof fn turned_sign(k: int, d: int)
    ensures
        -k * d == -(k * d),
{
    assert(-k * d == -(k * d)) by (nonlinear_arith);
}

/// An overhang begins above the top corners of the window, by its offset, and reaches beyond them
/// to the left and to the right by its extensions; from there it goes outwards by its depth. All
/// this but for rounding.
pub proof fn overhang_stands_above_the_window(
    window: Seq<Point3D<Fixed>>,
    overhang: OverhangInput<Fixed>,
    wall_outward: Vec3<Fixed>,
)
    requires
        window.len() == 4,
        forall|i: int| 0 <= i < 4 ==> point_within(#[trigger] window[i], 1_000_000_000_000_000),
        is_measure(overhang.depth),
        is_measure(overhang.offset_above),
        is_measure(overhang.left_extension),
        is_measure(overhang.right_extension),
        is_direction(window[1].from(&window[0]).normalize()),
        is_direction(window[3].from(&window[0]).normalize()),
        is_direction(wall_outward.normalize()),
    ensures
        ({
            let c = shading::overhang_corners(window, overhang, wall_outward);
            let right = window[1].from(&window[0]).normalize();
            let up = window[3].from(&window[0]).normalize();
            let out = wall_outward.normalize();
            let above = overhang.offset_above.units as int;
            let depth = overhang.depth.units as int;
            &&& c.len() == 4
            &&& is_reached(window[3], c[0], right, -overhang.left_extension.units, up, above)
            &&& is_reached(window[2], c[1], right, overhang.right_extension.units as int, up, above)
            &&& is_reached(c[1], c[2], out, depth, up, 0)
            &&& is_reached(c[0], c[3], out, depth, up, 0)
        }),
{
    let right = window[1].from(&window[0]).normalize();
    let up = window[3].from(&window[0]).normalize();
    let out = wall_outward.normalize();
    assert(point_within(window[2], 1_000_000_000_000_000));
    assert(point_within(window[3], 1_000_000_000_000_000));
    stretched_vector(overhang.offset_above, up);
    stretched_vector(overhang.left_extension, right);
    stretched_vector(overhang.right_extension, right);
    stretched_vector(overhang.depth, out);
    let left = overhang.left_extension.units as int;
    turned_sign(left, right.x.units as int);
    turned_sign(left, right.y.units as int);
    turned_sign(left, right.z.units as int);
    assert(0 * up.x.units == 0 && 0 * up.y.units == 0 && 0 * up.z.units == 0);
}

/// A fin stands on its side of the window, from below its bottom corner to above its top corner by
/// its extensions, and goes outwards by its depth: the left fin from its outer foot round to the
/// foot on the wall, the right fin from the foot on the wall round to its outer foot. All this but
/// for rounding.
pub proof fn fins_stand_beside_the_window(
    window: Seq<Point3D<Fixed>>,
    fin: FinInput<Fixed>,
    wall_outward: Vec3<Fixed>,
)
    requires
        window.len() == 4,
        forall|i: int| 0 <= i < 4 ==> point_within(#[trigger] window[i], 1_000_000_000_000_000),
        is_measure(fin.depth),
        is_measure(fin.extend_below),
        is_measure(fin.extend_above),
        is_direction(window[3].from(&window[0]).normalize()),
        is_direction(wall_outward.normalize()),
    ensures
        ({
            let l = shading::fin_corners(window, fin, wall_outward, FinSide::Left);
            let r = shading::fin_corners(window, fin, wall_outward, FinSide::Right);
            let up = window[3].from(&window[0]).normalize();
            let out = wall_outward.normalize();
            let depth = fin.depth.units as int;
            let below = -fin.extend_below.units;
            let above = fin.extend_above.units as int;
            &&& l.len() == 4 && r.len() == 4
            &&& is_reached(window[0], l[3], up, below, out, 0)
            &&& is_reached(window[3], l[2], up, above, out, 0)
            &&& is_reached(l[3], l[0], out, depth, up, 0)
            &&& is_reached(l[2], l[1], out, depth, up, 0)
            &&& is_reached(window[1], r[0], up, below, out, 0)
            &&& is_reached(window[2], r[1], up, above, out, 0)
            &&& is_reached(r[0], r[3], out, depth, up, 0)
            &&& is_reached(r[1], r[2], out, depth, up, 0)
        }),
{
    let up = window[3].from(&window[0]).normalize();
    let out = wall_outward.normalize();
    assert(point_within(window[0], 1_000_000_000_000_000));
    assert(point_within(window[1], 1_000_000_000_000_000));
    assert(point_within(window[2], 1_000_000_000_000_000));
    assert(point_within(window[3], 1_000_000_000_000_000));
    stretched_vector(fin.extend_below, up);
    stretched_vector(fin.extend_above, up);
    stretched_vector(fin.depth, out);
    let below = fin.extend_below.units as int;
    turned_sign(below, up.x.units as int);
    turned_sign(below, up.y.units as int);
    turned_sign(below, up.z.units as int);
    assert(0 * up.x.units == 0 && 0 * up.y.units == 0 && 0 * up.z.units == 0);
    assert(0 * out.x.units == 0 && 0 * out.y.units == 0 && 0 * out.z.units == 0);
}

// ---------------------------------------------------------------------------
// The sky

/// Each patch of sky before the surface adds its weight to the open sky, and to what arrives by
/// the share of the points that see it; a patch behind the surface adds nothing.
pub proof fn patches_before_the_surface_count<T: Scalar>(
    points: Seq<Point3D<T>>,
    recv_normal: Vec3<T>,
    casters: Seq<&ShadingPolygon<T>>,
    d_phi: T,
    n: nat,
)
    ensures
        shading::sky_sums(points, recv_normal, casters, d_phi, 0).0 == num::<T>(0),
        shading::sky_sums(points, recv_normal, casters, d_phi, 0).1 == num::<T>(0),
        ({
            let (with, without) = shading::sky_sums(points, recv_normal, casters, d_phi, n);
            let (with1, without1) = shading::sky_sums(points, recv_normal, casters, d_phi, n + 1);
            let dir = shading::patch_direction(d_phi, n);
            let w = shading::patch_weight(d_phi, recv_normal, n);
            let seen = shading::unblocked(points, dir, casters, points.len());
            &&& dir.dot(&recv_normal).at_most(num(0)) ==> with1 == with && without1 == without
            &&& !dir.dot(&recv_normal).at_most(num(0)) ==> without1 == without.sum(w) && with1
                == with.sum(w.product(T::whole(seen).quotient(T::whole(points.len()))))
        }),
{
}

/// A point sees the sky in a direction unless a ray that way hits some caster.
pub proof fn points_see_past_the_casters<T: Scalar>(
    points: Seq<Point3D<T>>,
    dir: Vec3<T>,
    casters: Seq<&ShadingPolygon<T>>,
    n: nat,
)
    requires
        n < points.len(),
    ensures
        shading::unblocked(points, dir, casters, 0) == 0,
        ({
            let hidden = exists|i: int|
                0 <= i < casters.len() && shading::ray_hits(
                    points[n as int],
                    dir,
                    (#[trigger] casters[i]).vertices@,
                    casters[i].normal,
                );
            let before = shading::unblocked(points, dir, casters, n);
            let after = shading::unblocked(points, dir, casters, n + 1);
            &&& hidden ==> after == before
            &&& !hidden ==> after == before + 1
        }),
{
}

/// No point sees the sky in any of the first `n` directions.
pub open spec fn all_hidden(
    points: Seq<Point3D<Fixed>>,
    casters: Seq<&ShadingPolygon<Fixed>>,
    d_phi: Fixed,
    n: nat,
) -> bool {
    forall|k: nat|
        k < n ==> shading::unblocked(
            points,
            #[trigger] shading::patch_direction(d_phi, k),
            casters,
            points.len(),
        ) == 0
}

/// Every point sees the sky in each of the first `n` directions.
pub open spec fn all_seen(
    points: Seq<Point3D<Fixed>>,
    casters: Seq<&ShadingPolygon<Fixed>>,
    d_phi: Fixed,
    n: nat,
) -> bool {
    forall|k: nat|
        k < n ==> shading::unblocked(
            points,
            #[trigger] shading::patch_direction(d_phi, k),
            casters,
            points.len(),
        ) == points.len()
}

proof fn sums_of_hidden_sky(
    points: Seq<Point3D<Fixed>>,
    recv_normal: Vec3<Fixed>,
    casters: Seq<&ShadingPolygon<Fixed>>,
    d_phi: Fixed,
    n: nat,
)
    requires
        0 < points.len() <= 1_000_000_000,
    ensures
        all_hidden(points, casters, d_phi, n) ==> shading::sky_sums(
            points,
            recv_normal,
            casters,
            d_phi,
            n,
        ).0.units == 0,
        all_seen(points, casters, d_phi, n) ==> shading::sky_sums(
            points,
            recv_normal,
            casters,
            d_phi,
            n,
        ).0 == shading::sky_sums(points, recv_normal, casters, d_phi, n).1,
    decreases n,
{
    if n > 0 {
        let k = (n - 1) as nat;
        sums_of_hidden_sky(points, recv_normal, casters, d_phi, k);
        let dir = shading::patch_direction(d_phi, k);
        let w = shading::patch_weight(d_phi, recv_normal, k);
        let all = points.len() as int;
        let d = all * 1_000_000_000;
        assert(Fixed::whole(points.len()).units == d);
        assert(Fixed::whole(0).units == 0);
        lemma_div_basics(d);
        let nothing = Fixed::whole(0).quotient(Fixed::whole(points.len()));
        assert(nothing.units == 0);
        assert(w.units * 0 == 0);
        assert(w.product(nothing).units == 0);
        lemma_fundamental_div_mod_converse(d * 1_000_000_000, d, 1_000_000_000, 0);
        let everything = Fixed::whole(points.len()).quotient(Fixed::whole(points.len()));
        assert(everything.units == 1_000_000_000);
        lemma_fundamental_div_mod_converse(
            w.units * 1_000_000_000,
            1_000_000_000,
            w.units as int,
            0,
        );
        assert(w.product(everything) == w);
    }
}

/// Casters that hide the whole sky leave nothing of it, and casters that hide none of it leave all.
pub proof fn hidden_sky_is_dark_and_seen_sky_is_not(
    recv: Seq<Point3D<Fixed>>,
    recv_normal: Vec3<Fixed>,
    casters: Seq<&ShadingPolygon<Fixed>>,
    cells: usize,
    bands: usize,
    d_phi: Fixed,
)
    requires
        recv.len() >= 3,
        casters.len() > 0,
        ({
            let axes = shading::local_axes(recv, recv_normal);
            let points = shading::surface_samples(
                shading::flattened(recv, axes),
                axes,
                cells,
                (cells * cells) as nat,
            );
            0 < points.len() <= 1_000_000_000
        }),
    ensures
        ({
            let axes = shading::local_axes(recv, recv_normal);
            let points = shading::surface_samples(
                shading::flattened(recv, axes),
                axes,
                cells,
                (cells * cells) as nat,
            );
            let patches = (bands * 24) as nat;
            let open = shading::sky_sums(points, recv_normal, casters, d_phi, patches).1.units;
            let ratio = shading::diffuse_ratio(recv, recv_normal, casters, cells, bands, d_phi);
            &&& all_hidden(points, casters, d_phi, patches) && open > 0 ==> ratio.units == 0
            &&& all_seen(points, casters, d_phi, patches) ==> ratio.units == 1_000_000_000
        }),
{
    let axes = shading::local_axes(recv, recv_normal);
    let points = shading::surface_samples(
        shading::flattened(recv, axes),
        axes,
        cells,
        (cells * cells) as nat,
    );
    let patches = (bands * 24) as nat;
    sums_of_hidden_sky(points, recv_normal, casters, d_phi, patches);
    let (with, without) = shading::sky_sums(points, recv_normal, casters, d_phi, patches);
    assert(lit::<Fixed>(1, 10_000_000_000).units == 0);
    assert(num::<Fixed>(1).units == 1_000_000_000);
    assert(num::<Fixed>(0).units == 0);
    if without.units > 0 {
        lemma_div_basics(without.units as int);
        lemma_fundamental_div_mod_converse(
            without.units * 1_000_000_000,
            without.units as int,
            1_000_000_000,
            0,
        );
    }
}

/// The patches of a band lie equally high, at the altitude of the band; the bands rise by equal
/// steps from half a step above the horizon, but for rounding.
pub proof fn bands_of_sky_are_level(d_phi: Fixed, k: nat, i: usize)
    requires
        0 <= d_phi.units <= 10_000_000_000,
        i < 1000,
    ensures
        shading::patch_direction(d_phi, k).z == shading::patch_direction(
            d_phi,
            (k - k % 24) as nat,
        ).z,
        ({
            let phi = shading::band_altitude(i, d_phi).units;
            (2 * i + 1) * d_phi.units - 2 < 2 * phi <= (2 * i + 1) * d_phi.units
        }),
{
    let j = (k - k % 24) as nat;
    lemma_fundamental_div_mod(k as int, 24);
    lemma_fundamental_div_mod_converse(j as int, 24, k as int / 24, 0);
    assert(lit::<Fixed>(1, 2).units == 500_000_000);
    let d = d_phi.units as int;
    let n = i as int;
    assert(Fixed::whole(i as nat).units == n * 1_000_000_000);
    let p = n * d;
    assert(0 <= p <= 10_000_000_000_000) by (nonlinear_arith)
        requires
            p == n * d,
            0 <= n < 1000,
            0 <= d <= 10_000_000_000,
    ;
    assert((n * 1_000_000_000) * d == p * 1_000_000_000) by (nonlinear_arith)
        requires
            p == n * d,
    ;
    lemma_fundamental_div_mod_converse(p * 1_000_000_000, 1_000_000_000, p, 0);
    assert(Fixed::whole(i as nat).product(d_phi).units == p);
    assert(lit::<Fixed>(1, 2).product(d_phi).units == d / 2);
    assert((2 * n + 1) * d == 2 * p + d) by (nonlinear_arith)
        requires
            p == n * d,
    ;
}

/// A patch of sky is seen at the altitude of its band and its step around the horizon, 24 of them
/// full circle, and weighs its solid angle by how squarely it shines on the surface.
pub proof fn patches_stand_around_the_horizon<T: Scalar>(
    d_phi: T,
    recv_normal: Vec3<T>,
    band: nat,
    turn: nat,
)
    requires
        band < 1000,
        turn < 24,
    ensures
        ({
            let k = band * 24 + turn;
            let d = shading::patch_direction(d_phi, k);
            let phi = shading::band_altitude(band as usize, d_phi);
            let circle = T::fraction(2, 1).product(T::fraction(3141592653589793, 1000000000000000));
            let step = circle.quotient(T::whole(24));
            let theta = T::whole(turn).product(step);
            &&& d.z == phi.sine()
            &&& d.x == phi.cosine().product(theta.cosine())
            &&& d.y == phi.cosine().product(theta.sine())
            &&& shading::patch_weight(d_phi, recv_normal, k) == phi.cosine().product(d_phi).product(
                step,
            ).product(
                d.x.product(recv_normal.x).sum(d.y.product(recv_normal.y)).sum(
                    d.z.product(recv_normal.z),
                ),
            )
        }),
{
    let k = band * 24 + turn;
    lemma_fundamental_div_mod_converse(k as int, 24, band as int, turn as int);
}

/// The first patch of a band looks along the first axis, as far as the altitude lets it.
pub proof fn first_patch_of_a_band_looks_ahead(d_phi: Fixed, band: nat)
    requires
        band < 1000,
        -4_000_000_000_000_000_000 <= shading::band_altitude(
            band as usize,
            d_phi,
        ).cosine().units <= 4_000_000_000_000_000_000,
    ensures
        ({
            let d = shading::patch_direction(d_phi, band * 24);
            &&& d.y.units == 0
            &&& d.x == shading::band_altitude(band as usize, d_phi).cosine()
        }),
{
    let k = band * 24;
    lemma_fundamental_div_mod_converse(k as int, 24, band as int, 0);
    let step = shading::azimuth_step::<Fixed>();
    let theta = Fixed::whole(0).product(step);
    assert(Fixed::whole(0).units == 0);
    assert(Fixed::whole(0).units * step.units == 0) by (nonlinear_arith)
        requires
            Fixed::whole(0).units == 0,
    ;
    assert(theta.units == 0);
    series_begin_as_they_should(theta);
    let c = shading::band_altitude(band as usize, d_phi).cosine();
    assert(c.units * 0 == 0);
    whole_product_is_exact(c, 1, theta.cosine());
}

/// The first axis of a surface goes from its first corner to its second, and the second axis turns
/// from there the way that the corners do, seen from where the normal points: neither is reversed.
pub proof fn axes_follow_the_corners(vertices: Seq<Point3D<Fixed>>, normal: Vec3<Fixed>)
    requires
        vertices.len() >= 2,
        vector_within(vertices[1].from(&vertices[0]), 10_000_000_000_000),
        vertices[1].from(&vertices[0]).length().units >= 10_000,
        vector_within(
            normal.cross(&vertices[1].from(&vertices[0]).normalize()),
            10_000_000_000_000,
        ),
        normal.cross(&vertices[1].from(&vertices[0]).normalize()).length().units >= 10_000,
    ensures
        ({
            let (o, u, v) = shading::local_axes(vertices, normal);
            let edge = vertices[1].from(&vertices[0]);
            let side = normal.cross(&u);
            let (l, m) = (edge.length().units, side.length().units);
            &&& o == vertices[0]
            &&& u.x.units * l <= edge.x.units * 1_000_000_000 < u.x.units * l + l
            &&& u.y.units * l <= edge.y.units * 1_000_000_000 < u.y.units * l + l
            &&& u.z.units * l <= edge.z.units * 1_000_000_000 < u.z.units * l + l
            &&& v.x.units * m <= side.x.units * 1_000_000_000 < v.x.units * m + m
            &&& v.y.units * m <= side.y.units * 1_000_000_000 < v.y.units * m + m
            &&& v.z.units * m <= side.z.units * 1_000_000_000 < v.z.units * m + m
            &&& side.x == normal.y.product(u.z).difference(normal.z.product(u.y))
            &&& side.y == normal.z.product(u.x).difference(normal.x.product(u.z))
            &&& side.z == normal.x.product(u.y).difference(normal.y.product(u.x))
        }),
{
    let edge = vertices[1].from(&vertices[0]);
    unit_vector_keeps_the_direction(edge);
    unit_vector_keeps_the_direction(normal.cross(&edge.normalize()));
}

/// The samples of a surface form columns of rows over its extent. Each one that lies on it is a point
/// in space: from the origin along the first axis by the column and along the second by the row.
pub proof fn samples_are_points_of_the_surface<T: Scalar>(
    flat: Seq<Point2D<T>>,
    origin: Point3D<T>,
    u: Vec3<T>,
    v: Vec3<T>,
    cells: usize,
    column: nat,
    row: nat,
)
    requires
        0 < cells <= 1000,
        column < cells,
        row < cells,
    ensures
        shading::surface_samples(flat, (origin, u, v), cells, 0).len() == 0,
        ({
            let e = shading::extent_of(flat, flat.len());
            let k = column * cells as nat + row;
            let x = shading::cell_middle(e.u_min, e.u_max, column as usize, cells);
            let y = shading::cell_middle(e.v_min, e.v_max, row as usize, cells);
            let before = shading::surface_samples(flat, (origin, u, v), cells, k as nat);
            let after = shading::surface_samples(flat, (origin, u, v), cells, (k + 1) as nat);
            let inside = shading::in_polygon(Point2D { x, y }, flat);
            &&& !inside ==> after == before
            &&& inside ==> {
                let p = after.last();
                &&& after.len() == before.len() + 1
                &&& after.drop_last() == before
                &&& p.x == origin.x.sum(x.product(u.x)).sum(y.product(v.x))
                &&& p.y == origin.y.sum(x.product(u.y)).sum(y.product(v.y))
                &&& p.z == origin.z.sum(x.product(u.z)).sum(y.product(v.z))
            }
        }),
{
    let k = column * cells as nat + row;
    assert(k >= 0) by (nonlinear_arith)
        requires
            k == column * cells as nat + row,
            column >= 0,
            cells >= 0,
            row >= 0,
    ;
    assert(column * cells as nat == column as int * cells as int) by (nonlinear_arith);
    lemma_fundamental_div_mod_converse(k as int, cells as int, column as int, row as int);
    let before = shading::surface_samples(flat, (origin, u, v), cells, k as nat);
    let after = shading::surface_samples(flat, (origin, u, v), cells, (k + 1) as nat);
    if after.len() > before.len() {
        assert(after.drop_last() =~= before);
    }
}

} // verus!
