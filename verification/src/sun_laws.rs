//! How much sun reaches a surface: what is in the shade, what is sampled, and where devices
//! stand, on fixed-point numbers.
use crate::fixed;
use crate::fixed::Fixed;
use crate::geometry;
use crate::geometry::{Point3D, Vec3};
use crate::plane_laws;
use crate::scalar::{clamp, lit, num, plus, times, Scalar};
use crate::shading;
use crate::shading::{Point2D, ShadingPolygon};
use vstd::arithmetic::div_mod::*;
use vstd::prelude::*;

verus! {

/// No coordinate is further out than a thousand kilometres.
pub open spec fn flat_within(p: Point2D<Fixed>) -> bool {
    &&& -1_000_000_000_000_000 <= p.x.units <= 1_000_000_000_000_000
    &&& -1_000_000_000_000_000 <= p.y.units <= 1_000_000_000_000_000
}

// ---------------------------------------------------------------------------
// Sun and shade

/// A surface of more than a square millimetre that is turned away from the sun, or along it, is in
/// the shade, whatever else casts shadows.
pub proof fn surface_turned_away_is_dark(
    recv: Seq<Point3D<Fixed>>,
    recv_normal: Vec3<Fixed>,
    casters: Seq<&ShadingPolygon<Fixed>>,
    sun_dir: Vec3<Fixed>,
)
    requires
        recv.len() >= 3,
        geometry::area_of(recv).units >= 1000,
        sun_dir.dot(&recv_normal).units >= 0,
    ensures
        shading::sunlit_fraction(recv, recv_normal, casters, sun_dir).units == 0,
{
    assert(lit::<Fixed>(1, 1_000_000).units == 1000);
}

/// A surface that faces the sun and has no shadow on it is fully sunlit, and so is what is too
/// small to be a surface.
pub proof fn surface_without_shadows_is_sunlit(
    recv: Seq<Point3D<Fixed>>,
    recv_normal: Vec3<Fixed>,
    casters: Seq<&ShadingPolygon<Fixed>>,
    sun_dir: Vec3<Fixed>,
)
    requires
        recv.len() < 3 || geometry::area_of(recv).units < 1000 || (sun_dir.dot(&recv_normal).units
            < 0 && shading::shadows_on(
            casters,
            recv,
            recv_normal,
            sun_dir,
            casters.len(),
        ).len() == 0),
    ensures
        shading::sunlit_fraction(recv, recv_normal, casters, sun_dir).units == 1_000_000_000,
{
    assert(lit::<Fixed>(1, 1_000_000).units == 1000);
}

proof fn left_of_an_area(shadow: Fixed, area: Fixed)
    requires
        shadow.units >= 0,
        area.units >= 1000,
    ensures
        ({
            let f = clamp(
                num::<Fixed>(1).difference(shadow.quotient(area)),
                num(0),
                num(1),
            ).units;
            &&& 0 <= f <= 1_000_000_000
            &&& shadow.units >= area.units ==> f == 0
            &&& shadow.units < area.units ==> 1_000_000_000 * area.units <= f * area.units
                + 1_000_000_000 * shadow.units < 1_000_000_000 * area.units + area.units
        }),
{
    assert(num::<Fixed>(0).units == 0);
    assert(num::<Fixed>(1).units == 1_000_000_000);
    let (s, a) = (shadow.units as int, area.units as int);
    let exact = s * 1_000_000_000;
    let q = exact / a;
    lemma_fundamental_div_mod(exact, a);
    lemma_mod_bound(exact, a);
    lemma_div_pos_is_pos(exact, a);
    if s >= a {
        assert(q >= 1_000_000_000) by (nonlinear_arith)
            requires
                exact < a * q + a,
                exact >= 1_000_000_000 * a,
                a > 0,
        ;
    } else {
        assert(q < 1_000_000_000) by (nonlinear_arith)
            requires
                a * q <= exact,
                exact < 1_000_000_000 * a,
                a > 0,
        ;
        let f = 1_000_000_000 - q;
        assert(f * a == 1_000_000_000 * a - a * q) by (nonlinear_arith)
            requires
                f == 1_000_000_000 - q,
        ;
    }
}

/// The sunlit part of a surface and one opaque shadow on it make up the surface, but for rounding;
/// a shadow as large as the surface leaves nothing.
pub proof fn sun_and_shadow_make_up_the_surface(
    recv: Seq<Point3D<Fixed>>,
    recv_normal: Vec3<Fixed>,
    casters: Seq<&ShadingPolygon<Fixed>>,
    sun_dir: Vec3<Fixed>,
)
    requires
        recv.len() >= 3,
        geometry::area_of(recv).units >= 1000,
        sun_dir.dot(&recv_normal).units < 0,
        ({
            let shadows = shading::shadows_on(casters, recv, recv_normal, sun_dir, casters.len());
            shadows.len() == 1 && shadows[0].1.units == 0
        }),
    ensures
        ({
            let shadows = shading::shadows_on(casters, recv, recv_normal, sun_dir, casters.len());
            let shadow = shading::plane_area(shadows[0].0).units;
            let area = geometry::area_of(recv).units;
            let f = shading::sunlit_fraction(recv, recv_normal, casters, sun_dir).units;
            &&& 0 <= f <= 1_000_000_000
            &&& shadow >= area ==> f == 0
            &&& shadow < area ==> 1_000_000_000 * area <= f * area + 1_000_000_000 * shadow
                < 1_000_000_000 * area + area
        }),
{
    let shadows = shading::shadows_on(casters, recv, recv_normal, sun_dir, casters.len());
    plane_laws::area_is_not_negative(shadows[0].0);
    assert(lit::<Fixed>(1, 1_000_000).units == 1000);
    left_of_an_area(shading::plane_area(shadows[0].0), geometry::area_of(recv));
}

/// A further caster adds its shadow, with its own transmittance, where it has one, and else
/// nothing.
pub proof fn further_caster_adds_its_shadow<T: Scalar>(
    casters: Seq<&ShadingPolygon<T>>,
    recv: Seq<Point3D<T>>,
    recv_normal: Vec3<T>,
    sun_dir: Vec3<T>,
    n: nat,
)
    requires
        n < casters.len(),
    ensures
        shading::shadows_on(casters, recv, recv_normal, sun_dir, 0).len() == 0,
        ({
            let before = shading::shadows_on(casters, recv, recv_normal, sun_dir, n);
            let after = shading::shadows_on(casters, recv, recv_normal, sun_dir, n + 1);
            let caster = casters[n as int];
            let outline = shading::shadow_outline(*caster, recv, recv_normal, sun_dir);
            &&& outline is None ==> after == before
            &&& outline is Some ==> {
                &&& after.len() == before.len() + 1
                &&& after.drop_last() == before
                &&& after.last().0 == outline->Some_0
                &&& after.last().1 == caster.solar_transmittance
            }
        }),
{
    let before = shading::shadows_on(casters, recv, recv_normal, sun_dir, n);
    let after = shading::shadows_on(casters, recv, recv_normal, sun_dir, n + 1);
    if shading::shadow_outline(*casters[n as int], recv, recv_normal, sun_dir) is Some {
        assert(after.drop_last() =~= before);
    }
}

/// A caster has a shadow only where it is a polygon that stands off the surface, with the whole of
/// it on the sunny side, and where three corners or more of its shadow fall on the surface.
pub proof fn shadow_needs_a_caster_before_the_surface(
    caster: ShadingPolygon<Fixed>,
    recv: Seq<Point3D<Fixed>>,
    recv_normal: Vec3<Fixed>,
    sun_dir: Vec3<Fixed>,
)
    ensures
        ({
            let outline = shading::shadow_outline(caster, recv, recv_normal, sun_dir);
            let v = caster.vertices@;
            let u = recv[1].from(&recv[0]).normalize();
            let w = recv_normal.cross(&u).normalize();
            &&& outline is Some ==> {
                &&& v.len() >= 3
                &&& outline->Some_0.len() >= 3
                &&& shading::stands_off(caster, recv[0], recv_normal)
                &&& forall|i: int|
                    0 <= i < v.len() ==> shading::shadow_point(
                        #[trigger] v[i],
                        recv[0],
                        recv_normal,
                        sun_dir,
                    ) is Some
                &&& outline->Some_0 == shading::clipped(
                    Seq::new(
                        v.len(),
                        |i: int|
                            {
                                let p = shading::shadow_point(
                                    v[i],
                                    recv[0],
                                    recv_normal,
                                    sun_dir,
                                )->Some_0;
                                Point2D {
                                    x: p.from(&recv[0]).dot(&u),
                                    y: p.from(&recv[0]).dot(&w),
                                }
                            },
                    ),
                    Seq::new(
                        recv.len(),
                        |i: int|
                            Point2D {
                                x: recv[i].from(&recv[0]).dot(&u),
                                y: recv[i].from(&recv[0]).dot(&w),
                            },
                    ),
                )
            }
        }),
{
    if shading::shadow_outline(caster, recv, recv_normal, sun_dir) is Some {
        let axes = shading::local_axes(recv, recv_normal);
        let v = caster.vertices@;
        let u = recv[1].from(&recv[0]).normalize();
        let w = recv_normal.cross(&u).normalize();
        assert(shading::flattened(
            shading::projections(v, recv[0], recv_normal, sun_dir),
            axes,
        ) =~= Seq::new(
            v.len(),
            |i: int|
                {
                    let p = shading::shadow_point(v[i], recv[0], recv_normal, sun_dir)->Some_0;
                    Point2D { x: p.from(&recv[0]).dot(&u), y: p.from(&recv[0]).dot(&w) }
                },
        ));
        assert(shading::flattened(recv, axes) =~= Seq::new(
            recv.len(),
            |i: int|
                Point2D { x: recv[i].from(&recv[0]).dot(&u), y: recv[i].from(&recv[0]).dot(&w) },
        ));
    }
}

/// A caster that is not parallel to a surface stands off it; a parallel one does where its corners
/// are a centimetre away on average, on either side.
pub proof fn parallel_casters_stand_off_at_a_distance(
    caster: ShadingPolygon<Fixed>,
    recv_point: Point3D<Fixed>,
    recv_normal: Vec3<Fixed>,
)
    requires
        0 < caster.vertices@.len() <= 1_000_000_000,
    ensures
        ({
            let cos = caster.normal.dot(&recv_normal).units;
            let v = caster.vertices@;
            let total = shading::total_distance(v, recv_point, recv_normal, v.len()).units;
            let stands = shading::stands_off(caster, recv_point, recv_normal);
            &&& -990_000_000 <= cos <= 990_000_000 ==> stands
            &&& cos > 990_000_000 || cos < -990_000_000 ==> (stands <==> total >= 10_000_000
                * v.len())
        }),
{
    let v = caster.vertices@;
    let n = v.len() as int;
    assert(lit::<Fixed>(99, 100).units == 990_000_000);
    assert(lit::<Fixed>(1, 100).units == 10_000_000);
    let total = shading::total_distance(v, recv_point, recv_normal, v.len());
    total_distance_is_not_negative(v, recv_point, recv_normal, v.len());
    let t = total.units as int;
    assert(Fixed::whole(v.len()).units == n * fixed::SCALE);
    let exact = t * fixed::SCALE;
    let d = n * fixed::SCALE;
    let q = exact / d;
    assert(d > 0);
    lemma_fundamental_div_mod(exact, d);
    lemma_mod_bound(exact, d);
    lemma_div_pos_is_pos(exact, d);
    assert(q <= t) by (nonlinear_arith)
        requires
            d * q <= exact,
            exact == t * fixed::SCALE,
            d == n * fixed::SCALE,
            n >= 1,
            q >= 0,
            fixed::SCALE == 1_000_000_000,
    ;
    assert(q >= 10_000_000 <==> t >= 10_000_000 * n) by (nonlinear_arith)
        requires
            d * q <= exact < d * q + d,
            exact == t * 1_000_000_000,
            d == n * 1_000_000_000,
            n >= 1,
    ;
}

proof fn total_distance_is_not_negative(
    v: Seq<Point3D<Fixed>>,
    recv_point: Point3D<Fixed>,
    recv_normal: Vec3<Fixed>,
    n: nat,
)
    ensures
        shading::total_distance(v, recv_point, recv_normal, n).units >= 0,
    decreases n,
{
    if n > 0 {
        total_distance_is_not_negative(v, recv_point, recv_normal, (n - 1) as nat);
    }
}

/// Each corner adds its distance from the plane, whichever side it is on.
pub proof fn distances_add_up(
    v: Seq<Point3D<Fixed>>,
    recv_point: Point3D<Fixed>,
    recv_normal: Vec3<Fixed>,
    n: nat,
)
    requires
        n < v.len(),
    ensures
        shading::total_distance(v, recv_point, recv_normal, 0).units == 0,
        ({
            let off = v[n as int].from(&recv_point).dot(&recv_normal).units;
            let size = if off >= 0 {
                off as int
            } else {
                -off
            };
            let before = shading::total_distance(v, recv_point, recv_normal, n).units;
            let after = shading::total_distance(v, recv_point, recv_normal, n + 1).units;
            before + size <= i64::MAX ==> after == before + size
        }),
{
    total_distance_is_not_negative(v, recv_point, recv_normal, n);
}

// ---------------------------------------------------------------------------
// Samples

/// A further shadow takes its share of the beam at the points that it covers, and leaves the other
/// points alone.
pub proof fn further_shadow_takes_its_share<T: Scalar>(
    point: Point2D<T>,
    shadows: Seq<(Seq<Point2D<T>>, T)>,
    n: nat,
)
    requires
        n < shadows.len(),
    ensures
        shading::survival_at(point, shadows, 0) == num::<T>(1),
        shading::in_polygon(point, shadows[n as int].0) ==> shading::survival_at(
            point,
            shadows,
            n + 1,
        ) == times(shading::survival_at(point, shadows, n), shadows[n as int].1),
        !shading::in_polygon(point, shadows[n as int].0) ==> shading::survival_at(
            point,
            shadows,
            n + 1,
        ) == shading::survival_at(point, shadows, n),
{
}

/// The samples of a surface form eight columns of eight points over its extent. Each one that lies
/// on the surface counts, with the beam that is left there; the others do not count.
pub proof fn samples_on_the_surface_count<T: Scalar>(
    recv_2d: Seq<Point2D<T>>,
    shadows: Seq<(Seq<Point2D<T>>, T)>,
    column: nat,
    row: nat,
)
    requires
        column < 8,
        row < 8,
    ensures
        ({
            let e = shading::extent_of(recv_2d, recv_2d.len());
            let k = column * 8 + row;
            let p = Point2D {
                x: shading::cell_middle(e.u_min, e.u_max, column as usize, 8),
                y: shading::cell_middle(e.v_min, e.v_max, row as usize, 8),
            };
            let (n0, n1) = (
                shading::samples_inside(recv_2d, k),
                shading::samples_inside(recv_2d, k + 1),
            );
            let (s0, s1) = (
                shading::sunlit_sum(recv_2d, shadows, k),
                shading::sunlit_sum(recv_2d, shadows, k + 1),
            );
            &&& shading::samples_inside(recv_2d, 0) == 0
            &&& shading::sunlit_sum(recv_2d, shadows, 0) == num::<T>(0)
            &&& shading::in_polygon(p, recv_2d) ==> n1 == n0 + 1 && s1 == plus(
                s0,
                shading::survival_at(p, shadows, shadows.len()),
            )
            &&& !shading::in_polygon(p, recv_2d) ==> n1 == n0 && s1 == s0
        }),
{
    let k = column * 8 + row;
    lemma_fundamental_div_mod_converse(k as int, 8, column as int, row as int);
}

/// How many of the first `n` samples lie on the surface and in none of the shadows.
pub open spec fn lit_samples(
    recv_2d: Seq<Point2D<Fixed>>,
    shadows: Seq<(Seq<Point2D<Fixed>>, Fixed)>,
    n: nat,
) -> nat
    decreases n,
{
    if n == 0 {
        0
    } else {
        let e = shading::extent_of(recv_2d, recv_2d.len());
        let p = Point2D {
            x: shading::cell_middle(e.u_min, e.u_max, ((n - 1) / 8) as usize, 8),
            y: shading::cell_middle(e.v_min, e.v_max, ((n - 1) % 8) as usize, 8),
        };
        let clear = shading::in_polygon(p, recv_2d) && forall|i: int|
            0 <= i < shadows.len() ==> !shading::in_polygon(p, (#[trigger] shadows[i]).0);
        lit_samples(recv_2d, shadows, (n - 1) as nat) + if clear {
            1nat
        } else {
            0nat
        }
    }
}

proof fn opaque_beam(
    p: Point2D<Fixed>,
    shadows: Seq<(Seq<Point2D<Fixed>>, Fixed)>,
    n: nat,
)
    requires
        n <= shadows.len(),
        forall|i: int| 0 <= i < shadows.len() ==> (#[trigger] shadows[i]).1.units == 0,
    ensures
        shading::survival_at(p, shadows, n).units == if forall|i: int|
            0 <= i < n ==> !shading::in_polygon(p, (#[trigger] shadows[i]).0) {
            1_000_000_000int
        } else {
            0
        },
    decreases n,
{
    if n > 0 {
        opaque_beam(p, shadows, (n - 1) as nat);
        let rest = shading::survival_at(p, shadows, (n - 1) as nat);
        let last = shadows[n - 1];
        assert(last.1.units == 0);
        assert(rest.units * 0 == 0);
        if shading::in_polygon(p, last.0) {
            assert(shading::survival_at(p, shadows, n).units == 0);
        }
    }
}

proof fn opaque_sum(
    recv_2d: Seq<Point2D<Fixed>>,
    shadows: Seq<(Seq<Point2D<Fixed>>, Fixed)>,
    n: nat,
)
    requires
        n <= 64,
        forall|i: int| 0 <= i < shadows.len() ==> (#[trigger] shadows[i]).1.units == 0,
    ensures
        shading::sunlit_sum(recv_2d, shadows, n).units == 1_000_000_000 * lit_samples(
            recv_2d,
            shadows,
            n,
        ),
        lit_samples(recv_2d, shadows, n) <= shading::samples_inside(recv_2d, n) <= n,
    decreases n,
{
    if n > 0 {
        opaque_sum(recv_2d, shadows, (n - 1) as nat);
        let e = shading::extent_of(recv_2d, recv_2d.len());
        let p = Point2D {
            x: shading::cell_middle(e.u_min, e.u_max, ((n - 1) / 8) as usize, 8),
            y: shading::cell_middle(e.v_min, e.v_max, ((n - 1) % 8) as usize, 8),
        };
        opaque_beam(p, shadows, shadows.len());
        samples_on_the_surface_count(
            recv_2d,
            shadows,
            ((n - 1) / 8) as nat,
            ((n - 1) % 8) as nat,
        );
    }
}

/// Among opaque shadows the sunlit fraction is the share of the samples on the surface that lie in
/// none of them, but for rounding, so that overlapping shadows count once.
pub proof fn opaque_shadows_leave_the_clear_samples(
    recv_2d: Seq<Point2D<Fixed>>,
    shadows: Seq<(Seq<Point2D<Fixed>>, Fixed)>,
)
    requires
        forall|i: int| 0 <= i < shadows.len() ==> (#[trigger] shadows[i]).1.units == 0,
        shading::samples_inside(recv_2d, 64) > 0,
    ensures
        ({
            let f = shading::sampled_fraction(recv_2d, shadows).units;
            let all = shading::samples_inside(recv_2d, 64);
            let clear = lit_samples(recv_2d, shadows, 64);
            f * all <= 1_000_000_000 * clear < f * all + all
        }),
{
    opaque_sum(recv_2d, shadows, 64);
    let all = shading::samples_inside(recv_2d, 64) as int;
    let clear = lit_samples(recv_2d, shadows, 64) as int;
    let sum = shading::sunlit_sum(recv_2d, shadows, 64);
    assert(Fixed::whole(all as nat).units == all * 1_000_000_000);
    let top = 1_000_000_000 * clear;
    let q = top / all;
    lemma_fundamental_div_mod(top, all);
    lemma_mod_bound(top, all);
    assert(all * q == q * all) by (nonlinear_arith);
    assert(top * 1_000_000_000 == q * (all * 1_000_000_000) + (top % all) * 1_000_000_000)
        by (nonlinear_arith)
        requires
            top == all * q + top % all,
    ;
    lemma_fundamental_div_mod_converse(
        top * 1_000_000_000,
        all * 1_000_000_000,
        q,
        (top % all) * 1_000_000_000,
    );
    assert(0 <= q <= 1_000_000_000) by (nonlinear_arith)
        requires
            top == 1_000_000_000 * clear,
            q * all <= top < q * all + all,
            0 <= clear <= all,
            all > 0,
    ;
    assert(shading::sampled_fraction(recv_2d, shadows).units == q);
}

/// The middles of the cells divide the way from end to end: from the low end to the middle of a
/// cell it is an odd number of half cells, but for rounding.
pub proof fn cell_middles_are_evenly_spread(low: Fixed, high: Fixed, index: usize, cells: usize)
    requires
        index < cells <= 1000,
        -1_000_000_000_000_000 <= low.units <= high.units <= 1_000_000_000_000_000,
    ensures
        ({
            let m = shading::cell_middle(low, high, index, cells).units;
            let way = high.units - low.units;
            let span = way + 1_000_000_000;
            &&& low.units <= m <= high.units
            &&& (2 * index + 1) * way * 1_000_000_000 - 2 * cells * span <= 2 * cells * (m
                - low.units) * 1_000_000_000 <= (2 * index + 1) * way * 1_000_000_000
        }),
{
    let (i, n) = (index as int, cells as int);
    assert(lit::<Fixed>(1, 2).units == 500_000_000);
    let at = Fixed::whole(index as nat).sum(Fixed::fraction(1, 2));
    assert(at.units == i * 1_000_000_000 + 500_000_000);
    let all = Fixed::whole(cells as nat);
    assert(all.units == n * 1_000_000_000);
    let d = n * 1_000_000_000;
    let top = at.units * 1_000_000_000;
    let q = top / d;
    lemma_fundamental_div_mod(top, d);
    lemma_mod_bound(top, d);
    assert(0 <= q < 1_000_000_000) by (nonlinear_arith)
        requires
            d * q <= top < d * q + d,
            top == (i * 1_000_000_000 + 500_000_000) * 1_000_000_000,
            d == n * 1_000_000_000,
            0 <= i < n,
    ;
    assert(at.quotient(all).units == q);
    assert(2 * n * q <= (2 * i + 1) * 1_000_000_000 < 2 * n * q + 2 * n) by (nonlinear_arith)
        requires
            d * q <= top < d * q + d,
            top == (i * 1_000_000_000 + 500_000_000) * 1_000_000_000,
            d == n * 1_000_000_000,
    ;
    let way = high.units - low.units;
    let p = q * way;
    assert(0 <= p <= 1_000_000_000 * way) by (nonlinear_arith)
        requires
            p == q * way,
            0 <= q < 1_000_000_000,
            0 <= way,
    ;
    lemma_fundamental_div_mod(p, fixed::SCALE as int);
    lemma_mod_bound(p, fixed::SCALE as int);
    lemma_div_pos_is_pos(p, fixed::SCALE as int);
    let step = p / (fixed::SCALE as int);
    let m = shading::cell_middle(low, high, index, cells).units;
    assert(m == low.units + step);
    let (a, b) = (2 * n * q, (2 * i + 1) * 1_000_000_000);
    assert(b * way - 2 * n * way <= a * way <= b * way) by (nonlinear_arith)
        requires
            a <= b < a + 2 * n,
            0 <= way,
    ;
    assert(a * way == 2 * n * p) by (nonlinear_arith)
        requires
            a == 2 * n * q,
            p == q * way,
    ;
    assert(b * way == (2 * i + 1) * way * 1_000_000_000) by (nonlinear_arith)
        requires
            b == (2 * i + 1) * 1_000_000_000,
    ;
    assert(2 * n * p - 2 * n * 1_000_000_000 <= 2 * n * step * 1_000_000_000 <= 2 * n * p)
        by (nonlinear_arith)
        requires
            1_000_000_000 * step <= p < 1_000_000_000 * step + 1_000_000_000,
            n > 0,
    ;
    assert(2 * n * (way + 1_000_000_000) == 2 * n * way + 2 * n * 1_000_000_000)
        by (nonlinear_arith);
}

/// The extent of some points bounds every one of them, and each side touches one.
pub proof fn extent_bounds_every_point(flat: Seq<Point2D<Fixed>>, n: nat)
    requires
        0 < n <= flat.len(),
        forall|i: int| 0 <= i < n ==> flat_within(#[trigger] flat[i]),
    ensures
        ({
            let e = shading::extent_of(flat, n);
            &&& forall|i: int|
                0 <= i < n ==> {
                    &&& e.u_min.units <= (#[trigger] flat[i]).x.units <= e.u_max.units
                    &&& e.v_min.units <= flat[i].y.units <= e.v_max.units
                }
            &&& exists|i: int| 0 <= i < n && (#[trigger] flat[i]).x.units == e.u_min.units
            &&& exists|i: int| 0 <= i < n && (#[trigger] flat[i]).x.units == e.u_max.units
            &&& exists|i: int| 0 <= i < n && (#[trigger] flat[i]).y.units == e.v_min.units
            &&& exists|i: int| 0 <= i < n && (#[trigger] flat[i]).y.units == e.v_max.units
        }),
    decreases n,
{
    let p = flat[n - 1];
    assert(flat_within(p));
    if n > 1 {
        extent_bounds_every_point(flat, (n - 1) as nat);
    } else {
        let e = shading::extent_of(flat, 0);
        assert(e.u_min.units >= 1_000_000_000_000_000 && e.v_min.units >= 1_000_000_000_000_000);
        assert(e.u_max.units <= -1_000_000_000_000_000 && e.v_max.units <= -1_000_000_000_000_000);
        assert(shading::extent_of(flat, 1).u_min == p.x);
    }
}

// ---------------------------------------------------------------------------
// Inside and outside

/// A rectangle along the axes, from its low corner round to its high corner and back.
pub open spec fn rectangle(x0: Fixed, y0: Fixed, x1: Fixed, y1: Fixed) -> Seq<Point2D<Fixed>> {
    seq![
        Point2D { x: x0, y: y0 },
        Point2D { x: x1, y: y0 },
        Point2D { x: x1, y: y1 },
        Point2D { x: x0, y: y1 },
    ]
}

proof fn upright_edge(p: Point2D<Fixed>, x: Fixed, ya: Fixed, yb: Fixed)
    requires
        flat_within(p),
        flat_within(Point2D { x: x, y: ya }),
        flat_within(Point2D { x: x, y: yb }),
    ensures
        shading::crosses(p, Point2D { x: x, y: ya }, Point2D { x: x, y: yb }) == ((ya.units
            > p.y.units) != (yb.units > p.y.units) && p.x.units < x.units),
{
    let nothing = x.difference(x);
    assert(nothing.units == 0);
    let part = nothing.product(p.y.difference(ya));
    assert(0 * p.y.difference(ya).units == 0);
    assert(part.units == 0);
    if ya.units != yb.units {
        let d = yb.difference(ya);
        lemma_div_basics(d.units as int);
        lemma_div_basics(-d.units as int);
        assert(part.quotient(d).units == 0);
    }
}

/// A point lies in a rectangle along the axes where its coordinates lie between those of the
/// corners, the low sides included and the high sides left out, whichever way round the corners
/// are given.
pub proof fn inside_a_rectangle_is_between_its_sides(
    p: Point2D<Fixed>,
    x0: Fixed,
    y0: Fixed,
    x1: Fixed,
    y1: Fixed,
)
    requires
        flat_within(p),
        flat_within(Point2D { x: x0, y: y0 }),
        flat_within(Point2D { x: x1, y: y1 }),
        x0.units <= x1.units,
        y0.units <= y1.units,
    ensures
        ({
            let between = x0.units <= p.x.units < x1.units && y0.units <= p.y.units < y1.units;
            &&& shading::in_polygon(p, rectangle(x0, y0, x1, y1)) <==> between
            &&& shading::in_polygon(p, rectangle(x0, y0, x1, y1).reverse()) <==> between
        }),
{
    upright_edge(p, x0, y0, y1);
    upright_edge(p, x0, y1, y0);
    upright_edge(p, x1, y0, y1);
    upright_edge(p, x1, y1, y0);
    reveal_with_fuel(shading::crossings, 5);
    let r = rectangle(x0, y0, x1, y1);
    let back = r.reverse();
    assert(back[0] == r[3] && back[1] == r[2] && back[2] == r[1] && back[3] == r[0]);
    assert(r.len() == 4 && back.len() == 4);
}

/// Nothing above, below or beside all the corners of a polygon crosses one of its edges an odd
/// number of times: a point that is no lower than every corner, or lower than all of them, is
/// outside.
pub proof fn outside_the_height_is_outside(
    p: Point2D<Fixed>,
    polygon: Seq<Point2D<Fixed>>,
    n: nat,
)
    requires
        n <= polygon.len(),
        (forall|i: int| 0 <= i < polygon.len() ==> (#[trigger] polygon[i]).y.units <= p.y.units)
            || (forall|i: int| 0 <= i < polygon.len() ==> (#[trigger] polygon[i]).y.units
            > p.y.units),
    ensures
        shading::crossings(p, polygon, n) == 0,
        n == polygon.len() ==> !shading::in_polygon(p, polygon),
    decreases n,
{
    if n > 0 {
        outside_the_height_is_outside(p, polygon, (n - 1) as nat);
        let a = polygon[n - 1];
        let b = polygon[geometry::before_on_ring(n - 1, polygon.len() as int)];
    }
}

/// A point moved by some way.
pub open spec fn moved(p: Point2D<Fixed>, dx: int, dy: int) -> Point2D<Fixed> {
    Point2D {
        x: Fixed { units: (p.x.units + dx) as i64 },
        y: Fixed { units: (p.y.units + dy) as i64 },
    }
}

/// Points of a plan: within two kilometres, so that nothing saturates.
pub open spec fn on_plan(p: Point2D<Fixed>) -> bool {
    &&& -2_000_000_000_000 <= p.x.units <= 2_000_000_000_000
    &&& -2_000_000_000_000 <= p.y.units <= 2_000_000_000_000
}

proof fn moved_edge(
    p: Point2D<Fixed>,
    a: Point2D<Fixed>,
    b: Point2D<Fixed>,
    dx: int,
    dy: int,
)
    requires
        on_plan(p),
        on_plan(a),
        on_plan(b),
        -2_000_000_000_000 <= dx <= 2_000_000_000_000,
        -2_000_000_000_000 <= dy <= 2_000_000_000_000,
    ensures
        shading::crosses(moved(p, dx, dy), moved(a, dx, dy), moved(b, dx, dy))
            == shading::crosses(p, a, b),
{
    let (q, c, d) = (moved(p, dx, dy), moved(a, dx, dy), moved(b, dx, dy));
    assert(d.x.difference(c.x) == b.x.difference(a.x));
    assert(q.y.difference(c.y) == p.y.difference(a.y));
    assert(d.y.difference(c.y) == b.y.difference(a.y));
    if (a.y.units > p.y.units) != (b.y.units > p.y.units) {
        let (wide, part, high) = (b.x.difference(a.x), p.y.difference(a.y), b.y.difference(a.y));
        let exact = wide.units * part.units;
        assert(-16_000_000_000_000_000_000_000_000 <= exact
            <= 16_000_000_000_000_000_000_000_000) by (nonlinear_arith)
            requires
                exact == wide.units * part.units,
                -4_000_000_000_000 <= wide.units <= 4_000_000_000_000,
                -4_000_000_000_000 <= part.units <= 4_000_000_000_000,
        ;
        lemma_fundamental_div_mod(exact, fixed::SCALE as int);
        lemma_mod_bound(exact, fixed::SCALE as int);
        let prod = wide.product(part);
        let k = prod.units as int;
        assert(1_000_000_000 * k <= exact < 1_000_000_000 * k + 1_000_000_000);
        let (top, size) = if high.units < 0 {
            (-(k * 1_000_000_000), -(high.units as int))
        } else {
            (k * 1_000_000_000, high.units as int)
        };
        let (h, s) = (high.units as int, part.units as int);
        // The part of the height is no more than the height, so the quotient stays within the
        // width.
        let f = if h < 0 {
            -s
        } else {
            s
        };
        assert(0 <= f <= size);
        let w = wide.units as int;
        let e2 = if h < 0 {
            -exact
        } else {
            exact
        };
        assert(e2 == w * f) by (nonlinear_arith)
            requires
                exact == w * s,
                h < 0 ==> e2 == -exact && f == -s,
                h >= 0 ==> e2 == exact && f == s,
        ;
        assert(-4_000_000_000_000 * size <= e2 <= 4_000_000_000_000 * size) by (nonlinear_arith)
            requires
                e2 == w * f,
                0 <= f <= size,
                -4_000_000_000_000 <= w <= 4_000_000_000_000,
        ;
        let t = top / size;
        lemma_fundamental_div_mod(top, size);
        lemma_mod_bound(top, size);
        assert(-5_000_000_000_000_000_000 <= t <= 5_000_000_000_000_000_000) by (nonlinear_arith)
            requires
                size * t <= top < size * t + size,
                e2 - 1_000_000_000 <= top <= e2 + 1_000_000_000,
                -4_000_000_000_000 * size <= e2 <= 4_000_000_000_000 * size,
                size >= 1,
        ;
    }
}

/// Moving a polygon and a point together changes nothing: the point is inside after as before.
pub proof fn inside_survives_moving(
    p: Point2D<Fixed>,
    polygon: Seq<Point2D<Fixed>>,
    dx: int,
    dy: int,
    n: nat,
)
    requires
        n <= polygon.len(),
        on_plan(p),
        forall|i: int| 0 <= i < polygon.len() ==> on_plan(#[trigger] polygon[i]),
        -2_000_000_000_000 <= dx <= 2_000_000_000_000,
        -2_000_000_000_000 <= dy <= 2_000_000_000_000,
    ensures
        ({
            let there = Seq::new(polygon.len(), |i: int| moved(polygon[i], dx, dy));
            &&& shading::crossings(moved(p, dx, dy), there, n) == shading::crossings(p, polygon, n)
            &&& n == polygon.len() ==> shading::in_polygon(moved(p, dx, dy), there)
                == shading::in_polygon(p, polygon)
        }),
    decreases n,
{
    if n > 0 {
        inside_survives_moving(p, polygon, dx, dy, (n - 1) as nat);
        let j = geometry::before_on_ring(n - 1, polygon.len() as int);
        let (a, b) = (polygon[n - 1], polygon[j]);
        moved_edge(p, a, b, dx, dy);
    }
}

/// A ray towards growing `x` crosses an edge only from within its height, and only from its left: the
/// point is to the left of where the edge is at that height, but for rounding; from further to the
/// left it always does.
pub proof fn edges_are_crossed_from_their_left(
    p: Point2D<Fixed>,
    a: Point2D<Fixed>,
    b: Point2D<Fixed>,
)
    requires
        on_plan(p),
        on_plan(a),
        on_plan(b),
    ensures
        ({
            let between = (a.y.units > p.y.units) != (b.y.units > p.y.units);
            let rise = b.y.units - a.y.units;
            let (high, over) = if rise < 0 {
                (-rise, a.y.units - p.y.units)
            } else {
                (rise, p.y.units - a.y.units)
            };
            let at = (b.x.units - a.x.units) * over;
            let x = (p.x.units - a.x.units) * high;
            &&& shading::crosses(p, a, b) ==> between && x < at + 1_000_000_000
            &&& between && x <= at - 1_000_000_000 - high ==> shading::crosses(p, a, b)
        }),
{
    if (a.y.units > p.y.units) != (b.y.units > p.y.units) {
        let (wide, part, rise) = (b.x.difference(a.x), p.y.difference(a.y), b.y.difference(a.y));
        let exact = wide.units * part.units;
        assert(-16_000_000_000_000_000_000_000_000 <= exact
            <= 16_000_000_000_000_000_000_000_000) by (nonlinear_arith)
            requires
                exact == wide.units * part.units,
                -4_000_000_000_000 <= wide.units <= 4_000_000_000_000,
                -4_000_000_000_000 <= part.units <= 4_000_000_000_000,
        ;
        lemma_fundamental_div_mod(exact, fixed::SCALE as int);
        lemma_mod_bound(exact, fixed::SCALE as int);
        let k = wide.product(part).units as int;
        assert(1_000_000_000 * k <= exact < 1_000_000_000 * k + 1_000_000_000);
        let (top, high) = if rise.units < 0 {
            (-(k * 1_000_000_000), -(rise.units as int))
        } else {
            (k * 1_000_000_000, rise.units as int)
        };
        let (w, s) = (wide.units as int, part.units as int);
        let over = if rise.units < 0 {
            -s
        } else {
            s
        };
        let at = w * over;
        assert(at == if rise.units < 0 {
            -exact
        } else {
            exact
        }) by (nonlinear_arith)
            requires
                at == w * over,
                exact == w * s,
                rise.units < 0 ==> over == -s,
                rise.units >= 0 ==> over == s,
        ;
        assert(0 <= over <= high);
        assert(-4_000_000_000_000 * high <= at <= 4_000_000_000_000 * high) by (nonlinear_arith)
            requires
                at == w * over,
                0 <= over <= high,
                -4_000_000_000_000 <= w <= 4_000_000_000_000,
        ;
        let q = top / high;
        lemma_fundamental_div_mod(top, high);
        lemma_mod_bound(top, high);
        assert(-5_000_000_000_000_000_000 <= q <= 5_000_000_000_000_000_000) by (nonlinear_arith)
            requires
                high * q <= top < high * q + high,
                at - 1_000_000_000 <= top <= at + 1_000_000_000,
                -4_000_000_000_000 * high <= at <= 4_000_000_000_000 * high,
                high >= 1,
        ;
        assert(wide.product(part).quotient(rise).units == q);
        let d = p.x.units - a.x.units;
        if d < q {
            assert(d * high <= high * q - high) by (nonlinear_arith)
                requires
                    d + 1 <= q,
                    high > 0,
            ;
        } else {
            assert(d * high >= high * q) by (nonlinear_arith)
                requires
                    d >= q,
                    high > 0,
            ;
        }
    }
}

/// Each edge of a polygon counts once, from the corner before it on the ring, and a point is inside
/// where a ray from it crosses an odd number of them.
pub proof fn crossed_edges_are_counted<T: Scalar>(
    p: Point2D<T>,
    polygon: Seq<Point2D<T>>,
    n: nat,
)
    requires
        n < polygon.len(),
    ensures
        shading::crossings(p, polygon, 0) == 0,
        ({
            let before = shading::crossings(p, polygon, n);
            let after = shading::crossings(p, polygon, n + 1);
            let crossed = shading::crosses(
                p,
                polygon[n as int],
                polygon[if n == 0 {
                    polygon.len() - 1
                } else {
                    n - 1
                }],
            );
            &&& crossed ==> after == before + 1
            &&& !crossed ==> after == before
        }),
        shading::in_polygon(p, polygon) <==> shading::crossings(p, polygon, polygon.len()) % 2 == 1,
{
}

} // verus!
