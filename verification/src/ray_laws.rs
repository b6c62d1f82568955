//! Where rays go, on fixed-point numbers: the shadow of a point along the sun, and what a ray
//! towards the sky meets on its way.
use crate::fixed;
use crate::fixed::Fixed;
use crate::geometry;
use crate::geometry::{Point3D, Vec3};
use crate::plane_laws::{exact_dot, point_within};
use crate::scalar::{lit, Scalar};
use crate::shading;
use vstd::arithmetic::div_mod::*;
use vstd::prelude::*;

verus! {

// ---------------------------------------------------------------------------
// Products and quotients

/// No component is longer than two.
pub open spec fn short(v: Vec3<Fixed>) -> bool {
    &&& -2_000_000_000 <= v.x.units <= 2_000_000_000
    &&& -2_000_000_000 <= v.y.units <= 2_000_000_000
    &&& -2_000_000_000 <= v.z.units <= 2_000_000_000
}

/// No component is longer than four kilometres.
pub open spec fn near(v: Vec3<Fixed>) -> bool {
    &&& -4_000_000_000_000 <= v.x.units <= 4_000_000_000_000
    &&& -4_000_000_000_000 <= v.y.units <= 4_000_000_000_000
    &&& -4_000_000_000_000 <= v.z.units <= 4_000_000_000_000
}

proof fn near_times_short(a: Fixed, b: Fixed)
    requires
        -4_000_000_000_000 <= a.units <= 4_000_000_000_000,
        -2_000_000_000 <= b.units <= 2_000_000_000,
    ensures
        ({
            let p = a.product(b).units;
            &&& fixed::SCALE * p <= a.units * b.units < fixed::SCALE * p + fixed::SCALE
            &&& -8_000_000_000_001 <= p <= 8_000_000_000_000
        }),
{
    let exact = a.units * b.units;
    assert(-8_000_000_000_000_000_000_000 <= exact <= 8_000_000_000_000_000_000_000)
        by (nonlinear_arith)
        requires
            exact == a.units * b.units,
            -4_000_000_000_000 <= a.units <= 4_000_000_000_000,
            -2_000_000_000 <= b.units <= 2_000_000_000,
    ;
    lemma_fundamental_div_mod(exact, fixed::SCALE as int);
    lemma_mod_bound(exact, fixed::SCALE as int);
}

/// A dot product is rounded down by less than three units.
proof fn dot_is_rounded(a: Vec3<Fixed>, b: Vec3<Fixed>)
    requires
        near(a),
        short(b),
    ensures
        ({
            let d = a.dot(&b).units;
            &&& fixed::SCALE * d <= exact_dot(a, b) < fixed::SCALE * d + 3 * fixed::SCALE
            &&& -24_000_000_000_003 <= d <= 24_000_000_000_000
        }),
{
    near_times_short(a.x, b.x);
    near_times_short(a.y, b.y);
    near_times_short(a.z, b.z);
}

proof fn dot_commutes(a: Vec3<Fixed>, b: Vec3<Fixed>)
    ensures
        a.dot(&b) == b.dot(&a),
        exact_dot(a, b) == exact_dot(b, a),
{
    assert(a.x.units * b.x.units == b.x.units * a.x.units) by (nonlinear_arith);
    assert(a.y.units * b.y.units == b.y.units * a.y.units) by (nonlinear_arith);
    assert(a.z.units * b.z.units == b.z.units * a.z.units) by (nonlinear_arith);
}

/// A quotient by a divisor that is not too small.
proof fn quotient_is_rounded(n: Fixed, d: Fixed)
    requires
        -24_000_000_000_003 <= n.units <= 24_000_000_000_003,
        d.units <= -4_000_000 || 4_000_000 <= d.units,
        -24_000_000_000_003 <= d.units <= 24_000_000_000_003,
    ensures
        ({
            let t = n.quotient(d).units;
            let size = if d.units < 0 {
                -d.units
            } else {
                d.units as int
            };
            &&& -size < d.units * t - n.units * 1_000_000_000 < size
            &&& -7_000_000_000_000_000 <= t <= 7_000_000_000_000_000
        }),
{
    let size = if d.units < 0 {
        -d.units
    } else {
        d.units as int
    };
    let top = if d.units < 0 {
        -n.units
    } else {
        n.units as int
    };
    let exact = top * 1_000_000_000;
    let q = exact / size;
    lemma_fundamental_div_mod(exact, size);
    lemma_mod_bound(exact, size);
    assert(-7_000_000_000_000_000 <= q <= 7_000_000_000_000_000) by (nonlinear_arith)
        requires
            exact == size * q + exact % size,
            0 <= exact % size < size,
            4_000_000 <= size,
            -24_000_000_000_003_000_000_000 <= exact <= 24_000_000_000_003_000_000_000,
    ;
    if d.units < 0 {
        assert(-n.units * fixed::SCALE == exact);
        assert(n.quotient(d).units == q);
        assert(d.units * q == -(size * q)) by (nonlinear_arith)
            requires
                size == -d.units,
        ;
    } else {
        assert(n.units * fixed::SCALE == exact);
        assert(n.quotient(d).units == q);
    }
}

/// A step of `t` times a component, and what rounding takes from it.
proof fn step_is_rounded(from: Fixed, t: Fixed, d: Fixed) -> (lost: int)
    requires
        -4_000_000_000_000 <= from.units <= 4_000_000_000_000,
        -7_000_000_000_000_000 <= t.units <= 7_000_000_000_000_000,
        -2_000_000_000 <= d.units <= 2_000_000_000,
    ensures
        fixed::SCALE * (from.sum(t.product(d)).units - from.units) == t.units * d.units - lost,
        0 <= lost < fixed::SCALE,
{
    let exact = t.units * d.units;
    assert(-14_000_000_000_000_000_000_000_000 <= exact <= 14_000_000_000_000_000_000_000_000)
        by (nonlinear_arith)
        requires
            exact == t.units * d.units,
            -7_000_000_000_000_000 <= t.units <= 7_000_000_000_000_000,
            -2_000_000_000 <= d.units <= 2_000_000_000,
    ;
    lemma_fundamental_div_mod(exact, fixed::SCALE as int);
    lemma_mod_bound(exact, fixed::SCALE as int);
    exact % (fixed::SCALE as int)
}

// ---------------------------------------------------------------------------
// Shadows

/// The way from one point to another, in units.
pub open spec fn step(from: Point3D<Fixed>, to: Point3D<Fixed>) -> (int, int, int) {
    (
        to.x.units - from.x.units,
        to.y.units - from.y.units,
        to.z.units - from.z.units,
    )
}

/// How far a point lies off a plane, in squared units: the distance times the length of the
/// normal.
pub open spec fn off_plane(
    p: Point3D<Fixed>,
    plane_point: Point3D<Fixed>,
    n: Vec3<Fixed>,
) -> int {
    let w = step(plane_point, p);
    n.x.units * w.0 + n.y.units * w.1 + n.z.units * w.2
}

/// How steeply a direction meets a plane, in squared units.
pub open spec fn steepness(dir: Vec3<Fixed>, n: Vec3<Fixed>) -> int {
    dir.x.units * n.x.units + dir.y.units * n.y.units + dir.z.units * n.z.units
}

/// The direction does not graze the plane: it meets it at more than half a degree.
pub open spec fn is_steep(dir: Vec3<Fixed>, n: Vec3<Fixed>) -> bool {
    steepness(dir, n) <= -10_000_000_000_000_000 || 10_000_000_000_000_000 <= steepness(dir, n)
}

/// Two points of a site and two directions of about length one.
pub open spec fn on_site(
    p: Point3D<Fixed>,
    plane_point: Point3D<Fixed>,
    n: Vec3<Fixed>,
    dir: Vec3<Fixed>,
) -> bool {
    &&& point_within(p, 2_000_000_000_000)
    &&& point_within(plane_point, 2_000_000_000_000)
    &&& short(n)
    &&& short(dir)
}

/// The share of the direction that takes a point to a plane, as it is rounded.
spec fn way_to_plane(
    p: Point3D<Fixed>,
    plane_point: Point3D<Fixed>,
    n: Vec3<Fixed>,
    dir: Vec3<Fixed>,
) -> Fixed {
    plane_point.from(&p).dot(&n).quotient(dir.dot(&n))
}

proof fn way_is_rounded(
    p: Point3D<Fixed>,
    plane_point: Point3D<Fixed>,
    n: Vec3<Fixed>,
    dir: Vec3<Fixed>,
)
    requires
        on_site(p, plane_point, n, dir),
        is_steep(dir, n),
    ensures
        ({
            let d = dir.dot(&n).units;
            let m = plane_point.from(&p).dot(&n).units;
            let t = way_to_plane(p, plane_point, n, dir).units;
            let size = if d < 0 {
                -d
            } else {
                d as int
            };
            let scale = fixed::SCALE as int;
            &&& 9_000_000 <= size <= 24_000_000_000_003
            &&& scale * d <= steepness(dir, n) < scale * d + 3 * scale
            &&& scale * m <= -off_plane(p, plane_point, n) < scale * m + 3 * scale
            &&& -size < d * t - m * scale < size
            &&& -7_000_000_000_000_000 <= t <= 7_000_000_000_000_000
        }),
{
    dot_is_rounded(dir, n);
    let w = plane_point.from(&p);
    dot_is_rounded(w, n);
    let s = step(plane_point, p);
    assert(w.x.units == -s.0 && w.y.units == -s.1 && w.z.units == -s.2);
    negated_dot(n, s, w);
    quotient_is_rounded(w.dot(&n), dir.dot(&n));
}

proof fn negated_dot(n: Vec3<Fixed>, s: (int, int, int), w: Vec3<Fixed>)
    requires
        w.x.units == -s.0,
        w.y.units == -s.1,
        w.z.units == -s.2,
    ensures
        exact_dot(w, n) == -(n.x.units * s.0 + n.y.units * s.1 + n.z.units * s.2),
{
    assert(w.x.units * n.x.units == -(n.x.units * s.0)) by (nonlinear_arith)
        requires
            w.x.units == -s.0,
    ;
    assert(w.y.units * n.y.units == -(n.y.units * s.1)) by (nonlinear_arith)
        requires
            w.y.units == -s.1,
    ;
    assert(w.z.units * n.z.units == -(n.z.units * s.2)) by (nonlinear_arith)
        requires
            w.z.units == -s.2,
    ;
}

/// The part of the way along one axis, times the normal.
proof fn part_off_plane(n: int, k: int, t: int, d: int, lost: int)
    requires
        1_000_000_000 * k == t * d - lost,
        0 <= lost < 1_000_000_000,
        -2_000_000_000 <= n <= 2_000_000_000,
    ensures
        -2_000_000_000_000_000_000 <= 1_000_000_000 * (n * k) - t * (d * n)
            <= 2_000_000_000_000_000_000,
{
    assert(1_000_000_000 * (n * k) == n * (1_000_000_000 * k)) by (nonlinear_arith);
    assert(n * (t * d - lost) == t * (d * n) - n * lost) by (nonlinear_arith);
    assert(-2_000_000_000_000_000_000 <= n * lost <= 2_000_000_000_000_000_000)
        by (nonlinear_arith)
        requires
            0 <= lost < 1_000_000_000,
            -2_000_000_000 <= n <= 2_000_000_000,
    ;
}

/// The offset from a plane of a point that has gone the rounded way to it.
proof fn offset_after_way(
    before: int,
    along: int,
    after: int,
    t: int,
    steep: int,
    d: int,
    m: int,
    size: int,
)
    requires
        after == before + along,
        -6_000_000_000_000_000_000 <= 1_000_000_000 * along - t * steep
            <= 6_000_000_000_000_000_000,
        1_000_000_000 * d <= steep < 1_000_000_000 * d + 3_000_000_000,
        1_000_000_000 * m <= -before < 1_000_000_000 * m + 3_000_000_000,
        -size < d * t - m * 1_000_000_000 < size,
    ensures
        ({
            let most = 9_000_000_000 + size + 3 * (if t < 0 {
                -t
            } else {
                t
            });
            -most <= after <= most
        }),
{
    let scale: int = 1_000_000_000;
    let e1 = steep - scale * d;
    let e2 = -before - scale * m;
    let e3 = d * t - m * scale;
    let far = if t < 0 {
        -t
    } else {
        t
    };
    assert(t * steep == scale * (d * t) + t * e1) by (nonlinear_arith)
        requires
            steep == scale * d + e1,
    ;
    assert(-(3 * scale * far) <= t * e1 <= 3 * scale * far) by (nonlinear_arith)
        requires
            0 <= e1 <= 3 * scale,
            -far <= t <= far,
            0 <= scale,
    ;
    assert(scale * (d * t) == scale * (m * scale) + scale * e3) by (nonlinear_arith)
        requires
            d * t == m * scale + e3,
    ;
    assert(scale * before == -(scale * (m * scale)) - scale * e2) by (nonlinear_arith)
        requires
            before == -(scale * m) - e2,
    ;
    assert(3 * scale * far == scale * (3 * far)) by (nonlinear_arith);
    assert(scale * after == scale * before + scale * along) by (nonlinear_arith)
        requires
            after == before + along,
    ;
}

/// What is lost along a way, crossed with its direction.
proof fn cross_of_lost(kx: int, ky: int, t: int, dx: int, dy: int, lost_x: int, lost_y: int)
    requires
        1_000_000_000 * kx == t * dx - lost_x,
        1_000_000_000 * ky == t * dy - lost_y,
        0 <= lost_x < 1_000_000_000,
        0 <= lost_y < 1_000_000_000,
        -2_000_000_000 <= dx <= 2_000_000_000,
        -2_000_000_000 <= dy <= 2_000_000_000,
    ensures
        -4_000_000_000 <= kx * dy - ky * dx <= 4_000_000_000,
{
    let scale: int = 1_000_000_000;
    assert(scale * (kx * dy) == (t * dx - lost_x) * dy) by (nonlinear_arith)
        requires
            scale * kx == t * dx - lost_x,
    ;
    assert(scale * (ky * dx) == (t * dy - lost_y) * dx) by (nonlinear_arith)
        requires
            scale * ky == t * dy - lost_y,
    ;
    assert((t * dx - lost_x) * dy - (t * dy - lost_y) * dx == lost_y * dx - lost_x * dy)
        by (nonlinear_arith);
    assert(-2_000_000_000 * scale <= lost_y * dx <= 2_000_000_000 * scale) by (nonlinear_arith)
        requires
            0 <= lost_y < scale,
            -2_000_000_000 <= dx <= 2_000_000_000,
    ;
    assert(-2_000_000_000 * scale <= lost_x * dy <= 2_000_000_000 * scale) by (nonlinear_arith)
        requires
            0 <= lost_x < scale,
            -2_000_000_000 <= dy <= 2_000_000_000,
    ;
}

/// Where a point ends up that goes the rounded way to a plane.
proof fn point_on_plane(
    p: Point3D<Fixed>,
    plane_point: Point3D<Fixed>,
    n: Vec3<Fixed>,
    dir: Vec3<Fixed>,
) -> (t: int)
    requires
        on_site(p, plane_point, n, dir),
        is_steep(dir, n),
    ensures
        ({
            let x = p.along(&dir, way_to_plane(p, plane_point, n, dir));
            let k = step(p, x);
            let scale = fixed::SCALE as int;
            let d = dir.dot(&n).units;
            let most = 9 * scale + (if d < 0 {
                -d
            } else {
                d as int
            }) + 3 * (if t < 0 {
                -t
            } else {
                t
            });
            &&& t == way_to_plane(p, plane_point, n, dir).units
            &&& t * dir.x.units - scale < scale * k.0 <= t * dir.x.units
            &&& t * dir.y.units - scale < scale * k.1 <= t * dir.y.units
            &&& t * dir.z.units - scale < scale * k.2 <= t * dir.z.units
            &&& -most <= off_plane(x, plane_point, n) <= most
            &&& -4 * scale <= k.0 * dir.y.units - k.1 * dir.x.units <= 4 * scale
            &&& -4 * scale <= k.1 * dir.z.units - k.2 * dir.y.units <= 4 * scale
            &&& -4 * scale <= k.2 * dir.x.units - k.0 * dir.z.units <= 4 * scale
        }),
{
    way_is_rounded(p, plane_point, n, dir);
    let way = way_to_plane(p, plane_point, n, dir);
    let t = way.units as int;
    let x = p.along(&dir, way);
    let k = step(p, x);
    let a = step_is_rounded(p.x, way, dir.x);
    let b = step_is_rounded(p.y, way, dir.y);
    let c = step_is_rounded(p.z, way, dir.z);
    let (dx, dy, dz) = (dir.x.units as int, dir.y.units as int, dir.z.units as int);
    let (nx, ny, nz) = (n.x.units as int, n.y.units as int, n.z.units as int);
    part_off_plane(nx, k.0, t, dx, a);
    part_off_plane(ny, k.1, t, dy, b);
    part_off_plane(nz, k.2, t, dz, c);
    let before = off_plane(p, plane_point, n);
    let along = nx * k.0 + ny * k.1 + nz * k.2;
    let s = step(plane_point, p);
    let after = off_plane(x, plane_point, n);
    assert(after == before + along) by {
        assert(nx * (s.0 + k.0) == nx * s.0 + nx * k.0) by (nonlinear_arith);
        assert(ny * (s.1 + k.1) == ny * s.1 + ny * k.1) by (nonlinear_arith);
        assert(nz * (s.2 + k.2) == nz * s.2 + nz * k.2) by (nonlinear_arith);
    }
    let steep = steepness(dir, n);
    assert(t * steep == t * (dx * nx) + t * (dy * ny) + t * (dz * nz)) by (nonlinear_arith)
        requires
            steep == dx * nx + dy * ny + dz * nz,
    ;
    let d = dir.dot(&n).units as int;
    offset_after_way(
        before,
        along,
        after,
        t,
        steep,
        d,
        plane_point.from(&p).dot(&n).units as int,
        if d < 0 {
            -d
        } else {
            d
        },
    );
    cross_of_lost(k.0, k.1, t, dx, dy, a, b);
    cross_of_lost(k.1, k.2, t, dy, dz, b, c);
    cross_of_lost(k.2, k.0, t, dz, dx, c, a);
    t
}

/// The shadow of a point lies on the ray from it along the sun, and on the plane that it falls
/// on: going from the point to the shadow is going the same share `t` of the sun direction in all
/// three coordinates, not backwards, and the shadow is off the plane by no more than rounding.
pub proof fn shadow_is_on_the_ray_and_on_the_plane(
    p: Point3D<Fixed>,
    plane_point: Point3D<Fixed>,
    n: Vec3<Fixed>,
    sun_dir: Vec3<Fixed>,
) -> (t: int)
    requires
        on_site(p, plane_point, n, sun_dir),
        is_steep(sun_dir, n),
        shading::shadow_point(p, plane_point, n, sun_dir) is Some,
    ensures
        t >= -1000,
        ({
            let x = shading::shadow_point(p, plane_point, n, sun_dir)->Some_0;
            let k = step(p, x);
            let most = 33_000_000_000 + 3 * (if t < 0 {
                -t
            } else {
                t
            });
            &&& t * sun_dir.x.units - 1_000_000_000 < 1_000_000_000 * k.0 <= t * sun_dir.x.units
            &&& t * sun_dir.y.units - 1_000_000_000 < 1_000_000_000 * k.1 <= t * sun_dir.y.units
            &&& t * sun_dir.z.units - 1_000_000_000 < 1_000_000_000 * k.2 <= t * sun_dir.z.units
            &&& -most <= off_plane(x, plane_point, n) <= most
            &&& -4_000_000_000 <= k.0 * sun_dir.y.units - k.1 * sun_dir.x.units <= 4_000_000_000
            &&& -4_000_000_000 <= k.1 * sun_dir.z.units - k.2 * sun_dir.y.units <= 4_000_000_000
            &&& -4_000_000_000 <= k.2 * sun_dir.x.units - k.0 * sun_dir.z.units <= 4_000_000_000
        }),
{
    let t = point_on_plane(p, plane_point, n, sun_dir);
    assert(lit::<Fixed>(1, 1_000_000).units == 1000);
    short_dot(sun_dir, n);
    t
}

proof fn short_dot(a: Vec3<Fixed>, b: Vec3<Fixed>)
    requires
        short(a),
        short(b),
    ensures
        -24_000_000_000 <= a.dot(&b).units <= 24_000_000_000,
{
    dot_is_rounded(a, b);
    let (x, y, z) = (
        a.x.units * b.x.units,
        a.y.units * b.y.units,
        a.z.units * b.z.units,
    );
    assert(-4_000_000_000_000_000_000 <= x <= 4_000_000_000_000_000_000 && -4_000_000_000_000_000_000
        <= y <= 4_000_000_000_000_000_000 && -4_000_000_000_000_000_000 <= z
        <= 4_000_000_000_000_000_000) by (nonlinear_arith)
        requires
            x == a.x.units * b.x.units,
            y == a.y.units * b.y.units,
            z == a.z.units * b.z.units,
            -2_000_000_000 <= a.x.units <= 2_000_000_000,
            -2_000_000_000 <= a.y.units <= 2_000_000_000,
            -2_000_000_000 <= a.z.units <= 2_000_000_000,
            -2_000_000_000 <= b.x.units <= 2_000_000_000,
            -2_000_000_000 <= b.y.units <= 2_000_000_000,
            -2_000_000_000 <= b.z.units <= 2_000_000_000,
    ;
}

/// A point throws a shadow on every plane that lies ahead of it along the sun, and none on one
/// that lies behind it.
pub proof fn shadow_falls_ahead_only(
    p: Point3D<Fixed>,
    plane_point: Point3D<Fixed>,
    n: Vec3<Fixed>,
    sun_dir: Vec3<Fixed>,
)
    requires
        on_site(p, plane_point, n, sun_dir),
        is_steep(sun_dir, n),
    ensures
        ({
            let off = off_plane(p, plane_point, n);
            let steep = steepness(sun_dir, n);
            let shadow = shading::shadow_point(p, plane_point, n, sun_dir);
            &&& (off <= 0 && steep > 0) || (off >= 0 && steep < 0) ==> shadow is Some
            &&& steep > 0 && off >= 30_000_000_000_000 ==> shadow is None
            &&& steep < 0 && off <= -30_000_000_000_000 ==> shadow is None
        }),
{
    way_is_rounded(p, plane_point, n, sun_dir);
    short_dot(sun_dir, n);
    assert(lit::<Fixed>(1, 1_000_000).units == 1000);
    assert(lit::<Fixed>(1, 10_000_000_000).units == 0);
    let d = sun_dir.dot(&n).units as int;
    let m = plane_point.from(&p).dot(&n).units as int;
    let t = way_to_plane(p, plane_point, n, sun_dir).units as int;
    let off = off_plane(p, plane_point, n);
    let steep = steepness(sun_dir, n);
    if (off <= 0 && steep > 0) || (off >= 0 && steep < 0) {
        assert(t > -1000) by (nonlinear_arith)
            requires
                (d >= 9_000_000 && m >= -3 && -d < d * t - m * 1_000_000_000) || (d <= -9_000_000
                    && m <= 0 && -m * 1_000_000_000 >= 0 && d * t - m * 1_000_000_000 < -d),
        {
            if d >= 9_000_000 {
                assert(d * t > -3_000_000_000 - d);
                if t <= -1000 {
                    assert(d * t <= d * (-1000)) by (nonlinear_arith)
                        requires
                            t <= -1000,
                            d >= 9_000_000,
                    ;
                }
            } else {
                assert(d * t < -d);
                if t <= -1000 {
                    assert(d * t >= d * (-1000)) by (nonlinear_arith)
                        requires
                            t <= -1000,
                            d <= -9_000_000,
                    ;
                }
            }
        }
    }
    if steep > 0 && off >= 30_000_000_000_000 {
        assert(t < -1000) by (nonlinear_arith)
            requires
                9_000_000 <= d <= 24_000_000_000,
                m <= -30_000,
                d * t - m * 1_000_000_000 < d,
        {
            assert(d * t < d - 30_000_000_000_000);
            if t >= -1000 {
                assert(d * t >= d * (-1000)) by (nonlinear_arith)
                    requires
                        t >= -1000,
                        d >= 9_000_000,
                ;
            }
        }
    }
    if steep < 0 && off <= -30_000_000_000_000 {
        assert(t < -1000) by (nonlinear_arith)
            requires
                -24_000_000_000 <= d <= -9_000_000,
                m >= 29_990,
                d < d * t - m * 1_000_000_000,
        {
            assert(d * t > d + 29_990_000_000_000);
            if t >= -1000 {
                assert(d * t <= d * (-1000)) by (nonlinear_arith)
                    requires
                        t >= -1000,
                        d <= -9_000_000,
                ;
            }
        }
    }
}

// ---------------------------------------------------------------------------
// Rays that hit

/// `through` lies on the ray from `origin` along `dir`, `s` units of the direction ahead.
pub open spec fn lies_ahead(
    origin: Point3D<Fixed>,
    dir: Vec3<Fixed>,
    through: Point3D<Fixed>,
    s: int,
) -> bool {
    let k = step(origin, through);
    &&& 1_000_000_000 * k.0 == s * dir.x.units
    &&& 1_000_000_000 * k.1 == s * dir.y.units
    &&& 1_000_000_000 * k.2 == s * dir.z.units
}

/// How far inside the edge from `a` to `b` a point lies, seen along the normal, in cubed units:
/// the distance times the length of the edge and of the normal.
pub open spec fn depth_inside(
    p: Point3D<Fixed>,
    a: Point3D<Fixed>,
    b: Point3D<Fixed>,
    n: Vec3<Fixed>,
) -> int {
    let (e, w) = (step(a, b), step(a, p));
    (e.1 * w.2 - e.2 * w.1) * n.x.units + (e.2 * w.0 - e.0 * w.2) * n.y.units + (e.0 * w.1 - e.1
        * w.0) * n.z.units
}

/// The rounded way to a plane is the exact one, but for rounding.
proof fn way_is_near(
    origin: Point3D<Fixed>,
    plane_point: Point3D<Fixed>,
    n: Vec3<Fixed>,
    dir: Vec3<Fixed>,
    through: Point3D<Fixed>,
    s: int,
)
    requires
        on_site(origin, plane_point, n, dir),
        is_steep(dir, n),
        lies_ahead(origin, dir, through, s),
        off_plane(through, plane_point, n) == 0,
        0 <= s <= 100_000_000_000,
    ensures
        -34_000 <= way_to_plane(origin, plane_point, n, dir).units - s <= 34_000,
{
    way_is_rounded(origin, plane_point, n, dir);
    let scale: int = 1_000_000_000;
    let d = dir.dot(&n).units as int;
    let m = plane_point.from(&origin).dot(&n).units as int;
    let t = way_to_plane(origin, plane_point, n, dir).units as int;
    let steep = steepness(dir, n);
    let off = off_plane(origin, plane_point, n);
    let k = step(origin, through);
    let w = step(plane_point, origin);
    let (nx, ny, nz) = (n.x.units as int, n.y.units as int, n.z.units as int);
    let (dx, dy, dz) = (dir.x.units as int, dir.y.units as int, dir.z.units as int);
    // From the origin to the plane it is as far as from the origin to the point.
    assert(-off == nx * k.0 + ny * k.1 + nz * k.2) by {
        assert(nx * (w.0 + k.0) == nx * w.0 + nx * k.0) by (nonlinear_arith);
        assert(ny * (w.1 + k.1) == ny * w.1 + ny * k.1) by (nonlinear_arith);
        assert(nz * (w.2 + k.2) == nz * w.2 + nz * k.2) by (nonlinear_arith);
    }
    assert(scale * (nx * k.0) == s * (dx * nx)) by (nonlinear_arith)
        requires
            scale * k.0 == s * dx,
    ;
    assert(scale * (ny * k.1) == s * (dy * ny)) by (nonlinear_arith)
        requires
            scale * k.1 == s * dy,
    ;
    assert(scale * (nz * k.2) == s * (dz * nz)) by (nonlinear_arith)
        requires
            scale * k.2 == s * dz,
    ;
    assert(s * steep == s * (dx * nx) + s * (dy * ny) + s * (dz * nz)) by (nonlinear_arith)
        requires
            steep == dx * nx + dy * ny + dz * nz,
    ;
    assert(scale * (-off) == s * steep);
    let e1 = steep - scale * d;
    let e2 = -off - scale * m;
    let e3 = d * t - m * scale;
    let gap = t - s;
    let size = if d < 0 {
        -d
    } else {
        d
    };
    assert(scale * (d * gap) == scale * e3 - scale * e2 + s * e1) by {
        assert(d * gap == d * t - d * s) by (nonlinear_arith)
            requires
                gap == t - s,
        ;
        assert(scale * (d * t) == scale * (m * scale) + scale * e3) by (nonlinear_arith)
            requires
                d * t == m * scale + e3,
        ;
        assert(scale * (-off) == scale * (m * scale) + scale * e2) by (nonlinear_arith)
            requires
                -off == scale * m + e2,
        ;
        assert(s * steep == scale * (d * s) + s * e1) by (nonlinear_arith)
            requires
                steep == scale * d + e1,
        ;
    }
    assert(0 <= s * e1 <= 3 * scale * s) by (nonlinear_arith)
        requires
            0 <= e1 <= 3 * scale,
            0 <= s,
    ;
    assert(scale * e3 <= scale * size && -(scale * size) <= scale * e3) by (nonlinear_arith)
        requires
            -size <= e3 <= size,
            0 <= scale,
    ;
    assert(-(size + 3 * scale) <= d * gap <= size + 3 * scale + 300_000_000_000);
    assert(-34_000 <= gap <= 34_000) by (nonlinear_arith)
        requires
            -(size + 303_000_000_000) <= d * gap <= size + 303_000_000_000,
            size == d || size == -d,
            size >= 9_000_000,
    {
        if gap > 34_000 {
            assert(size * gap >= size * 34_001) by (nonlinear_arith)
                requires
                    gap > 34_000,
                    size >= 9_000_000,
            ;
            assert(size * 34_001 > size + 303_000_000_000);
            assert(d * gap == size * gap || d * gap == -(size * gap)) by (nonlinear_arith)
                requires
                    size == d || size == -d,
            ;
        }
        if gap < -34_000 {
            assert(size * gap <= size * (-34_001)) by (nonlinear_arith)
                requires
                    gap < -34_000,
                    size >= 9_000_000,
            ;
            assert(size * 34_001 > size + 303_000_000_000);
            assert(d * gap == size * gap || d * gap == -(size * gap)) by (nonlinear_arith)
                requires
                    size == d || size == -d,
            ;
        }
    }
}

/// One coordinate of the point where a ray meets a plane is near the exact one.
proof fn meeting_coordinate(from: Fixed, t: Fixed, d: Fixed, s: int, exact: int)
    requires
        -2_000_000_000_000 <= from.units <= 2_000_000_000_000,
        -2_000_000_000 <= d.units <= 2_000_000_000,
        0 <= s <= 100_000_000_000,
        -34_000 <= t.units - s <= 34_000,
        1_000_000_000 * (exact - from.units) == s * d.units,
    ensures
        -68_001 <= from.sum(t.product(d)).units - exact <= 68_001,
{
    let lost = step_is_rounded(from, t, d);
    let gap = t.units - s;
    assert(t.units * d.units == s * d.units + gap * d.units) by (nonlinear_arith)
        requires
            gap == t.units - s,
    ;
    assert(-68_000_000_000_000 <= gap * d.units <= 68_000_000_000_000) by (nonlinear_arith)
        requires
            -34_000 <= gap <= 34_000,
            -2_000_000_000 <= d.units <= 2_000_000_000,
    ;
}

/// A product, rounded, of numbers up to a bound.
proof fn bounded_product(a: Fixed, b: Fixed, most_a: int, most_b: int)
    requires
        -most_a <= a.units <= most_a,
        -most_b <= b.units <= most_b,
        0 <= most_a,
        0 <= most_b,
        most_a * most_b <= 1_000_000_000_000_000_000_000_000_000,
    ensures
        ({
            let p = a.product(b).units;
            &&& fixed::SCALE * p <= a.units * b.units < fixed::SCALE * p + fixed::SCALE
            &&& -1_000_000_000_000_000_001 <= p <= 1_000_000_000_000_000_000
        }),
{
    let exact = a.units * b.units;
    assert(-(most_a * most_b) <= exact <= most_a * most_b) by (nonlinear_arith)
        requires
            exact == a.units * b.units,
            -most_a <= a.units <= most_a,
            -most_b <= b.units <= most_b,
    ;
    lemma_fundamental_div_mod(exact, fixed::SCALE as int);
    lemma_mod_bound(exact, fixed::SCALE as int);
}

/// One component of a cross product of ways on a site.
proof fn cross_component(a: Fixed, b: Fixed, c: Fixed, d: Fixed)
    requires
        -4_000_000_000_000 <= a.units <= 4_000_000_000_000,
        -4_000_000_000_000 <= b.units <= 4_000_000_000_000,
        -4_000_000_000_000 <= c.units <= 4_000_000_000_000,
        -4_000_000_000_000 <= d.units <= 4_000_000_000_000,
    ensures
        ({
            let x = a.product(b).difference(c.product(d)).units;
            let exact = a.units * b.units - c.units * d.units;
            &&& exact - fixed::SCALE < fixed::SCALE * x < exact + fixed::SCALE
            &&& -40_000_000_000_000_000 <= x <= 40_000_000_000_000_000
        }),
{
    bounded_product(a, b, 4_000_000_000_000, 4_000_000_000_000);
    bounded_product(c, d, 4_000_000_000_000, 4_000_000_000_000);
    let (p, q) = (a.units * b.units, c.units * d.units);
    assert(-16_000_000_000_000_000_000_000_000 <= p <= 16_000_000_000_000_000_000_000_000
        && -16_000_000_000_000_000_000_000_000 <= q <= 16_000_000_000_000_000_000_000_000)
        by (nonlinear_arith)
        requires
            p == a.units * b.units,
            q == c.units * d.units,
            -4_000_000_000_000 <= a.units <= 4_000_000_000_000,
            -4_000_000_000_000 <= b.units <= 4_000_000_000_000,
            -4_000_000_000_000 <= c.units <= 4_000_000_000_000,
            -4_000_000_000_000 <= d.units <= 4_000_000_000_000,
    ;
}

/// A component of a normal times one of a rounded cross product.
proof fn weighted_component(x: int, exact: int, n: int)
    requires
        exact - 1_000_000_000 < 1_000_000_000 * x < exact + 1_000_000_000,
        -2_000_000_000 <= n <= 2_000_000_000,
    ensures
        exact * n - 2_000_000_000_000_000_000 <= 1_000_000_000 * (x * n) <= exact * n
            + 2_000_000_000_000_000_000,
{
    let off = 1_000_000_000 * x - exact;
    assert(1_000_000_000 * (x * n) == exact * n + off * n) by (nonlinear_arith)
        requires
            off == 1_000_000_000 * x - exact,
    ;
    assert(-2_000_000_000_000_000_000 <= off * n <= 2_000_000_000_000_000_000) by (nonlinear_arith)
        requires
            -1_000_000_000 <= off <= 1_000_000_000,
            -2_000_000_000 <= n <= 2_000_000_000,
    ;
}

/// How far inside an edge a point is seen, next to how far inside it is: `seen` in units and the
/// exact depth in cubed units.
proof fn seen_depth(p: Point3D<Fixed>, a: Point3D<Fixed>, b: Point3D<Fixed>, n: Vec3<Fixed>)
    requires
        point_within(p, 2_000_000_000_000),
        point_within(a, 2_000_000_000_000),
        point_within(b, 2_000_000_000_000),
        short(n),
    ensures
        ({
            let seen = b.from(&a).cross(&p.from(&a)).dot(&n).units;
            let exact = depth_inside(p, a, b, n);
            exact - 9_000_000_000_000_000_000 <= 1_000_000_000_000_000_000 * seen <= exact
                + 9_000_000_000_000_000_000
        }),
{
    let e = b.from(&a);
    let w = p.from(&a);
    let (se, sw) = (step(a, b), step(a, p));
    assert(e.x.units == se.0 && e.y.units == se.1 && e.z.units == se.2);
    assert(w.x.units == sw.0 && w.y.units == sw.1 && w.z.units == sw.2);
    cross_component(e.y, w.z, e.z, w.y);
    cross_component(e.z, w.x, e.x, w.z);
    cross_component(e.x, w.y, e.y, w.x);
    let c = e.cross(&w);
    let (x, y, z) = (
        se.1 * sw.2 - se.2 * sw.1,
        se.2 * sw.0 - se.0 * sw.2,
        se.0 * sw.1 - se.1 * sw.0,
    );
    weighted_component(c.x.units as int, x, n.x.units as int);
    weighted_component(c.y.units as int, y, n.y.units as int);
    weighted_component(c.z.units as int, z, n.z.units as int);
    bounded_product(c.x, n.x, 40_000_000_000_000_000, 2_000_000_000);
    bounded_product(c.y, n.y, 40_000_000_000_000_000, 2_000_000_000);
    bounded_product(c.z, n.z, 40_000_000_000_000_000, 2_000_000_000);
    let (p1, p2, p3) = (c.x.units * n.x.units, c.y.units * n.y.units, c.z.units * n.z.units);
    assert(-80_000_000_000_000_000_000_000_000 <= p1 <= 80_000_000_000_000_000_000_000_000
        && -80_000_000_000_000_000_000_000_000 <= p2 <= 80_000_000_000_000_000_000_000_000
        && -80_000_000_000_000_000_000_000_000 <= p3 <= 80_000_000_000_000_000_000_000_000)
        by (nonlinear_arith)
        requires
            p1 == c.x.units * n.x.units,
            p2 == c.y.units * n.y.units,
            p3 == c.z.units * n.z.units,
            -40_000_000_000_000_000 <= c.x.units <= 40_000_000_000_000_000,
            -40_000_000_000_000_000 <= c.y.units <= 40_000_000_000_000_000,
            -40_000_000_000_000_000 <= c.z.units <= 40_000_000_000_000_000,
            -2_000_000_000 <= n.x.units <= 2_000_000_000,
            -2_000_000_000 <= n.y.units <= 2_000_000_000,
            -2_000_000_000 <= n.z.units <= 2_000_000_000,
    ;
}

/// A product of a component of an edge, a small step and a component of a normal.
proof fn small_triple(e: int, g: int, n: int, span: int)
    requires
        -span <= e <= span,
        -68_001 <= g <= 68_001,
        -2_000_000_000 <= n <= 2_000_000_000,
    ensures
        -(span * 136_002_000_000_000) <= (e * g) * n <= span * 136_002_000_000_000,
{
    let most = span * 68_001;
    assert(-most <= e * g <= most) by (nonlinear_arith)
        requires
            most == span * 68_001,
            -span <= e <= span,
            -68_001 <= g <= 68_001,
    ;
    let p = e * g;
    assert(-(most * 2_000_000_000) <= p * n <= most * 2_000_000_000) by (nonlinear_arith)
        requires
            -most <= p <= most,
            -2_000_000_000 <= n <= 2_000_000_000,
    ;
    assert(most * 2_000_000_000 == span * 136_002_000_000_000) by (nonlinear_arith)
        requires
            most == span * 68_001,
    ;
}

/// Going a little way changes how far inside an edge a point is by a little.
proof fn depth_changes_little(
    p: Point3D<Fixed>,
    q: Point3D<Fixed>,
    a: Point3D<Fixed>,
    b: Point3D<Fixed>,
    n: Vec3<Fixed>,
    span: int,
)
    requires
        short(n),
        -span <= b.x.units - a.x.units <= span,
        -span <= b.y.units - a.y.units <= span,
        -span <= b.z.units - a.z.units <= span,
        -68_001 <= p.x.units - q.x.units <= 68_001,
        -68_001 <= p.y.units - q.y.units <= 68_001,
        -68_001 <= p.z.units - q.z.units <= 68_001,
    ensures
        depth_inside(p, a, b, n) >= depth_inside(q, a, b, n) - span * 816_012_000_000_000,
{
    let e = step(a, b);
    let w = step(a, q);
    let g = step(q, p);
    let v = step(a, p);
    let (nx, ny, nz) = (n.x.units as int, n.y.units as int, n.z.units as int);
    assert(v.0 == w.0 + g.0 && v.1 == w.1 + g.1 && v.2 == w.2 + g.2);
    shifted_minor(e.1, e.2, w.1, w.2, g.1, g.2, nx);
    shifted_minor(e.2, e.0, w.2, w.0, g.2, g.0, ny);
    shifted_minor(e.0, e.1, w.0, w.1, g.0, g.1, nz);
    small_triple(e.1, g.2, nx, span);
    small_triple(e.2, g.1, nx, span);
    small_triple(e.2, g.0, ny, span);
    small_triple(e.0, g.2, ny, span);
    small_triple(e.0, g.1, nz, span);
    small_triple(e.1, g.0, nz, span);
}

proof fn shifted_minor(a: int, b: int, x: int, y: int, dx: int, dy: int, n: int)
    ensures
        (a * (y + dy) - b * (x + dx)) * n == (a * y - b * x) * n + (a * dy) * n - (b * dx) * n,
{
    assert(a * (y + dy) - b * (x + dx) == (a * y - b * x) + a * dy - b * dx) by (nonlinear_arith);
    let (p, q, r) = (a * y - b * x, a * dy, b * dx);
    assert((p + q - r) * n == p * n + q * n - r * n) by (nonlinear_arith);
}

/// A ray through a point of a convex polygon hits the polygon, whichever of its faces it meets:
/// the point lies ahead, in the plane, and inside every edge by more than rounding.
pub proof fn ray_through_an_inner_point_hits(
    origin: Point3D<Fixed>,
    dir: Vec3<Fixed>,
    verts: Seq<Point3D<Fixed>>,
    normal: Vec3<Fixed>,
    through: Point3D<Fixed>,
    s: int,
    span: int,
)
    requires
        verts.len() >= 3,
        forall|i: int|
            0 <= i < verts.len() ==> point_within(#[trigger] verts[i], 1_000_000_000_000),
        on_site(origin, verts[0], normal, dir),
        point_within(through, 1_000_000_000_000),
        is_steep(dir, normal),
        lies_ahead(origin, dir, through, s),
        1_100_000 <= s <= 100_000_000_000,
        off_plane(through, verts[0], normal) == 0,
        0 <= span,
        forall|i: int|
            0 <= i < verts.len() ==> {
                let a = #[trigger] verts[i];
                let b = verts[if i + 1 < verts.len() {
                    i + 1
                } else {
                    0
                }];
                &&& -span <= b.x.units - a.x.units <= span
                &&& -span <= b.y.units - a.y.units <= span
                &&& -span <= b.z.units - a.z.units <= span
                &&& depth_inside(through, a, b, normal) >= span * 816_012_000_000_000
            },
    ensures
        shading::ray_hits(origin, dir, verts, normal),
{
    let v0 = verts[0];
    way_is_near(origin, v0, normal, dir, through, s);
    way_is_rounded(origin, v0, normal, dir);
    dot_commutes(normal, dir);
    dot_commutes(normal, v0.from(&origin));
    let t = way_to_plane(origin, v0, normal, dir);
    assert(lit::<Fixed>(1, 1000).units == 1_000_000);
    assert(lit::<Fixed>(1, 10_000_000_000).units == 0);
    assert(lit::<Fixed>(1, 1_000_000).units == 1000);
    let hit = origin.along(&dir, t);
    meeting_coordinate(origin.x, t, dir.x, s, through.x.units as int);
    meeting_coordinate(origin.y, t, dir.y, s, through.y.units as int);
    meeting_coordinate(origin.z, t, dir.z, s, through.z.units as int);
    assert forall|i: int| 0 <= i < verts.len() implies shading::inner_side(
        hit,
        #[trigger] verts[i],
        verts[geometry::after_on_ring(i, verts.len() as int)],
        normal,
    ) by {
        let a = verts[i];
        let b = verts[geometry::after_on_ring(i, verts.len() as int)];
        assert(point_within(a, 1_000_000_000_000));
        assert(point_within(b, 1_000_000_000_000));
        depth_changes_little(hit, through, a, b, normal, span);
        seen_depth(hit, a, b, normal);
    }
}

/// A ray that hits a polygon meets it: one multiple of the direction, a millimetre ahead or more,
/// leads to a point that lies in the plane and inside every edge, but for rounding.
pub proof fn ray_that_hits_meets_the_polygon(
    origin: Point3D<Fixed>,
    dir: Vec3<Fixed>,
    verts: Seq<Point3D<Fixed>>,
    normal: Vec3<Fixed>,
) -> (r: (int, Point3D<Fixed>))
    requires
        shading::ray_hits(origin, dir, verts, normal),
        forall|i: int|
            0 <= i < verts.len() ==> point_within(#[trigger] verts[i], 2_000_000_000_000),
        on_site(origin, verts[0], normal, dir),
        is_steep(dir, normal),
    ensures
        verts.len() >= 3,
        r.0 >= 1_000_000,
        ({
            let (t, hit) = r;
            let k = step(origin, hit);
            let most = 33_000_000_000 + 3 * t;
            &&& t * dir.x.units - 1_000_000_000 < 1_000_000_000 * k.0 <= t * dir.x.units
            &&& t * dir.y.units - 1_000_000_000 < 1_000_000_000 * k.1 <= t * dir.y.units
            &&& t * dir.z.units - 1_000_000_000 < 1_000_000_000 * k.2 <= t * dir.z.units
            &&& -most <= off_plane(hit, verts[0], normal) <= most
            &&& point_within(hit, 2_000_000_000_000) ==> forall|i: int|
                0 <= i < verts.len() ==> depth_inside(
                    hit,
                    #[trigger] verts[i],
                    verts[if i + 1 < verts.len() {
                        i + 1
                    } else {
                        0
                    }],
                    normal,
                ) >= -1_009_000_000_000_000_000_000
        }),
{
    let v0 = verts[0];
    dot_commutes(normal, dir);
    dot_commutes(normal, v0.from(&origin));
    assert(lit::<Fixed>(1, 1000).units == 1_000_000);
    assert(lit::<Fixed>(1, 1_000_000).units == 1000);
    let t = point_on_plane(origin, v0, normal, dir);
    short_dot(dir, normal);
    let hit = origin.along(&dir, way_to_plane(origin, v0, normal, dir));
    if point_within(hit, 2_000_000_000_000) {
        assert forall|i: int| 0 <= i < verts.len() implies depth_inside(
            hit,
            #[trigger] verts[i],
            verts[if i + 1 < verts.len() {
                i + 1
            } else {
                0
            }],
            normal,
        ) >= -1_009_000_000_000_000_000_000 by {
            let a = verts[i];
            let b = verts[geometry::after_on_ring(i, verts.len() as int)];
            assert(point_within(a, 2_000_000_000_000));
            assert(point_within(b, 2_000_000_000_000));
            assert(shading::inner_side(hit, a, b, normal));
            seen_depth(hit, a, b, normal);
        }
    }
    (t, hit)
}

} // verus!
