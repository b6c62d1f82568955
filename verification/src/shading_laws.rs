//! What holds of beam shading and of clipping: for every number type where nothing needs
//! arithmetic, for those that keep the order where that is enough, and else for [`Fixed`].
use crate::fixed;
use crate::fixed::Fixed;
use crate::geometry;
use crate::geometry::{Point3D, Vec3};
use crate::scalar;
use crate::scalar::{ge, num, same, Monotone, Ordered, Scalar};
use crate::shading;
use crate::shading::{Point2D, ShadingPolygon};
use vstd::arithmetic::div_mod::*;
use vstd::prelude::*;

verus! {

// ---------------------------------------------------------------------------
// Clipping

proof fn clip_by_edge_keeps_inside<T: Scalar>(
    polygon: Seq<Point2D<T>>,
    edge_start: Point2D<T>,
    edge_end: Point2D<T>,
    steps: nat,
)
    requires
        steps <= polygon.len(),
        forall|j: int|
            0 <= j < polygon.len() ==> shading::inside_edge(
                #[trigger] polygon[j],
                edge_start,
                edge_end,
            ),
    ensures
        shading::clip_by_edge(polygon, edge_start, edge_end, steps) == polygon.take(steps as int),
    decreases steps,
{
    if steps > 0 {
        clip_by_edge_keeps_inside(polygon, edge_start, edge_end, (steps - 1) as nat);
        assert(polygon.take(steps - 1).push(polygon[steps - 1]) =~= polygon.take(steps as int));
        assert(polygon.take(steps - 1) + seq![polygon[steps - 1]] =~= polygon.take(steps as int));
    } else {
        assert(polygon.take(0) =~= Seq::empty());
    }
}

proof fn clip_by_edges_keeps_inside<T: Scalar>(
    subject: Seq<Point2D<T>>,
    clip: Seq<Point2D<T>>,
    edges: nat,
)
    requires
        edges <= clip.len(),
        forall|i: int, j: int|
            #![trigger clip[i], subject[j]]
            0 <= i < clip.len() && 0 <= j < subject.len() ==> shading::inside_edge(
                subject[j],
                clip[i],
                clip[crate::geometry::after_on_ring(i, clip.len() as int)],
            ),
    ensures
        shading::clip_by_edges(subject, clip, edges) == subject,
    decreases edges,
{
    if edges > 0 {
        let i = edges - 1;
        clip_by_edges_keeps_inside(subject, clip, i as nat);
        let a = clip[i];
        let b = clip[crate::geometry::after_on_ring(i, clip.len() as int)];
        clip_by_edge_keeps_inside(subject, a, b, subject.len());
        assert(subject.take(subject.len() as int) =~= subject);
    }
}

/// A polygon that lies inside the clip polygon is not changed by clipping.
pub proof fn clip_of_contained_is_itself<T: Scalar>(
    subject: Seq<Point2D<T>>,
    clip: Seq<Point2D<T>>,
)
    requires
        clip.len() >= 3,
        forall|i: int, j: int|
            #![trigger clip[i], subject[j]]
            0 <= i < clip.len() && 0 <= j < subject.len() ==> shading::inside_edge(
                subject[j],
                clip[i],
                clip[crate::geometry::after_on_ring(i, clip.len() as int)],
            ),
    ensures
        shading::clipped(subject, clip) == subject,
{
    clip_by_edges_keeps_inside(subject, clip, clip.len());
}

proof fn clip_by_edge_drops_outside<T: Scalar>(
    polygon: Seq<Point2D<T>>,
    edge_start: Point2D<T>,
    edge_end: Point2D<T>,
    steps: nat,
)
    requires
        steps <= polygon.len(),
        forall|j: int|
            0 <= j < polygon.len() ==> !shading::inside_edge(
                #[trigger] polygon[j],
                edge_start,
                edge_end,
            ),
    ensures
        shading::clip_by_edge(polygon, edge_start, edge_end, steps).len() == 0,
    decreases steps,
{
    if steps > 0 {
        let j = steps - 1;
        clip_by_edge_drops_outside(polygon, edge_start, edge_end, j as nat);
        let previous = polygon[crate::geometry::before_on_ring(j, polygon.len() as int)];
        assert(!shading::inside_edge(previous, edge_start, edge_end));
        assert(!shading::inside_edge(polygon[j], edge_start, edge_end));
    }
}

proof fn empty_stays_empty<T: Scalar>(
    subject: Seq<Point2D<T>>,
    clip: Seq<Point2D<T>>,
    from: nat,
    edges: nat,
)
    requires
        from <= edges,
        shading::clip_by_edges(subject, clip, from).len() == 0,
    ensures
        shading::clip_by_edges(subject, clip, edges).len() == 0,
    decreases edges,
{
    if from < edges {
        empty_stays_empty(subject, clip, from, (edges - 1) as nat);
    }
}

/// Where nothing of the polygon reaches the inside of some clip edge, nothing is left
/// of it.
pub proof fn clip_of_outside_is_empty<T: Scalar>(
    subject: Seq<Point2D<T>>,
    clip: Seq<Point2D<T>>,
    edge: nat,
)
    requires
        edge < clip.len(),
        forall|j: int|
            0 <= j < shading::clip_by_edges(subject, clip, edge).len() ==> !shading::inside_edge(
                #[trigger] shading::clip_by_edges(subject, clip, edge)[j],
                clip[edge as int],
                clip[crate::geometry::after_on_ring(edge as int, clip.len() as int)],
            ),
    ensures
        shading::clipped(subject, clip).len() == 0,
{
    let before = shading::clip_by_edges(subject, clip, edge);
    clip_by_edge_drops_outside(
        before,
        clip[edge as int],
        clip[crate::geometry::after_on_ring(edge as int, clip.len() as int)],
        before.len(),
    );
    empty_stays_empty(subject, clip, edge + 1, clip.len());
}

/// `v` is where a side of the polygon that has one end inside an edge, and one outside, meets
/// the line of the edge.
pub open spec fn crosses_edge<T: Scalar>(
    v: Point2D<T>,
    polygon: Seq<Point2D<T>>,
    edge_start: Point2D<T>,
    edge_end: Point2D<T>,
) -> bool {
    exists|i: int|
        0 <= i < polygon.len() && {
            let previous = polygon[geometry::before_on_ring(i, polygon.len() as int)];
            let current = #[trigger] polygon[i];
            &&& shading::inside_edge(previous, edge_start, edge_end) != shading::inside_edge(
                current,
                edge_start,
                edge_end,
            )
            &&& shading::meeting_point(previous, current, edge_start, edge_end) == Some(v)
        }
}

/// Each vertex that a clip edge leaves is a corner that lies inside it, or the crossing of a
/// side with it.
pub proof fn clip_by_edge_keeps_or_crosses<T: Scalar>(
    polygon: Seq<Point2D<T>>,
    edge_start: Point2D<T>,
    edge_end: Point2D<T>,
    steps: nat,
    k: int,
)
    requires
        steps <= polygon.len(),
        0 <= k < shading::clip_by_edge(polygon, edge_start, edge_end, steps).len(),
    ensures
        ({
            let v = shading::clip_by_edge(polygon, edge_start, edge_end, steps)[k];
            ||| polygon.contains(v) && shading::inside_edge(v, edge_start, edge_end)
            ||| crosses_edge(v, polygon, edge_start, edge_end)
        }),
    decreases steps,
{
    if steps > 0 {
        let j = steps - 1;
        let rest = shading::clip_by_edge(polygon, edge_start, edge_end, j as nat);
        let previous = polygon[geometry::before_on_ring(j, polygon.len() as int)];
        let current = polygon[j];
        let step = shading::clip_step(previous, current, edge_start, edge_end);
        let v = (rest + step)[k];
        if k < rest.len() {
            clip_by_edge_keeps_or_crosses(polygon, edge_start, edge_end, j as nat, k);
            assert(v == rest[k]);
        } else {
            assert(v == step[k - rest.len()]);
            assert(polygon.contains(current));
            if shading::inside_edge(previous, edge_start, edge_end) != shading::inside_edge(
                current,
                edge_start,
                edge_end,
            ) && shading::meeting_point(previous, current, edge_start, edge_end) == Some(v) {
                assert(crosses_edge(v, polygon, edge_start, edge_end));
            }
        }
    }
}

/// Where a vertex of the clip comes from: it is a corner of the subject, or the crossing of a
/// clip edge with a side of what was left before it, and it lies inside every clip edge that
/// came after.
pub open spec fn clip_vertex<T: Scalar>(
    v: Point2D<T>,
    subject: Seq<Point2D<T>>,
    clip: Seq<Point2D<T>>,
    edges: nat,
) -> bool
    decreases edges,
{
    if edges == 0 {
        subject.contains(v)
    } else {
        let i = edges - 1;
        let (start, end) = (clip[i], clip[geometry::after_on_ring(i, clip.len() as int)]);
        ||| clip_vertex(v, subject, clip, i as nat) && shading::inside_edge(v, start, end)
        ||| crosses_edge(v, shading::clip_by_edges(subject, clip, i as nat), start, end)
    }
}

proof fn clip_by_edges_makes_clip_vertices<T: Scalar>(
    subject: Seq<Point2D<T>>,
    clip: Seq<Point2D<T>>,
    edges: nat,
    k: int,
)
    requires
        edges <= clip.len(),
        0 <= k < shading::clip_by_edges(subject, clip, edges).len(),
    ensures
        clip_vertex(shading::clip_by_edges(subject, clip, edges)[k], subject, clip, edges),
    decreases edges,
{
    if edges > 0 {
        let i = edges - 1;
        let before = shading::clip_by_edges(subject, clip, i as nat);
        let (start, end) = (clip[i], clip[geometry::after_on_ring(i, clip.len() as int)]);
        let v = shading::clip_by_edges(subject, clip, edges)[k];
        clip_by_edge_keeps_or_crosses(before, start, end, before.len(), k);
        if before.contains(v) {
            let m = choose|m: int| 0 <= m < before.len() && before[m] == v;
            clip_by_edges_makes_clip_vertices(subject, clip, i as nat, m);
        }
    }
}

/// Clipping makes no vertices but corners of the subject that lie inside every clip edge, and
/// crossings with a clip edge that lie inside every later one.
pub proof fn clip_keeps_corners_and_crossings<T: Scalar>(
    subject: Seq<Point2D<T>>,
    clip: Seq<Point2D<T>>,
    k: int,
)
    requires
        0 <= k < shading::clipped(subject, clip).len(),
    ensures
        clip.len() >= 3,
        clip_vertex(shading::clipped(subject, clip)[k], subject, clip, clip.len()),
{
    clip_by_edges_makes_clip_vertices(subject, clip, clip.len(), k);
}

// ---------------------------------------------------------------------------
// Which casters count

/// With nothing to cast a shadow, a surface that faces the sun is fully sunlit.
pub proof fn unshaded_is_fully_sunlit<T: Scalar>(
    recv: Seq<Point3D<T>>,
    recv_normal: Vec3<T>,
    sun_dir: Vec3<T>,
)
    requires
        !ge(sun_dir.dot(&recv_normal), num(0)),
    ensures
        shading::sunlit_fraction(recv, recv_normal, Seq::empty(), sun_dir) == num::<T>(1),
{
}

proof fn shadows_of_prefix<T: Scalar>(
    casters: Seq<&ShadingPolygon<T>>,
    more: Seq<&ShadingPolygon<T>>,
    recv: Seq<Point3D<T>>,
    recv_normal: Vec3<T>,
    sun_dir: Vec3<T>,
    n: nat,
)
    requires
        n <= casters.len(),
        n <= more.len(),
        forall|i: int| 0 <= i < n ==> casters[i] == more[i],
    ensures
        shading::shadows_on(casters, recv, recv_normal, sun_dir, n) == shading::shadows_on(
            more,
            recv,
            recv_normal,
            sun_dir,
            n,
        ),
    decreases n,
{
    if n > 0 {
        shadows_of_prefix(casters, more, recv, recv_normal, sun_dir, (n - 1) as nat);
    }
}

/// A caster in the plane of the receiver makes no difference to it, so that a wall
/// never shades its own windows.
pub proof fn coplanar_caster_casts_no_shadow<T: Scalar>(
    recv: Seq<Point3D<T>>,
    recv_normal: Vec3<T>,
    casters: Seq<&ShadingPolygon<T>>,
    wall: &ShadingPolygon<T>,
    sun_dir: Vec3<T>,
)
    requires
        !shading::stands_off(*wall, recv[0], recv_normal),
    ensures
        shading::sunlit_fraction(recv, recv_normal, casters.push(wall), sun_dir)
            == shading::sunlit_fraction(recv, recv_normal, casters, sun_dir),
{
    shadows_of_prefix(casters, casters.push(wall), recv, recv_normal, sun_dir, casters.len());
}

// ---------------------------------------------------------------------------
// Ranges

/// The share of diffuse radiation that reaches a surface is never negative and never
/// more than one.
pub proof fn diffuse_ratio_between_zero_and_one<T: Ordered>(
    recv: Seq<Point3D<T>>,
    recv_normal: Vec3<T>,
    casters: Seq<&ShadingPolygon<T>>,
    cells: usize,
    bands: usize,
    d_phi: T,
)
    ensures
        !shading::diffuse_ratio(recv, recv_normal, casters, cells, bands, d_phi).below(num(0)),
        !num::<T>(1).below(
            shading::diffuse_ratio(recv, recv_normal, casters, cells, bands, d_phi),
        ),
{
    T::fractions_ordered(0, 1, 1, 1);
    num::<T>(1).below_irreflexive();
    let axes = shading::local_axes(recv, recv_normal);
    let points = shading::surface_samples(
        shading::flattened(recv, axes),
        axes,
        cells,
        (cells * cells) as nat,
    );
    let (with, without) = shading::sky_sums(
        points,
        recv_normal,
        casters,
        d_phi,
        (bands * shading::AZIMUTH_STEPS) as nat,
    );
    scalar::clamp_stays_within(with.quotient(without), num(0), num(1));
}

/// A share: a number from zero to one.
pub open spec fn is_share(x: Fixed) -> bool {
    0 <= x.units <= fixed::SCALE
}

proof fn product_of_shares(a: Fixed, b: Fixed)
    requires
        is_share(a),
        is_share(b),
    ensures
        is_share(a.product(b)),
{
    let p = a.units * b.units;
    assert(0 <= p <= 1_000_000_000 * 1_000_000_000) by (nonlinear_arith)
        requires
            p == a.units * b.units,
            0 <= a.units <= 1_000_000_000,
            0 <= b.units <= 1_000_000_000,
    ;
}

proof fn survival_is_share(
    point: Point2D<Fixed>,
    shadows: Seq<(Seq<Point2D<Fixed>>, Fixed)>,
    n: nat,
)
    requires
        n <= shadows.len(),
        forall|i: int| 0 <= i < shadows.len() ==> is_share((#[trigger] shadows[i]).1),
    ensures
        is_share(shading::survival_at(point, shadows, n)),
    decreases n,
{
    if n > 0 {
        survival_is_share(point, shadows, (n - 1) as nat);
        product_of_shares(
            shading::survival_at(point, shadows, (n - 1) as nat),
            shadows[n - 1].1,
        );
    }
}

proof fn sunlit_sum_bounded(
    recv_2d: Seq<Point2D<Fixed>>,
    shadows: Seq<(Seq<Point2D<Fixed>>, Fixed)>,
    samples: nat,
)
    requires
        samples <= 64,
        forall|i: int| 0 <= i < shadows.len() ==> is_share((#[trigger] shadows[i]).1),
    ensures
        0 <= shading::sunlit_sum(recv_2d, shadows, samples).units <= shading::samples_inside(
            recv_2d,
            samples,
        ) * fixed::SCALE,
        shading::samples_inside(recv_2d, samples) <= samples,
    decreases samples,
{
    if samples > 0 {
        sunlit_sum_bounded(recv_2d, shadows, (samples - 1) as nat);
        let point = shading::grid_point(
            shading::extent_of(recv_2d, recv_2d.len()),
            shading::SUNLIT_GRID,
            (samples - 1) as nat,
        );
        survival_is_share(point, shadows, shadows.len());
    }
}

proof fn quotient_by_count(s: Fixed, n: nat)
    requires
        0 < n <= 64,
        0 <= s.units <= n * fixed::SCALE,
    ensures
        is_share(s.quotient(Fixed::whole(n))),
        s.quotient(Fixed::whole(n)).units == s.units as int / n as int,
{
    let d = n * fixed::SCALE;
    lemma_div_denominator(s.units * fixed::SCALE, fixed::SCALE as int, n as int);
    lemma_div_multiples_vanish(s.units as int, fixed::SCALE as int);
    assert(s.units * fixed::SCALE == fixed::SCALE * s.units);
    lemma_div_is_ordered(s.units as int, n * fixed::SCALE, n as int);
    lemma_div_multiples_vanish(fixed::SCALE as int, n as int);
    lemma_div_pos_is_pos(s.units as int, n as int);
}

proof fn shadows_are_shares(
    casters: Seq<&ShadingPolygon<Fixed>>,
    recv: Seq<Point3D<Fixed>>,
    recv_normal: Vec3<Fixed>,
    sun_dir: Vec3<Fixed>,
    n: nat,
)
    requires
        n <= casters.len(),
        forall|i: int|
            0 <= i < casters.len() ==> is_share((#[trigger] casters[i]).solar_transmittance),
    ensures
        forall|i: int|
            0 <= i < shading::shadows_on(casters, recv, recv_normal, sun_dir, n).len() ==> is_share(
                (#[trigger] shading::shadows_on(casters, recv, recv_normal, sun_dir, n)[i]).1,
            ),
    decreases n,
{
    if n > 0 {
        shadows_are_shares(casters, recv, recv_normal, sun_dir, (n - 1) as nat);
        let rest = shading::shadows_on(casters, recv, recv_normal, sun_dir, (n - 1) as nat);
        let all = shading::shadows_on(casters, recv, recv_normal, sun_dir, n);
        assert(is_share(casters[n - 1].solar_transmittance));
        assert forall|i: int| 0 <= i < all.len() implies is_share((#[trigger] all[i]).1) by {
            if i < rest.len() {
                assert(all[i] == rest[i]);
            }
        }
    }
}

/// The sunlit fraction lies between zero and one wherever every transmittance does.
pub proof fn sunlit_fraction_between_zero_and_one(
    recv: Seq<Point3D<Fixed>>,
    recv_normal: Vec3<Fixed>,
    casters: Seq<&ShadingPolygon<Fixed>>,
    sun_dir: Vec3<Fixed>,
)
    requires
        forall|i: int|
            0 <= i < casters.len() ==> is_share((#[trigger] casters[i]).solar_transmittance),
    ensures
        is_share(shading::sunlit_fraction(recv, recv_normal, casters, sun_dir)),
{
    let shadows = shading::shadows_on(casters, recv, recv_normal, sun_dir, casters.len());
    shadows_are_shares(casters, recv, recv_normal, sun_dir, casters.len());
    let recv_2d = shading::flattened(recv, shading::local_axes(recv, recv_normal));
    sunlit_sum_bounded(recv_2d, shadows, 64);
    let n = shading::samples_inside(recv_2d, 64);
    if n > 0 {
        quotient_by_count(shading::sunlit_sum(recv_2d, shadows, 64), n);
    }
}

// ---------------------------------------------------------------------------
// Denser casters let less through

/// Two sets of shadows with the same outlines, of which the first lets no more light
/// through than the second.
pub open spec fn denser<T: Scalar>(
    dense: Seq<(Seq<Point2D<T>>, T)>,
    sparse: Seq<(Seq<Point2D<T>>, T)>,
) -> bool {
    &&& dense.len() == sparse.len()
    &&& forall|i: int|
        0 <= i < dense.len() ==> {
            &&& (#[trigger] dense[i]).0 == sparse[i].0
            &&& !dense[i].1.below(num(0))
            &&& !sparse[i].1.below(dense[i].1)
        }
}

proof fn survival_monotone<T: Monotone>(
    point: Point2D<T>,
    dense: Seq<(Seq<Point2D<T>>, T)>,
    sparse: Seq<(Seq<Point2D<T>>, T)>,
    n: nat,
)
    requires
        denser(dense, sparse),
        n <= dense.len(),
    ensures
        !shading::survival_at(point, dense, n).below(num(0)),
        !shading::survival_at(point, sparse, n).below(shading::survival_at(point, dense, n)),
    decreases n,
{
    if n == 0 {
        T::fractions_ordered(0, 1, 1, 1);
        num::<T>(1).below_irreflexive();
    } else {
        let m = (n - 1) as nat;
        survival_monotone(point, dense, sparse, m);
        assert(dense[n - 1].0 == sparse[n - 1].0);
        T::product_monotone(
            shading::survival_at(point, dense, m),
            dense[n - 1].1,
            shading::survival_at(point, sparse, m),
            sparse[n - 1].1,
        );
    }
}

proof fn sunlit_sum_monotone<T: Monotone>(
    recv_2d: Seq<Point2D<T>>,
    dense: Seq<(Seq<Point2D<T>>, T)>,
    sparse: Seq<(Seq<Point2D<T>>, T)>,
    samples: nat,
)
    requires
        denser(dense, sparse),
    ensures
        !shading::sunlit_sum(recv_2d, sparse, samples).below(
            shading::sunlit_sum(recv_2d, dense, samples),
        ),
    decreases samples,
{
    if samples == 0 {
        num::<T>(0).below_irreflexive();
    } else {
        let m = (samples - 1) as nat;
        sunlit_sum_monotone(recv_2d, dense, sparse, m);
        let point = shading::grid_point(
            shading::extent_of(recv_2d, recv_2d.len()),
            shading::SUNLIT_GRID,
            m,
        );
        survival_monotone(point, dense, sparse, dense.len());
        T::sum_monotone(
            shading::sunlit_sum(recv_2d, dense, m),
            shading::survival_at(point, dense, dense.len()),
            shading::sunlit_sum(recv_2d, sparse, m),
            shading::survival_at(point, sparse, sparse.len()),
        );
    }
}

/// Two casters that differ in name and transmittance only.
pub open spec fn same_shape<T>(a: ShadingPolygon<T>, b: ShadingPolygon<T>) -> bool {
    a.vertices@ == b.vertices@ && a.normal == b.normal
}

/// Two lists of casters of the same shapes, of which the first lets no more of the beam
/// through than the second.
pub open spec fn denser_casters<T: Scalar>(
    dense: Seq<&ShadingPolygon<T>>,
    sparse: Seq<&ShadingPolygon<T>>,
) -> bool {
    &&& dense.len() == sparse.len()
    &&& forall|i: int|
        0 <= i < dense.len() ==> {
            &&& same_shape(*#[trigger] dense[i], *sparse[i])
            &&& !dense[i].solar_transmittance.below(num(0))
            &&& !sparse[i].solar_transmittance.below(dense[i].solar_transmittance)
        }
}

proof fn shadows_denser<T: Scalar>(
    recv: Seq<Point3D<T>>,
    recv_normal: Vec3<T>,
    dense: Seq<&ShadingPolygon<T>>,
    sparse: Seq<&ShadingPolygon<T>>,
    sun_dir: Vec3<T>,
    n: nat,
)
    requires
        n <= dense.len(),
        denser_casters(dense, sparse),
    ensures
        denser(
            shading::shadows_on(dense, recv, recv_normal, sun_dir, n),
            shading::shadows_on(sparse, recv, recv_normal, sun_dir, n),
        ),
    decreases n,
{
    if n > 0 {
        shadows_denser(recv, recv_normal, dense, sparse, sun_dir, (n - 1) as nat);
        assert(same_shape(*dense[n - 1], *sparse[n - 1]));
    }
}

/// One shadow alone falls on the receiver, and it is opaque: it is measured by its area and
/// not by sampling.
pub open spec fn measured_by_area<T: Scalar>(shadows: Seq<(Seq<Point2D<T>>, T)>) -> bool {
    shadows.len() == 1 && same(shadows[0].1, num(0))
}

/// Over the same geometry, denser casters never let more of the beam through, as long as
/// both are measured in the same way. It holds for every number type that keeps the order of
/// sums, products and quotients.
pub proof fn denser_casters_let_less_through<T: Monotone>(
    recv: Seq<Point3D<T>>,
    recv_normal: Vec3<T>,
    dense: Seq<&ShadingPolygon<T>>,
    sparse: Seq<&ShadingPolygon<T>>,
    sun_dir: Vec3<T>,
)
    requires
        denser_casters(dense, sparse),
        measured_by_area(shading::shadows_on(dense, recv, recv_normal, sun_dir, dense.len()))
            == measured_by_area(
            shading::shadows_on(sparse, recv, recv_normal, sun_dir, sparse.len()),
        ),
    ensures
        !shading::sunlit_fraction(recv, recv_normal, sparse, sun_dir).below(
            shading::sunlit_fraction(recv, recv_normal, dense, sun_dir),
        ),
{
    let n = dense.len();
    shadows_denser(recv, recv_normal, dense, sparse, sun_dir, n);
    let a = shading::shadows_on(dense, recv, recv_normal, sun_dir, n);
    let b = shading::shadows_on(sparse, recv, recv_normal, sun_dir, n);
    shading::sunlit_fraction(recv, recv_normal, dense, sun_dir).below_irreflexive();
    if a.len() > 0 {
        assert(a[0].0 == b[0].0);
        let recv_2d = shading::flattened(recv, shading::local_axes(recv, recv_normal));
        sunlit_sum_monotone(recv_2d, a, b, 64);
        let k = shading::samples_inside(recv_2d, 64);
        if k > 0 {
            T::wholes_ordered(k, k);
            T::quotient_monotone(
                shading::sunlit_sum(recv_2d, a, 64),
                shading::sunlit_sum(recv_2d, b, 64),
                T::whole(k),
            );
        }
    }
}

// ---------------------------------------------------------------------------
// Overlapping shadows

/// Some of the first `n` shadows covers the point.
pub open spec fn covered<T: Scalar>(
    point: Point2D<T>,
    shadows: Seq<(Seq<Point2D<T>>, T)>,
    n: nat,
) -> bool {
    exists|i: int| 0 <= i < n && shading::in_polygon(point, (#[trigger] shadows[i]).0)
}

/// A point that no shadow covers keeps the whole beam.
pub proof fn uncovered_point_keeps_the_beam<T: Scalar>(
    point: Point2D<T>,
    shadows: Seq<(Seq<Point2D<T>>, T)>,
    n: nat,
)
    requires
        n <= shadows.len(),
        !covered(point, shadows, n),
    ensures
        shading::survival_at(point, shadows, n) == num::<T>(1),
    decreases n,
{
    if n > 0 {
        assert(!covered(point, shadows, (n - 1) as nat));
        let last = shadows[n - 1];
        uncovered_point_keeps_the_beam(point, shadows, (n - 1) as nat);
    }
}

/// A point under an opaque shadow keeps nothing of the beam, however many others cover it: it
/// is in the shadow once.
pub proof fn opaque_shadow_takes_the_beam(
    point: Point2D<Fixed>,
    shadows: Seq<(Seq<Point2D<Fixed>>, Fixed)>,
    n: nat,
    i: int,
)
    requires
        n <= shadows.len(),
        0 <= i < n,
        shading::in_polygon(point, shadows[i].0),
        shadows[i].1.units == 0,
    ensures
        shading::survival_at(point, shadows, n).units == 0,
    decreases n,
{
    let rest = shading::survival_at(point, shadows, (n - 1) as nat);
    if i == n - 1 {
        assert(rest.units * 0 == 0);
    } else {
        opaque_shadow_takes_the_beam(point, shadows, (n - 1) as nat, i);
        assert(0 * shadows[n - 1].1.units == 0);
    }
}

} // verus!
