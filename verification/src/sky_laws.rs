//! What holds of diffuse shading, whichever casters stand before the sky and in whatever order.
use crate::fixed;
use crate::fixed::Fixed;
use crate::geometry::{Point3D, Vec3};
use crate::scalar;
use crate::scalar::{lit, num, over, pi, times, Monotone, Scalar};
use crate::shading;
use crate::shading::ShadingPolygon;
use crate::shading_laws;
use crate::shading_laws::same_shape;
use vstd::arithmetic::div_mod::*;
use vstd::prelude::*;

verus! {

// ---------------------------------------------------------------------------
// Order and repetition

/// Each caster of the one list has the shape of some caster of the other.
pub open spec fn found_among<T>(
    few: Seq<&ShadingPolygon<T>>,
    many: Seq<&ShadingPolygon<T>>,
) -> bool {
    forall|i: int|
        0 <= i < few.len() ==> exists|j: int|
            0 <= j < many.len() && same_shape(*#[trigger] few[i], *#[trigger] many[j])
}

/// What a caster hides from a point stays hidden where other casters join it.
pub proof fn more_casters_hide_more<T: Scalar>(
    point: Point3D<T>,
    dir: Vec3<T>,
    few: Seq<&ShadingPolygon<T>>,
    many: Seq<&ShadingPolygon<T>>,
)
    requires
        found_among(few, many),
    ensures
        shading::sky_blocked(point, dir, few) ==> shading::sky_blocked(point, dir, many),
{
    if shading::sky_blocked(point, dir, few) {
        let i = choose|i: int|
            0 <= i < few.len() && shading::ray_hits(
                point,
                dir,
                (#[trigger] few[i]).vertices@,
                few[i].normal,
            );
        let j = choose|j: int|
            0 <= j < many.len() && same_shape(*few[i], *#[trigger] many[j]);
        assert(shading::ray_hits(point, dir, many[j].vertices@, many[j].normal));
    }
}

proof fn fewer_points_see_the_sky<T: Scalar>(
    points: Seq<Point3D<T>>,
    dir: Vec3<T>,
    few: Seq<&ShadingPolygon<T>>,
    many: Seq<&ShadingPolygon<T>>,
    n: nat,
)
    requires
        found_among(few, many),
    ensures
        shading::unblocked(points, dir, many, n) <= shading::unblocked(points, dir, few, n),
    decreases n,
{
    if n > 0 {
        fewer_points_see_the_sky(points, dir, few, many, (n - 1) as nat);
        more_casters_hide_more(points[n - 1], dir, few, many);
    }
}

proof fn same_sums<T: Scalar>(
    points: Seq<Point3D<T>>,
    recv_normal: Vec3<T>,
    a: Seq<&ShadingPolygon<T>>,
    b: Seq<&ShadingPolygon<T>>,
    d_phi: T,
    patches: nat,
)
    requires
        found_among(a, b),
        found_among(b, a),
    ensures
        shading::sky_sums(points, recv_normal, a, d_phi, patches) == shading::sky_sums(
            points,
            recv_normal,
            b,
            d_phi,
            patches,
        ),
    decreases patches,
{
    if patches > 0 {
        let k = (patches - 1) as nat;
        same_sums(points, recv_normal, a, b, d_phi, k);
        let dir = shading::patch_direction(d_phi, k);
        fewer_points_see_the_sky(points, dir, a, b, points.len());
        fewer_points_see_the_sky(points, dir, b, a, points.len());
    }
}

/// The order of the casters does not matter to the share of diffuse radiation that reaches a
/// surface, nor does it matter how often one is listed.
pub proof fn order_and_repeats_do_not_matter<T: Scalar>(
    recv: Seq<Point3D<T>>,
    recv_normal: Vec3<T>,
    a: Seq<&ShadingPolygon<T>>,
    b: Seq<&ShadingPolygon<T>>,
    cells: usize,
    bands: usize,
    d_phi: T,
)
    requires
        found_among(a, b),
        found_among(b, a),
    ensures
        shading::diffuse_ratio(recv, recv_normal, a, cells, bands, d_phi)
            == shading::diffuse_ratio(recv, recv_normal, b, cells, bands, d_phi),
{
    let axes = shading::local_axes(recv, recv_normal);
    let points = shading::surface_samples(
        shading::flattened(recv, axes),
        axes,
        cells,
        (cells * cells) as nat,
    );
    same_sums(points, recv_normal, a, b, d_phi, (bands * shading::AZIMUTH_STEPS) as nat);
    if a.len() > 0 {
        let j = choose|j: int| 0 <= j < b.len() && same_shape(*a[0], *#[trigger] b[j]);
        assert(b.len() > 0);
    }
    if b.len() > 0 {
        let j = choose|j: int| 0 <= j < a.len() && same_shape(*b[0], *#[trigger] a[j]);
        assert(a.len() > 0);
    }
}

/// Nothing is taken from the sky of a surface without casters, and what is no surface sees
/// all of it.
pub proof fn open_sky_reaches_the_surface<T: Scalar>(
    recv: Seq<Point3D<T>>,
    recv_normal: Vec3<T>,
    casters: Seq<&ShadingPolygon<T>>,
    cells: usize,
    bands: usize,
    d_phi: T,
)
    requires
        recv.len() < 3 || casters.len() == 0,
    ensures
        shading::diffuse_ratio(recv, recv_normal, casters, cells, bands, d_phi) == num::<T>(1),
{
}

// ---------------------------------------------------------------------------
// More casters

/// No patch of the first `patches` in front of the receiver weighs less than nothing.
pub open spec fn weights_not_negative<T: Scalar>(
    d_phi: T,
    recv_normal: Vec3<T>,
    patches: nat,
) -> bool {
    forall|k: nat|
        k < patches && shading::patch_in_front(d_phi, recv_normal, k)
            ==> !(#[trigger] shading::patch_weight(d_phi, recv_normal, k)).below(num(0))
}

proof fn sums_shrink<T: Monotone>(
    points: Seq<Point3D<T>>,
    recv_normal: Vec3<T>,
    few: Seq<&ShadingPolygon<T>>,
    many: Seq<&ShadingPolygon<T>>,
    d_phi: T,
    patches: nat,
)
    requires
        found_among(few, many),
        points.len() > 0,
        weights_not_negative(d_phi, recv_normal, patches),
    ensures
        !shading::sky_sums(points, recv_normal, few, d_phi, patches).0.below(
            shading::sky_sums(points, recv_normal, many, d_phi, patches).0,
        ),
        shading::sky_sums(points, recv_normal, few, d_phi, patches).1 == shading::sky_sums(
            points,
            recv_normal,
            many,
            d_phi,
            patches,
        ).1,
    decreases patches,
{
    if patches == 0 {
        num::<T>(0).below_irreflexive();
    } else {
        let k = (patches - 1) as nat;
        sums_shrink(points, recv_normal, few, many, d_phi, k);
        if shading::patch_in_front(d_phi, recv_normal, k) {
            let weight = shading::patch_weight(d_phi, recv_normal, k);
            let dir = shading::patch_direction(d_phi, k);
            let n = points.len();
            let seen_past_many = shading::unblocked(points, dir, many, n);
            let seen_past_few = shading::unblocked(points, dir, few, n);
            fewer_points_see_the_sky(points, dir, few, many, n);
            T::wholes_ordered(seen_past_many, seen_past_few);
            T::wholes_ordered(0, seen_past_many);
            T::wholes_ordered(n, n);
            T::quotient_monotone(T::whole(seen_past_many), T::whole(seen_past_few), T::whole(n));
            T::quotient_not_negative(T::whole(seen_past_many), T::whole(n));
            weight.below_irreflexive();
            let low = T::whole(seen_past_many).quotient(T::whole(n));
            let high = T::whole(seen_past_few).quotient(T::whole(n));
            T::product_monotone(weight, low, weight, high);
            T::sum_monotone(
                shading::sky_sums(points, recv_normal, many, d_phi, k).0,
                weight.product(low),
                shading::sky_sums(points, recv_normal, few, d_phi, k).0,
                weight.product(high),
            );
        }
    }
}

/// Casters that join others never raise the share of diffuse radiation that reaches a surface,
/// for every number type that keeps the order of sums, products and quotients, and in which no
/// patch of sky before the surface weighs less than nothing.
pub proof fn more_casters_never_raise_the_ratio<T: Monotone>(
    recv: Seq<Point3D<T>>,
    recv_normal: Vec3<T>,
    few: Seq<&ShadingPolygon<T>>,
    many: Seq<&ShadingPolygon<T>>,
    cells: usize,
    bands: usize,
    d_phi: T,
)
    requires
        found_among(few, many),
        weights_not_negative(d_phi, recv_normal, (bands * shading::AZIMUTH_STEPS) as nat),
    ensures
        !shading::diffuse_ratio(recv, recv_normal, few, cells, bands, d_phi).below(
            shading::diffuse_ratio(recv, recv_normal, many, cells, bands, d_phi),
        ),
{
    let axes = shading::local_axes(recv, recv_normal);
    let points = shading::surface_samples(
        shading::flattened(recv, axes),
        axes,
        cells,
        (cells * cells) as nat,
    );
    let patches = (bands * shading::AZIMUTH_STEPS) as nat;
    shading_laws::diffuse_ratio_between_zero_and_one(
        recv,
        recv_normal,
        many,
        cells,
        bands,
        d_phi,
    );
    num::<T>(1).below_irreflexive();
    if few.len() > 0 {
        let j = choose|j: int| 0 <= j < many.len() && same_shape(*few[0], *#[trigger] many[j]);
        assert(many.len() > 0);
        if points.len() > 0 {
            sums_shrink(points, recv_normal, few, many, d_phi, patches);
            let (past_few, without) = shading::sky_sums(points, recv_normal, few, d_phi, patches);
            let past_many = shading::sky_sums(points, recv_normal, many, d_phi, patches).0;
            if lit::<T>(1, 10_000_000_000).below(without) {
                without.above_fraction_is_positive(1, 10_000_000_000);
                T::quotient_monotone(past_many, past_few, without);
                T::fractions_ordered(0, 1, 1, 1);
                scalar::clamp_monotone(
                    past_many.quotient(without),
                    past_few.quotient(without),
                    num(0),
                    num(1),
                );
            }
        }
    }
}

/// The cosine of the altitude of no band is negative.
pub open spec fn bands_face_up<T: Scalar>(d_phi: T, bands: nat) -> bool {
    forall|i: usize|
        i < bands ==> !(#[trigger] shading::band_altitude(i, d_phi)).cosine().below(num(0))
}

proof fn weight_of_patch<T: Monotone>(d_phi: T, recv_normal: Vec3<T>, k: nat)
    requires
        !d_phi.below(num(0)),
        !shading::band_altitude(
            (k / shading::AZIMUTH_STEPS as nat) as usize,
            d_phi,
        ).cosine().below(num(0)),
        shading::patch_in_front(d_phi, recv_normal, k),
    ensures
        !shading::patch_weight(d_phi, recv_normal, k).below(num(0)),
{
    let phi = shading::band_altitude((k / shading::AZIMUTH_STEPS as nat) as usize, d_phi);
    let step = shading::azimuth_step::<T>();
    let (two, circle): (T, T) = (num(2), pi());
    T::fractions_ordered(0, 1, 2, 1);
    T::fractions_ordered(0, 1, 3141592653589793, 1000000000000000);
    two.below_irreflexive();
    circle.below_irreflexive();
    T::product_monotone(two, circle, two, circle);
    T::wholes_ordered(24, 24);
    T::quotient_not_negative(two.product(circle), T::whole(24));
    let facing = shading::patch_direction(d_phi, k).dot(&recv_normal);
    facing.at_most_vs_below(num(0));
    let a = phi.cosine().product(d_phi);
    let b = a.product(step);
    phi.cosine().below_irreflexive();
    d_phi.below_irreflexive();
    a.below_irreflexive();
    step.below_irreflexive();
    b.below_irreflexive();
    facing.below_irreflexive();
    T::product_monotone(phi.cosine(), d_phi, phi.cosine(), d_phi);
    T::product_monotone(a, step, a, step);
    T::product_monotone(b, facing, b, facing);
}

proof fn weights_of_bands<T: Monotone>(d_phi: T, recv_normal: Vec3<T>, bands: usize)
    requires
        bands <= 100,
        !d_phi.below(num(0)),
        bands_face_up(d_phi, bands as nat),
    ensures
        weights_not_negative(d_phi, recv_normal, (bands * shading::AZIMUTH_STEPS) as nat),
{
    assert forall|k: nat|
        k < (bands * shading::AZIMUTH_STEPS) as nat && shading::patch_in_front(
            d_phi,
            recv_normal,
            k,
        ) implies !(#[trigger] shading::patch_weight(d_phi, recv_normal, k)).below(num(0)) by {
        let i = (k / shading::AZIMUTH_STEPS as nat) as usize;
        assert(i < bands);
        assert(!shading::band_altitude(i, d_phi).cosine().below(num(0)));
        weight_of_patch(d_phi, recv_normal, k);
    }
}

/// How high the bands of the sky are.
pub open spec fn sky_band<T: Scalar>() -> T {
    over(over(pi(), num(2)), num(6))
}

/// How high the bands at the horizon are.
pub open spec fn horizon_band<T: Scalar>() -> T {
    over(times(num(10), over(pi(), num(180))), num(2))
}

proof fn bands_not_negative<T: Monotone>()
    ensures
        !sky_band::<T>().below(num(0)),
        !horizon_band::<T>().below(num(0)),
{
    let (ten, circle): (T, T) = (num(10), pi());
    T::fractions_ordered(0, 1, 3141592653589793, 1000000000000000);
    T::fractions_ordered(0, 1, 10, 1);
    T::fraction_is_positive(2);
    T::fraction_is_positive(6);
    T::fraction_is_positive(180);
    T::quotient_not_negative(circle, num(2));
    T::quotient_not_negative(circle.quotient(num(2)), num(6));
    let degree = circle.quotient(num(180));
    T::quotient_not_negative(circle, num(180));
    ten.below_irreflexive();
    degree.below_irreflexive();
    T::product_monotone(ten, degree, ten, degree);
    T::quotient_not_negative(ten.product(degree), num(2));
}

/// Casters that join others never raise the share of sky diffuse radiation that reaches a
/// surface, nor the share of what comes from the horizon: for every number type that keeps the
/// order of sums, products and quotients, and whose cosine is not negative at the altitudes of
/// the bands, which lie between the horizon and the zenith.
pub proof fn joining_casters_never_raise_the_ratios<T: Monotone>(
    recv: Seq<Point3D<T>>,
    recv_normal: Vec3<T>,
    few: Seq<&ShadingPolygon<T>>,
    many: Seq<&ShadingPolygon<T>>,
)
    requires
        found_among(few, many),
        bands_face_up(sky_band::<T>(), 6),
        bands_face_up(horizon_band::<T>(), 2),
    ensures
        !shading::diffuse_ratio(recv, recv_normal, few, 5, 6, sky_band()).below(
            shading::diffuse_ratio(recv, recv_normal, many, 5, 6, sky_band()),
        ),
        !shading::diffuse_ratio(recv, recv_normal, few, 3, 2, horizon_band()).below(
            shading::diffuse_ratio(recv, recv_normal, many, 3, 2, horizon_band()),
        ),
{
    bands_not_negative::<T>();
    weights_of_bands(sky_band::<T>(), recv_normal, 6);
    weights_of_bands(horizon_band::<T>(), recv_normal, 2);
    more_casters_never_raise_the_ratio(recv, recv_normal, few, many, 5, 6, sky_band());
    more_casters_never_raise_the_ratio(recv, recv_normal, few, many, 3, 2, horizon_band());
}

// ---------------------------------------------------------------------------
// The sky of the fixed-point type

/// One term of the cosine series from the term before it, in units.
pub open spec fn next_term(term: int, step: int, index: int) -> int {
    (term * step / (fixed::SCALE as int)) / (index * (index + 1))
}

proof fn next_term_of_series(term: Fixed, step: Fixed, index: int)
    requires
        1 <= index <= 100,
        -2_500_000_000 <= step.units <= 0,
        -2_500_000_000 <= term.units <= 2_500_000_000,
    ensures
        term.product(step).quotient(Fixed::fraction(index * (index + 1), 1)).units == next_term(
            term.units as int,
            step.units as int,
            index,
        ),
        index >= 3 ==> {
            let next = next_term(term.units as int, step.units as int, index);
            let size = if term.units < 0 {
                -term.units
            } else {
                term.units as int
            };
            -(size / 4 + 2) <= next <= size / 4 + 2
        },
{
    let d = index * (index + 1);
    assert(2 <= d <= 10_100 && (index >= 3 ==> 12 <= d)) by (nonlinear_arith)
        requires
            1 <= index <= 100,
            d == index * (index + 1),
    ;
    let size = if term.units < 0 {
        -term.units
    } else {
        term.units as int
    };
    let p = term.units * step.units;
    assert(-(2_500_000_000 * size) <= p <= 2_500_000_000 * size) by (nonlinear_arith)
        requires
            p == term.units * step.units,
            -size <= term.units <= size,
            -2_500_000_000 <= step.units <= 0,
    ;
    let q = p / (fixed::SCALE as int);
    assert(term.product(step).units == q);
    let divisor = Fixed::fraction(d, 1);
    assert(divisor.units == d * fixed::SCALE);
    let next = q / d;
    lemma_fundamental_div_mod(q, d);
    lemma_mod_bound(q, d);
    assert(q * fixed::SCALE == next * (d * fixed::SCALE) + fixed::SCALE * (q % d))
        by (nonlinear_arith)
        requires
            q == d * next + q % d,
    ;
    lemma_fundamental_div_mod_converse(
        q * fixed::SCALE,
        d * fixed::SCALE,
        next,
        fixed::SCALE * (q % d),
    );
    assert(-3 * size - 1 <= q <= 3 * size);
    assert(-10_000_000_000 <= next <= 10_000_000_000) by (nonlinear_arith)
        requires
            q == d * next + q % d,
            0 <= q % d < d,
            2 <= d,
            -10_000_000_000 <= q <= 10_000_000_000,
    ;
    if index >= 3 {
        assert(12 * next <= 12 * (size / 4 + 2) && -12 * (size / 4 + 2) <= 12 * next)
            by (nonlinear_arith)
            requires
                q == d * next + q % d,
                0 <= q % d < d,
                12 <= d,
                -3 * size - 1 <= q <= 3 * size,
                0 <= size,
        ;
    }
}

/// What is left of a cosine series is small where its next term is.
proof fn rest_of_series_is_small(term: Fixed, step: Fixed, index: int, terms: nat)
    requires
        3 <= index,
        index + 2 * terms <= 100,
        -2_500_000_000 <= step.units <= 0,
        -1_000_000_000 <= term.units <= 1_000_000_000,
    ensures
        ({
            let size = if term.units < 0 {
                -term.units
            } else {
                term.units as int
            };
            let rest = fixed::series(term, step, 2, index, terms).units;
            -(2 * size + 4 * terms) <= rest <= 2 * size + 4 * terms
        }),
    decreases terms,
{
    if terms > 0 {
        next_term_of_series(term, step, index);
        let next = term.product(step).quotient(Fixed::fraction(index * (index + 1), 1));
        rest_of_series_is_small(next, step, index + 2, (terms - 1) as nat);
    }
}

/// A term of the series from the product with the step and its quotient.
proof fn term_value(term: int, step: int, index: int, product: int, scaled: int, next: int)
    requires
        1 <= index,
        product == term * step,
        fixed::SCALE * scaled <= product < fixed::SCALE * scaled + fixed::SCALE,
        index * (index + 1) * next <= scaled < index * (index + 1) * next + index * (index + 1),
    ensures
        next_term(term, step, index) == next,
{
    let d = index * (index + 1);
    assert(d > 0) by (nonlinear_arith)
        requires
            1 <= index,
            d == index * (index + 1),
    ;
    assert(d * next == next * d) by (nonlinear_arith);
    lemma_fundamental_div_mod_converse(
        product,
        fixed::SCALE as int,
        scaled,
        product - fixed::SCALE * scaled,
    );
    lemma_fundamental_div_mod_converse(scaled, d, next, scaled - d * next);
}

/// The cosine of an angle is not negative where the first terms of its series outweigh the
/// rest; `step` is the negated square of the angle, and `t1` to `t4` are the terms after the
/// first.
proof fn cosine_not_negative(
    phi: Fixed,
    angle: int,
    step: int,
    t1: int,
    t2: int,
    t3: int,
    t4: int,
)
    requires
        phi.units == angle,
        0 <= angle <= 1_500_000_000,
        step == -(angle * angle / 1_000_000_000),
        -2_500_000_000 <= step <= 0,
        t1 == next_term(1_000_000_000, step, 1),
        t2 == next_term(t1, step, 3),
        t3 == next_term(t2, step, 5),
        t4 == next_term(t3, step, 7),
        -2_500_000_000 <= t1 <= 0,
        0 <= t2 <= 1_000_000_000,
        -1_000_000_000 <= t3 <= 0,
        0 <= t4 <= 1_000_000,
        1_000_000_000 + t1 + t2 + t3 >= 2 * t4 + 64,
    ensures
        phi.cosine().units >= 0,
{
    let s = phi.product(phi).opposite();
    assert(s.units == step);
    let one = Fixed::fraction(1, 1);
    assert(one.units == 1_000_000_000);
    next_term_of_series(one, s, 1);
    let a = one.product(s).quotient(Fixed::fraction(1int * 2int, 1));
    next_term_of_series(a, s, 3);
    let b = a.product(s).quotient(Fixed::fraction(3int * 4int, 1));
    next_term_of_series(b, s, 5);
    let c = b.product(s).quotient(Fixed::fraction(5int * 6int, 1));
    next_term_of_series(c, s, 7);
    let d = c.product(s).quotient(Fixed::fraction(7int * 8int, 1));
    rest_of_series_is_small(d, s, 9, 16);
    assert(fixed::series(c, s, 2, 7, 17) == c.sum(fixed::series(d, s, 2, 9, 16)));
    assert(fixed::series(b, s, 2, 5, 18) == b.sum(fixed::series(c, s, 2, 7, 17)));
    assert(fixed::series(a, s, 2, 3, 19) == a.sum(fixed::series(b, s, 2, 5, 18)));
    assert(fixed::series(one, s, 2, 1, 20) == one.sum(fixed::series(a, s, 2, 3, 19)));
}

proof fn sky_bands_face_up(i: usize)
    requires
        i < 6,
    ensures
        sky_band::<Fixed>().units == 261_799_387,
        shading::band_altitude(i, sky_band::<Fixed>()).cosine().units >= 0,
{
    let d = sky_band::<Fixed>();
    assert(pi::<Fixed>().units == 3_141_592_653);
    assert(over(pi::<Fixed>(), num(2)).units == 1_570_796_326);
    assert(d.units == 261_799_387);
    let phi = shading::band_altitude(i, d);
    assert(lit::<Fixed>(1, 2).units == 500_000_000);
    assert(lit::<Fixed>(1, 2).product(d).units == 130_899_693);
    assert(Fixed::whole(i as nat).product(d).units == i * 261_799_387) by {
        assert(Fixed::whole(i as nat).units == i * fixed::SCALE);
        lemma_div_multiples_vanish(i * 261_799_387, fixed::SCALE as int);
    }
    if i == 0 {
        assert(phi.units == 130_899_693);
        assert(130_899_693int * 130_899_693int / 1_000_000_000 == 17_134_729);
        term_value(1_000_000_000, -17_134_729, 1, -17_134_729_000_000_000, -17_134_729, -8_567_365);
        term_value(-8_567_365, -17_134_729, 3, 146_799_477_519_085, 146_799, 12_233);
        term_value(12_233, -17_134_729, 5, -209_609_139_857, -210, -7);
        term_value(-7, -17_134_729, 7, 119_943_103, 0, 0);
        cosine_not_negative(
            phi,
            130_899_693,
            -17_134_729,
            -8_567_365, 12_233, -7, 0,
        );
    }
    if i == 1 {
        assert(phi.units == 392_699_080);
        assert(392_699_080int * 392_699_080int / 1_000_000_000 == 154_212_567);
        term_value(
            1_000_000_000,
            -154_212_567,
            1,
            -154_212_567_000_000_000,
            -154_212_567,
            -77_106_284,
        );
        term_value(-77_106_284, -154_212_567, 3, 11_890_757_987_471_028, 11_890_757, 990_896);
        term_value(990_896, -154_212_567, 5, -152_808_615_790_032, -152_809, -5_094);
        term_value(-5_094, -154_212_567, 7, 785_558_816_298, 785, 14);
        cosine_not_negative(
            phi,
            392_699_080,
            -154_212_567,
            -77_106_284, 990_896, -5_094, 14,
        );
    }
    if i == 2 {
        assert(phi.units == 654_498_467);
        assert(654_498_467int * 654_498_467int / 1_000_000_000 == 428_368_243);
        term_value(
            1_000_000_000,
            -428_368_243,
            1,
            -428_368_243_000_000_000,
            -428_368_243,
            -214_184_122,
        );
        term_value(-214_184_122, -428_368_243, 3, 91_749_676_019_637_646, 91_749_676, 7_645_806);
        term_value(7_645_806, -428_368_243, 5, -3_275_220_482_538_858, -3_275_221, -109_175);
        term_value(-109_175, -428_368_243, 7, 46_767_102_929_525, 46_767, 835);
        cosine_not_negative(
            phi,
            654_498_467,
            -428_368_243,
            -214_184_122, 7_645_806, -109_175, 835,
        );
    }
    if i == 3 {
        assert(phi.units == 916_297_854);
        assert(916_297_854int * 916_297_854int / 1_000_000_000 == 839_601_757);
        term_value(
            1_000_000_000,
            -839_601_757,
            1,
            -839_601_757_000_000_000,
            -839_601_757,
            -419_800_879,
        );
        term_value(-419_800_879, -839_601_757, 3, 352_465_555_598_544_403, 352_465_555, 29_372_129);
        term_value(29_372_129, -839_601_757, 5, -24_660_891_115_230_653, -24_660_892, -822_030);
        term_value(-822_030, -839_601_757, 7, 690_177_832_306_710, 690_177, 12_324);
        cosine_not_negative(
            phi,
            916_297_854,
            -839_601_757,
            -419_800_879, 29_372_129, -822_030, 12_324,
        );
    }
    if i == 4 {
        assert(phi.units == 1_178_097_241);
        assert(1_178_097_241int * 1_178_097_241int / 1_000_000_000 == 1_387_913_109);
        term_value(
            1_000_000_000,
            -1_387_913_109,
            1,
            -1_387_913_109_000_000_000,
            -1_387_913_109,
            -693_956_555,
        );
        term_value(
            -693_956_555,
            -1_387_913_109,
            3,
            963_151_399_760_979_495,
            963_151_399,
            80_262_616,
        );
        term_value(
            80_262_616,
            -1_387_913_109,
            5,
            -111_397_536_909_033_144,
            -111_397_537,
            -3_713_252,
        );
        term_value(-3_713_252, -1_387_913_109, 7, 5_153_671_127_820_468, 5_153_671, 92_029);
        cosine_not_negative(
            phi,
            1_178_097_241,
            -1_387_913_109,
            -693_956_555, 80_262_616, -3_713_252, 92_029,
        );
    }
    if i == 5 {
        assert(phi.units == 1_439_896_628);
        assert(1_439_896_628int * 1_439_896_628int / 1_000_000_000 == 2_073_302_299);
        term_value(
            1_000_000_000,
            -2_073_302_299,
            1,
            -2_073_302_299_000_000_000,
            -2_073_302_299,
            -1_036_651_150,
        );
        term_value(
            -1_036_651_150,
            -2_073_302_299,
            3,
            2_149_291_212_555_993_850,
            2_149_291_212,
            179_107_601,
        );
        term_value(
            179_107_601,
            -2_073_302_299,
            5,
            -371_344_200_921_674_699,
            -371_344_201,
            -12_378_141,
        );
        term_value(-12_378_141, -2_073_302_299, 7, 25_663_628_192_646_159, 25_663_628, 458_279);
        cosine_not_negative(
            phi,
            1_439_896_628,
            -2_073_302_299,
            -1_036_651_150, 179_107_601, -12_378_141, 458_279,
        );
    }
}

proof fn horizon_bands_face_up(i: usize)
    requires
        i < 2,
    ensures
        horizon_band::<Fixed>().units == 87_266_460,
        shading::band_altitude(i, horizon_band::<Fixed>()).cosine().units >= 0,
{
    let d = horizon_band::<Fixed>();
    assert(pi::<Fixed>().units == 3_141_592_653);
    assert(over(pi::<Fixed>(), num(180)).units == 17_453_292);
    assert(num::<Fixed>(10).units == 10_000_000_000);
    let degree = over(pi::<Fixed>(), num(180));
    assert(num::<Fixed>(10).units * degree.units == 1_000_000_000 * 174_532_920int)
        by (nonlinear_arith)
        requires
            num::<Fixed>(10).units == 10_000_000_000,
            degree.units == 17_453_292,
    ;
    assert(times(num(10), degree).units == 174_532_920);
    assert(d.units == 87_266_460);
    let phi = shading::band_altitude(i, d);
    assert(lit::<Fixed>(1, 2).units == 500_000_000);
    assert(lit::<Fixed>(1, 2).product(d).units == 43_633_230);
    assert(Fixed::whole(i as nat).product(d).units == i * 87_266_460) by {
        assert(Fixed::whole(i as nat).units == i * fixed::SCALE);
        lemma_div_multiples_vanish(i * 87_266_460, fixed::SCALE as int);
    }
    if i == 0 {
        assert(phi.units == 43_633_230);
        assert(43_633_230int * 43_633_230int / 1_000_000_000 == 1_903_858);
        term_value(1_000_000_000, -1_903_858, 1, -1_903_858_000_000_000, -1_903_858, -951_929);
        term_value(-951_929, -1_903_858, 3, 1_812_337_642_082, 1_812, 151);
        term_value(151, -1_903_858, 5, -287_482_558, -1, -1);
        term_value(-1, -1_903_858, 7, 1_903_858, 0, 0);
        cosine_not_negative(
            phi,
            43_633_230,
            -1_903_858,
            -951_929, 151, -1, 0,
        );
    }
    if i == 1 {
        assert(phi.units == 130_899_690);
        assert(130_899_690int * 130_899_690int / 1_000_000_000 == 17_134_728);
        term_value(1_000_000_000, -17_134_728, 1, -17_134_728_000_000_000, -17_134_728, -8_567_364);
        term_value(-8_567_364, -17_134_728, 3, 146_799_451_816_992, 146_799, 12_233);
        term_value(12_233, -17_134_728, 5, -209_609_127_624, -210, -7);
        term_value(-7, -17_134_728, 7, 119_943_096, 0, 0);
        cosine_not_negative(
            phi,
            130_899_690,
            -17_134_728,
            -8_567_364, 12_233, -7, 0,
        );
    }
}

/// On fixed-point numbers casters that join others never raise the share of sky diffuse radiation
/// that reaches a surface, nor the share of what comes from the horizon.
pub proof fn more_casters_darken_the_sky(
    recv: Seq<Point3D<Fixed>>,
    recv_normal: Vec3<Fixed>,
    few: Seq<&ShadingPolygon<Fixed>>,
    many: Seq<&ShadingPolygon<Fixed>>,
)
    requires
        found_among(few, many),
    ensures
        shading::diffuse_ratio(recv, recv_normal, many, 5, 6, sky_band()).units
            <= shading::diffuse_ratio(recv, recv_normal, few, 5, 6, sky_band()).units,
        shading::diffuse_ratio(recv, recv_normal, many, 3, 2, horizon_band()).units
            <= shading::diffuse_ratio(recv, recv_normal, few, 3, 2, horizon_band()).units,
{
    assert forall|i: usize| i < 6 implies !(#[trigger] shading::band_altitude(
        i,
        sky_band::<Fixed>(),
    )).cosine().below(num(0)) by {
        sky_bands_face_up(i);
    }
    assert forall|i: usize| i < 2 implies !(#[trigger] shading::band_altitude(
        i,
        horizon_band::<Fixed>(),
    )).cosine().below(num(0)) by {
        horizon_bands_face_up(i);
    }
    joining_casters_never_raise_the_ratios(recv, recv_normal, few, many);
}

} // verus!
