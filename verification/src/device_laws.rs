//! Which way overhangs and fins look, on fixed-point numbers.
use crate::fixed;
use crate::fixed::Fixed;
use crate::geometry;
use crate::geometry::{Point3D, Vec3};
use crate::scalar::{num, Scalar};
use crate::shading;
use crate::shading::{FinInput, FinSide, OverhangInput};
use vstd::arithmetic::div_mod::*;
use vstd::prelude::*;

verus! {

/// Each of four corners is within `reach` units of zero either way.
pub open spec fn corners_within(corners: Seq<Point3D<Fixed>>, reach: int) -> bool {
    &&& corners.len() == 4
    &&& 0 <= reach <= 10_000_000_000_000
    &&& forall|i: int|
        0 <= i < 4 ==> {
            &&& -reach <= (#[trigger] corners[i]).x.units <= reach
            &&& -reach <= corners[i].y.units <= reach
            &&& -reach <= corners[i].z.units <= reach
        }
}

/// The corners are those of a parallelogram within reach.
pub open spec fn is_parallelogram(corners: Seq<Point3D<Fixed>>, reach: int) -> bool {
    &&& corners_within(corners, reach)
    &&& corners[2].x.units - corners[1].x.units == corners[3].x.units - corners[0].x.units
    &&& corners[2].y.units - corners[1].y.units == corners[3].y.units - corners[0].y.units
    &&& corners[2].z.units - corners[1].z.units == corners[3].z.units - corners[0].z.units
}

/// The way from one point to another, in units.
pub open spec fn way(from: Point3D<Fixed>, to: Point3D<Fixed>) -> (int, int, int) {
    (
        to.x.units - from.x.units,
        to.y.units - from.y.units,
        to.z.units - from.z.units,
    )
}

/// The cross product of two ways, in squared units.
pub open spec fn turn(a: (int, int, int), b: (int, int, int)) -> (int, int, int) {
    (a.1 * b.2 - a.2 * b.1, a.2 * b.0 - a.0 * b.2, a.0 * b.1 - a.1 * b.0)
}

/// A normal, in units, is twice a cross product, to within four units of rounding.
pub open spec fn is_twice(normal: Vec3<Fixed>, cross: (int, int, int)) -> bool {
    let scale = fixed::SCALE as int;
    &&& -4 * scale <= scale * normal.x.units - 2 * cross.0 <= 4 * scale
    &&& -4 * scale <= scale * normal.y.units - 2 * cross.1 <= 4 * scale
    &&& -4 * scale <= scale * normal.z.units - 2 * cross.2 <= 4 * scale
}

/// One product of Newell's sum, rounded.
proof fn newell_product(a: Fixed, b: Fixed, c: Fixed, d: Fixed, reach: int)
    requires
        0 <= reach <= 10_000_000_000_000,
        -reach <= a.units <= reach,
        -reach <= b.units <= reach,
        -reach <= c.units <= reach,
        -reach <= d.units <= reach,
    ensures
        ({
            let p = a.difference(b).product(c.sum(d)).units;
            let exact = (a.units - b.units) * (c.units + d.units);
            &&& fixed::SCALE * p <= exact < fixed::SCALE * p + fixed::SCALE
            &&& -1_000_000_000_000_000_000 <= p <= 1_000_000_000_000_000_000
        }),
{
    let (s, t) = (a.units - b.units, c.units + d.units);
    let exact = s * t;
    assert(-400_000_000_000_000_000_000_000_000 <= exact <= 400_000_000_000_000_000_000_000_000)
        by (nonlinear_arith)
        requires
            exact == s * t,
            -20_000_000_000_000 <= s <= 20_000_000_000_000,
            -20_000_000_000_000 <= t <= 20_000_000_000_000,
    ;
    lemma_fundamental_div_mod(exact, fixed::SCALE as int);
    lemma_mod_bound(exact, fixed::SCALE as int);
}

/// One coordinate of Newell's sum around a parallelogram, without rounding: from the corner
/// `(y, z)` it goes by `(ay, az)`, then by `(by, bz)`, and back.
proof fn newell_around(y: int, z: int, ay: int, az: int, by: int, bz: int)
    ensures
        (-ay) * (z + z + az) + (-by) * (z + az + z + az + bz) + ay * (z + az + bz + z + bz) + by * (z
            + bz + z) == 2 * (ay * bz - az * by),
{
    assert((-ay) * (z + z + az) == -2 * (ay * z) - ay * az) by (nonlinear_arith);
    assert((-by) * (z + az + z + az + bz) == -2 * (by * z) - 2 * (by * az) - by * bz)
        by (nonlinear_arith);
    assert(ay * (z + az + bz + z + bz) == 2 * (ay * z) + ay * az + 2 * (ay * bz))
        by (nonlinear_arith);
    assert(by * (z + bz + z) == 2 * (by * z) + by * bz) by (nonlinear_arith);
    assert(by * az == az * by) by (nonlinear_arith);
}

/// One coordinate of the normal of a parallelogram.
proof fn newell_coordinate(y: Seq<Fixed>, z: Seq<Fixed>, reach: int) -> (sum: Fixed)
    requires
        0 <= reach <= 10_000_000_000_000,
        y.len() == 4,
        z.len() == 4,
        forall|i: int| 0 <= i < 4 ==> -reach <= (#[trigger] y[i]).units <= reach,
        forall|i: int| 0 <= i < 4 ==> -reach <= (#[trigger] z[i]).units <= reach,
        y[2].units - y[1].units == y[3].units - y[0].units,
        z[2].units - z[1].units == z[3].units - z[0].units,
    ensures
        sum == num::<Fixed>(0).sum(y[0].difference(y[1]).product(z[0].sum(z[1]))).sum(
            y[1].difference(y[2]).product(z[1].sum(z[2])),
        ).sum(y[2].difference(y[3]).product(z[2].sum(z[3]))).sum(
            y[3].difference(y[0]).product(z[3].sum(z[0])),
        ),
        ({
            let (ay, az) = (y[1].units - y[0].units, z[1].units - z[0].units);
            let (by, bz) = (y[3].units - y[0].units, z[3].units - z[0].units);
            let scale = fixed::SCALE as int;
            -4 * scale <= scale * sum.units - 2 * (ay * bz - az * by) <= 4 * scale
        }),
{
    let (ay, az) = (y[1].units - y[0].units, z[1].units - z[0].units);
    let (by, bz) = (y[3].units - y[0].units, z[3].units - z[0].units);
    newell_product(y[0], y[1], z[0], z[1], reach);
    newell_product(y[1], y[2], z[1], z[2], reach);
    newell_product(y[2], y[3], z[2], z[3], reach);
    newell_product(y[3], y[0], z[3], z[0], reach);
    newell_around(y[0].units as int, z[0].units as int, ay, az, by, bz);
    let start = z[0].units as int;
    assert(y[0].units - y[1].units == -ay && z[0].units + z[1].units == start + start + az);
    assert(y[1].units - y[2].units == -by && z[1].units + z[2].units == start + az + start + az
        + bz);
    assert(y[2].units - y[3].units == ay && z[2].units + z[3].units == start + az + bz + start
        + bz);
    assert(y[3].units - y[0].units == by && z[3].units + z[0].units == start + bz + start);
    num::<Fixed>(0).sum(y[0].difference(y[1]).product(z[0].sum(z[1]))).sum(
        y[1].difference(y[2]).product(z[1].sum(z[2])),
    ).sum(y[2].difference(y[3]).product(z[2].sum(z[3]))).sum(
        y[3].difference(y[0]).product(z[3].sum(z[0])),
    )
}

/// The normal of a parallelogram is twice the cross product of its first side with its last
/// one, which leads from the same corner.
pub proof fn normal_of_parallelogram(corners: Seq<Point3D<Fixed>>, reach: int)
    requires
        is_parallelogram(corners, reach),
    ensures
        is_twice(
            geometry::newell_sum(corners, 4),
            turn(way(corners[0], corners[1]), way(corners[0], corners[3])),
        ),
{
    let x = seq![corners[0].x, corners[1].x, corners[2].x, corners[3].x];
    let y = seq![corners[0].y, corners[1].y, corners[2].y, corners[3].y];
    let z = seq![corners[0].z, corners[1].z, corners[2].z, corners[3].z];
    let nx = newell_coordinate(y, z, reach);
    let ny = newell_coordinate(z, x, reach);
    let nz = newell_coordinate(x, y, reach);
    reveal_with_fuel(geometry::newell_sum, 5);
    let sum = geometry::newell_sum(corners, 4);
    assert(sum.x == nx);
    assert(sum.y == ny);
    assert(sum.z == nz);
}

/// The normal of an overhang is twice the cross product of its edge along the wall, from left
/// to right, with its depth: right crossed with outwards is down.
pub proof fn overhang_turns_from_right_to_outwards(
    window: Seq<Point3D<Fixed>>,
    overhang: OverhangInput<Fixed>,
    wall_outward: Vec3<Fixed>,
    reach: int,
)
    requires
        corners_within(shading::overhang_corners(window, overhang, wall_outward), reach),
    ensures
        ({
            let c = shading::overhang_corners(window, overhang, wall_outward);
            let (left, right, outer_left) = (c[0], c[1], c[3]);
            is_twice(
                geometry::newell_sum(c, 4),
                turn(way(left, right), way(left, outer_left)),
            )
        }),
{
    let c = shading::overhang_corners(window, overhang, wall_outward);
    let (left, right, outer_right, outer_left) = (c[0], c[1], c[2], c[3]);
    assert(corners_within(seq![left, outer_left, right, outer_right], reach)) by {
        let again = seq![left, outer_left, right, outer_right];
        assert(again[0] == c[0] && again[1] == c[3] && again[2] == c[1] && again[3] == c[2]);
    }
    same_step(left, right, wall_outward.normalize(), overhang.depth, reach);
    assert(is_parallelogram(c, reach));
    normal_of_parallelogram(c, reach);
}

/// An overhang looks down wherever going outwards from its wall edge is a turn to the right,
/// seen from above and by more than rounding, as it is over a window whose corners are given
/// counterclockwise seen from outside.
pub proof fn overhang_looks_down(
    window: Seq<Point3D<Fixed>>,
    overhang: OverhangInput<Fixed>,
    wall_outward: Vec3<Fixed>,
    reach: int,
)
    requires
        ({
            let c = shading::overhang_corners(window, overhang, wall_outward);
            &&& corners_within(c, reach)
            &&& turn(way(c[0], c[1]), way(c[0], c[3])).2 < -2 * fixed::SCALE
        }),
    ensures
        ({
            let c = shading::overhang_corners(window, overhang, wall_outward);
            geometry::newell_sum(c, 4).z.units < 0
        }),
{
    overhang_turns_from_right_to_outwards(window, overhang, wall_outward, reach);
}

/// Crossing a way with the opposite of another is crossing the other with the way.
proof fn turn_the_other_way(a: (int, int, int), b: (int, int, int), c: (int, int, int))
    requires
        c.0 == -b.0,
        c.1 == -b.1,
        c.2 == -b.2,
    ensures
        turn(a, b) == turn(c, a),
{
    assert(turn(a, b) == turn(c, a)) by (nonlinear_arith)
        requires
            c.0 == -b.0,
            c.1 == -b.1,
            c.2 == -b.2,
    ;
}

/// Going the same way from two points is the same step, where both ends are within range.
proof fn same_step(
    p: Point3D<Fixed>,
    q: Point3D<Fixed>,
    direction: Vec3<Fixed>,
    length: Fixed,
    reach: int,
)
    requires
        0 <= reach <= 10_000_000_000_000,
        corners_within(seq![p, p.along(&direction, length), q, q.along(&direction, length)], reach),
    ensures
        way(p, p.along(&direction, length)) == way(q, q.along(&direction, length)),
{
    let c = seq![p, p.along(&direction, length), q, q.along(&direction, length)];
    assert(c[0] == p && c[1] == p.along(&direction, length));
    assert(c[2] == q && c[3] == q.along(&direction, length));
}

proof fn left_fin_looks_left(
    window: Seq<Point3D<Fixed>>,
    fin: FinInput<Fixed>,
    wall_outward: Vec3<Fixed>,
    reach: int,
)
    requires
        corners_within(shading::fin_corners(window, fin, wall_outward, FinSide::Left), reach),
    ensures
        ({
            let c = shading::fin_corners(window, fin, wall_outward, FinSide::Left);
            let (outer_bottom, base_top, base_bottom) = (c[0], c[2], c[3]);
            is_twice(
                geometry::newell_sum(c, 4),
                turn(way(base_bottom, outer_bottom), way(base_bottom, base_top)),
            )
        }),
{
    let c = shading::fin_corners(window, fin, wall_outward, FinSide::Left);
    let (outer_bottom, outer_top, base_top, base_bottom) = (c[0], c[1], c[2], c[3]);
    assert(corners_within(seq![base_bottom, outer_bottom, base_top, outer_top], reach)) by {
        let again = seq![base_bottom, outer_bottom, base_top, outer_top];
        assert(again[0] == c[3] && again[1] == c[0] && again[2] == c[2] && again[3] == c[1]);
    }
    same_step(base_bottom, base_top, wall_outward.normalize(), fin.depth, reach);
    let (height, inward) = (way(outer_bottom, outer_top), way(outer_bottom, base_bottom));
    let (outward, rise) = (way(base_bottom, outer_bottom), way(base_bottom, base_top));
    assert(rise == height);
    assert(is_parallelogram(c, reach));
    normal_of_parallelogram(c, reach);
    turn_the_other_way(height, inward, outward);
}

proof fn right_fin_looks_right(
    window: Seq<Point3D<Fixed>>,
    fin: FinInput<Fixed>,
    wall_outward: Vec3<Fixed>,
    reach: int,
)
    requires
        corners_within(shading::fin_corners(window, fin, wall_outward, FinSide::Right), reach),
    ensures
        ({
            let c = shading::fin_corners(window, fin, wall_outward, FinSide::Right);
            let (base_bottom, base_top, outer_bottom) = (c[0], c[1], c[3]);
            is_twice(
                geometry::newell_sum(c, 4),
                turn(way(base_bottom, base_top), way(base_bottom, outer_bottom)),
            )
        }),
{
    let c = shading::fin_corners(window, fin, wall_outward, FinSide::Right);
    let (base_bottom, base_top, outer_top, outer_bottom) = (c[0], c[1], c[2], c[3]);
    assert(corners_within(seq![base_bottom, outer_bottom, base_top, outer_top], reach)) by {
        let again = seq![base_bottom, outer_bottom, base_top, outer_top];
        assert(again[0] == c[0] && again[1] == c[3] && again[2] == c[1] && again[3] == c[2]);
    }
    same_step(base_bottom, base_top, wall_outward.normalize(), fin.depth, reach);
    assert(is_parallelogram(c, reach));
    normal_of_parallelogram(c, reach);
}

/// The normal of a fin is twice the cross product of its depth with its height for a left fin,
/// and of its height with its depth for a right one: each looks away from the window.
pub proof fn fins_look_away_from_the_window(
    window: Seq<Point3D<Fixed>>,
    fin: FinInput<Fixed>,
    wall_outward: Vec3<Fixed>,
    reach: int,
)
    requires
        corners_within(shading::fin_corners(window, fin, wall_outward, FinSide::Left), reach),
        corners_within(shading::fin_corners(window, fin, wall_outward, FinSide::Right), reach),
    ensures
        ({
            let c = shading::fin_corners(window, fin, wall_outward, FinSide::Left);
            let (outer_bottom, base_top, base_bottom) = (c[0], c[2], c[3]);
            is_twice(
                geometry::newell_sum(c, 4),
                turn(way(base_bottom, outer_bottom), way(base_bottom, base_top)),
            )
        }),
        ({
            let c = shading::fin_corners(window, fin, wall_outward, FinSide::Right);
            let (base_bottom, base_top, outer_bottom) = (c[0], c[1], c[3]);
            is_twice(
                geometry::newell_sum(c, 4),
                turn(way(base_bottom, base_top), way(base_bottom, outer_bottom)),
            )
        }),
{
    left_fin_looks_left(window, fin, wall_outward, reach);
    right_fin_looks_right(window, fin, wall_outward, reach);
}

} // verus!
