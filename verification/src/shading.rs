//! Solar shading: shadow projection, polygon clipping and sunlit fractions.
//!
//! Three sources of shade are handled: building surfaces that shade each other,
//! explicit shading surfaces, and window overhangs and fins. Beam radiation is
//! reduced by the sunlit fraction of a surface; isotropic sky diffuse radiation is
//! reduced by a ratio found by sampling the hemisphere of the sky.
//!
//! Shadows are projected along the sun direction onto the plane of the receiving
//! surface and clipped against its outline (Sutherland and Hodgman, 1974).
use crate::geometry;
use crate::geometry::{following, newell_normal, polygon_area, preceding, Point3D, Vec3};
use crate::scalar;
use crate::scalar::{
    absolute, clamp, cosine, count, ge, gt, le, least, lit, lt, minus, most, negated, num, over, pi,
    plus, same, sine, times, Scalar,
};
use vstd::prelude::*;
use vstd::string::*;

verus! {

/// How solar shading is calculated.
#[derive(Clone, Copy, Debug, PartialEq, Eq, Structural)]
pub enum ShadingCalculation {
    /// No geometric shadows: every outdoor surface receives the unobstructed sun.
    Basic,
    /// Sunlit fractions from the geometry of all shading surfaces.
    Detailed,
}

impl Default for ShadingCalculation {
    fn default() -> (r: Self)
        ensures
            r == ShadingCalculation::Basic,
    {
        ShadingCalculation::Basic
    }
}

/// An explicit shading surface; it casts shadows and has no thermal role.
pub struct ShadingSurfaceInput<T> {
    pub name: String,
    /// Vertices, counter-clockwise seen from outside; at least three.
    pub vertices: Vec<Point3D<T>>,
    /// Solar transmittance from 0 (opaque) to 1 (transparent).
    pub solar_transmittance: T,
}

/// The shading devices of a window.
pub struct WindowShadingInput<T> {
    /// Horizontal overhang above the window.
    pub overhang: Option<OverhangInput<T>>,
    /// Vertical fin on the left, seen from outside.
    pub left_fin: Option<FinInput<T>>,
    /// Vertical fin on the right, seen from outside.
    pub right_fin: Option<FinInput<T>>,
}

/// A horizontal rectangle that projects from the wall above a window.
#[derive(Clone, Copy, Debug)]
pub struct OverhangInput<T> {
    /// Projection from the wall plane [m].
    pub depth: T,
    /// Height above the top edge of the window [m].
    pub offset_above: T,
    /// Extension beyond the left edge of the window [m].
    pub left_extension: T,
    /// Extension beyond the right edge of the window [m].
    pub right_extension: T,
}

/// A vertical rectangle that projects from the wall beside a window.
#[derive(Clone, Copy, Debug)]
pub struct FinInput<T> {
    /// Projection from the wall plane [m].
    pub depth: T,
    /// Extension below the bottom of the window [m].
    pub extend_below: T,
    /// Extension above the top of the window [m].
    pub extend_above: T,
}

/// A shading polygon in world coordinates, ready to be projected.
pub struct ShadingPolygon<T> {
    pub name: String,
    pub vertices: Vec<Point3D<T>>,
    pub normal: Vec3<T>,
    pub solar_transmittance: T,
}

/// A point in the plane of a surface.
#[derive(Clone, Copy, Debug)]
pub struct Point2D<T> {
    pub x: T,
    pub y: T,
}

/// The side of a window that a fin is on, seen from outside.
#[derive(Clone, Copy, Debug, PartialEq, Eq, Structural)]
pub enum FinSide {
    Left,
    Right,
}

/// A shadow on a receiving surface, with the share of the beam that it lets through.
pub struct Shadow<T> {
    pub outline: Vec<Point2D<T>>,
    pub transmittance: T,
}

// ---------------------------------------------------------------------------
// Polygons in the plane

/// `point` lies on the left of the directed edge, or on it within a small tolerance.
pub open spec fn inside_edge<T: Scalar>(
    point: Point2D<T>,
    edge_start: Point2D<T>,
    edge_end: Point2D<T>,
) -> bool {
    ge(
        minus(
            times(minus(edge_end.x, edge_start.x), minus(point.y, edge_start.y)),
            times(minus(edge_end.y, edge_start.y), minus(point.x, edge_start.x)),
        ),
        negated(lit(1, 10_000_000_000)),
    )
}

pub fn is_inside<T: Scalar>(
    point: Point2D<T>,
    edge_start: Point2D<T>,
    edge_end: Point2D<T>,
) -> (r: bool)
    ensures
        r == inside_edge(point, edge_start, edge_end),
{
    ge(
        minus(
            times(minus(edge_end.x, edge_start.x), minus(point.y, edge_start.y)),
            times(minus(edge_end.y, edge_start.y), minus(point.x, edge_start.x)),
        ),
        negated(lit(1, 10_000_000_000)),
    )
}

/// Where the line through `p1` and `p2` meets the line through `p3` and `p4`;
/// nothing where the two are parallel.
pub open spec fn meeting_point<T: Scalar>(
    p1: Point2D<T>,
    p2: Point2D<T>,
    p3: Point2D<T>,
    p4: Point2D<T>,
) -> Option<Point2D<T>> {
    let denom = minus(
        times(minus(p1.x, p2.x), minus(p3.y, p4.y)),
        times(minus(p1.y, p2.y), minus(p3.x, p4.x)),
    );
    let t = over(
        minus(
            times(minus(p1.x, p3.x), minus(p3.y, p4.y)),
            times(minus(p1.y, p3.y), minus(p3.x, p4.x)),
        ),
        denom,
    );
    if lt(absolute(denom), lit(1, 1_000_000_000_000)) {
        None
    } else {
        Some(
            Point2D {
                x: plus(p1.x, times(t, minus(p2.x, p1.x))),
                y: plus(p1.y, times(t, minus(p2.y, p1.y))),
            },
        )
    }
}

pub fn line_intersect_2d<T: Scalar>(
    p1: Point2D<T>,
    p2: Point2D<T>,
    p3: Point2D<T>,
    p4: Point2D<T>,
) -> (r: Option<Point2D<T>>)
    ensures
        r == meeting_point(p1, p2, p3, p4),
{
    let denom = minus(
        times(minus(p1.x, p2.x), minus(p3.y, p4.y)),
        times(minus(p1.y, p2.y), minus(p3.x, p4.x)),
    );
    if lt(absolute(denom), lit(1, 1_000_000_000_000)) {
        return None;
    }
    let t = over(
        minus(
            times(minus(p1.x, p3.x), minus(p3.y, p4.y)),
            times(minus(p1.y, p3.y), minus(p3.x, p4.x)),
        ),
        denom,
    );
    Some(
        Point2D {
            x: plus(p1.x, times(t, minus(p2.x, p1.x))),
            y: plus(p1.y, times(t, minus(p2.y, p1.y))),
        },
    )
}

/// The vertices that the step from `previous` to `current` leaves behind when a
/// polygon is clipped by one edge: where it enters or leaves the inside, the
/// crossing, and `current` itself if that is inside.
pub open spec fn clip_step<T: Scalar>(
    previous: Point2D<T>,
    current: Point2D<T>,
    edge_start: Point2D<T>,
    edge_end: Point2D<T>,
) -> Seq<Point2D<T>> {
    let crossing = match meeting_point(previous, current, edge_start, edge_end) {
        Some(p) => seq![p],
        None => Seq::empty(),
    };
    let current_in = inside_edge(current, edge_start, edge_end);
    let previous_in = inside_edge(previous, edge_start, edge_end);
    if current_in && !previous_in {
        crossing.push(current)
    } else if current_in {
        seq![current]
    } else if previous_in {
        crossing
    } else {
        Seq::empty()
    }
}

/// What is left of the first `steps` vertices of a polygon behind one clip edge.
pub open spec fn clip_by_edge<T: Scalar>(
    polygon: Seq<Point2D<T>>,
    edge_start: Point2D<T>,
    edge_end: Point2D<T>,
    steps: nat,
) -> Seq<Point2D<T>>
    decreases steps,
{
    if steps == 0 {
        Seq::empty()
    } else {
        let j = steps - 1;
        clip_by_edge(polygon, edge_start, edge_end, j as nat) + clip_step(
            polygon[geometry::before_on_ring(j, polygon.len() as int)],
            polygon[j],
            edge_start,
            edge_end,
        )
    }
}

/// What is left of `subject` behind the first `edges` edges of `clip`.
pub open spec fn clip_by_edges<T: Scalar>(
    subject: Seq<Point2D<T>>,
    clip: Seq<Point2D<T>>,
    edges: nat,
) -> Seq<Point2D<T>>
    decreases edges,
{
    if edges == 0 {
        subject
    } else {
        let i = edges - 1;
        let before = clip_by_edges(subject, clip, i as nat);
        clip_by_edge(
            before,
            clip[i],
            clip[geometry::after_on_ring(i, clip.len() as int)],
            before.len(),
        )
    }
}

/// The part of `subject` inside the convex polygon `clip`; nothing where `clip` is
/// no polygon.
pub open spec fn clipped<T: Scalar>(
    subject: Seq<Point2D<T>>,
    clip: Seq<Point2D<T>>,
) -> Seq<Point2D<T>> {
    if clip.len() < 3 {
        Seq::empty()
    } else {
        clip_by_edges(subject, clip, clip.len())
    }
}

/// Clips `input` by one directed edge.
fn clip_against<T: Scalar>(
    input: &Vec<Point2D<T>>,
    edge_start: Point2D<T>,
    edge_end: Point2D<T>,
) -> (r: Vec<Point2D<T>>)
    ensures
        r@ == clip_by_edge(input@, edge_start, edge_end, input@.len()),
{
    let n: usize = input.len();
    let mut output: Vec<Point2D<T>> = Vec::new();
    for j in 0..n
        invariant
            n == input@.len(),
            output@ == clip_by_edge(input@, edge_start, edge_end, j as nat),
    {
        let current = input[j];
        let previous = input[preceding(j, n)];
        let ghost before = output@;
        let current_in = is_inside(current, edge_start, edge_end);
        let previous_in = is_inside(previous, edge_start, edge_end);
        if current_in {
            if !previous_in {
                if let Some(p) = line_intersect_2d(previous, current, edge_start, edge_end) {
                    output.push(p);
                }
            }
            output.push(current);
        } else if previous_in {
            if let Some(p) = line_intersect_2d(previous, current, edge_start, edge_end) {
                output.push(p);
            }
        }
        assert(output@ =~= before + clip_step(previous, current, edge_start, edge_end));
    }
    output
}

/// Sutherland-Hodgman clipping of `subject` against the convex polygon `clip`.
///
/// Returns the intersection polygon, or no vertices where the two do not overlap.
pub fn sutherland_hodgman_clip<T: Scalar>(
    subject: &[Point2D<T>],
    clip: &[Point2D<T>],
) -> (r: Vec<Point2D<T>>)
    ensures
        r@ == clipped(subject@, clip@),
{
    let mut output: Vec<Point2D<T>> = Vec::new();
    let n: usize = clip.len();
    if n < 3 {
        return output;
    }
    for j in 0..subject.len()
        invariant
            output@ == subject@.take(j as int),
    {
        output.push(subject[j]);
        assert(output@ =~= subject@.take(j + 1));
    }
    assert(output@ =~= subject@);
    for i in 0..n
        invariant
            n == clip@.len(),
            output@ == clip_by_edges(subject@, clip@, i as nat),
    {
        output = clip_against(&output, clip[i], clip[following(i, n)]);
    }
    output
}

/// Twice the signed area swept by the first `edges` edges.
pub open spec fn shoelace<T: Scalar>(poly: Seq<Point2D<T>>, edges: nat) -> T
    decreases edges,
{
    if edges == 0 {
        num(0)
    } else {
        let i = edges - 1;
        let a = poly[i];
        let b = poly[geometry::after_on_ring(i, poly.len() as int)];
        minus(plus(shoelace(poly, i as nat), times(a.x, b.y)), times(b.x, a.y))
    }
}

/// The area that [`polygon_area_2d`] computes.
pub open spec fn plane_area<T: Scalar>(poly: Seq<Point2D<T>>) -> T {
    if poly.len() < 3 {
        num(0)
    } else {
        absolute(over(shoelace(poly, poly.len()), num(2)))
    }
}

/// The area of a polygon in the plane by the shoelace formula.
pub fn polygon_area_2d<T: Scalar>(poly: &[Point2D<T>]) -> (r: T)
    ensures
        r == plane_area(poly@),
{
    let n: usize = poly.len();
    if n < 3 {
        return num(0);
    }
    let mut area: T = num(0);
    for i in 0..n
        invariant
            n == poly@.len(),
            area == shoelace(poly@, i as nat),
    {
        let a = poly[i];
        let b = poly[following(i, n)];
        area = minus(plus(area, times(a.x, b.y)), times(b.x, a.y));
    }
    absolute(over(area, num(2)))
}

/// A ray from `point` towards growing `x` crosses the edge between `a` and `b`.
pub open spec fn crosses<T: Scalar>(point: Point2D<T>, a: Point2D<T>, b: Point2D<T>) -> bool {
    &&& gt(a.y, point.y) != gt(b.y, point.y)
    &&& lt(
        point.x,
        plus(over(times(minus(b.x, a.x), minus(point.y, a.y)), minus(b.y, a.y)), a.x),
    )
}

/// How many of the first `edges` edges the ray from `point` crosses. Edge `i` leads
/// from the vertex before it on the ring to vertex `i`.
pub open spec fn crossings<T: Scalar>(
    point: Point2D<T>,
    polygon: Seq<Point2D<T>>,
    edges: nat,
) -> nat
    decreases edges,
{
    if edges == 0 {
        0
    } else {
        let i = edges - 1;
        let rest = crossings(point, polygon, i as nat);
        if crosses(point, polygon[i], polygon[geometry::before_on_ring(i, polygon.len() as int)]) {
            rest + 1
        } else {
            rest
        }
    }
}

/// A point is inside a polygon where a ray from it crosses the outline an odd
/// number of times.
pub open spec fn in_polygon<T: Scalar>(point: Point2D<T>, polygon: Seq<Point2D<T>>) -> bool {
    crossings(point, polygon, polygon.len()) % 2 == 1
}

pub fn point_in_polygon_2d<T: Scalar>(point: &Point2D<T>, polygon: &[Point2D<T>]) -> (r: bool)
    requires
        polygon@.len() > 0,
    ensures
        r == in_polygon(*point, polygon@),
{
    let n: usize = polygon.len();
    let mut inside = false;
    for i in 0..n
        invariant
            n == polygon@.len(),
            inside == (crossings(*point, polygon@, i as nat) % 2 == 1),
    {
        let a = polygon[i];
        let b = polygon[preceding(i, n)];
        if gt(a.y, point.y) != gt(b.y, point.y) && lt(
            point.x,
            plus(over(times(minus(b.x, a.x), minus(point.y, a.y)), minus(b.y, a.y)), a.x),
        ) {
            inside = !inside;
        }
    }
    inside
}

// ---------------------------------------------------------------------------
// Projection onto the plane of a surface

/// The shadow of `point` on a plane: where the ray along `sun_dir` meets it. There
/// is none where the ray runs along the plane or the plane lies behind the point.
pub open spec fn shadow_point<T: Scalar>(
    point: Point3D<T>,
    plane_point: Point3D<T>,
    plane_normal: Vec3<T>,
    sun_dir: Vec3<T>,
) -> Option<Point3D<T>> {
    let denom = sun_dir.dot(&plane_normal);
    let t = over(plane_point.from(&point).dot(&plane_normal), denom);
    if lt(absolute(denom), lit(1, 10_000_000_000)) || lt(t, negated(lit(1, 1_000_000))) {
        None
    } else {
        Some(point.along(&sun_dir, t))
    }
}

/// Projects a point onto a plane along the sun direction.
pub fn project_point_onto_plane<T: Scalar>(
    point: &Point3D<T>,
    plane_point: &Point3D<T>,
    plane_normal: &Vec3<T>,
    sun_dir: &Vec3<T>,
) -> (r: Option<Point3D<T>>)
    ensures
        r == shadow_point(*point, *plane_point, *plane_normal, *sun_dir),
{
    let denom = sun_dir.dot(plane_normal);
    if lt(absolute(denom), lit(1, 10_000_000_000)) {
        return None;
    }
    let t = over(plane_point.from(point).dot(plane_normal), denom);
    if lt(t, negated(lit(1, 1_000_000))) {
        return None;
    }
    Some(point.along(sun_dir, t))
}

/// Every vertex has a shadow on the plane.
pub open spec fn all_projected<T: Scalar>(
    casting_verts: Seq<Point3D<T>>,
    plane_point: Point3D<T>,
    plane_normal: Vec3<T>,
    sun_dir: Vec3<T>,
) -> bool {
    forall|i: int|
        0 <= i < casting_verts.len() ==> shadow_point(
            #[trigger] casting_verts[i],
            plane_point,
            plane_normal,
            sun_dir,
        ) is Some
}

/// The shadows of the vertices, in order.
pub open spec fn projections<T: Scalar>(
    casting_verts: Seq<Point3D<T>>,
    plane_point: Point3D<T>,
    plane_normal: Vec3<T>,
    sun_dir: Vec3<T>,
) -> Seq<Point3D<T>> {
    Seq::new(
        casting_verts.len(),
        |i: int| shadow_point(casting_verts[i], plane_point, plane_normal, sun_dir)->Some_0,
    )
}

/// Projects a casting polygon onto the plane of a receiving surface; nothing where
/// any vertex cannot be projected.
pub fn project_polygon_onto_plane<T: Scalar>(
    casting_verts: &[Point3D<T>],
    plane_point: &Point3D<T>,
    plane_normal: &Vec3<T>,
    sun_dir: &Vec3<T>,
) -> (r: Option<Vec<Point3D<T>>>)
    ensures
        r is Some <==> all_projected(casting_verts@, *plane_point, *plane_normal, *sun_dir),
        r is Some ==> r->Some_0@ == projections(
            casting_verts@,
            *plane_point,
            *plane_normal,
            *sun_dir,
        ),
{
    let mut projected: Vec<Point3D<T>> = Vec::new();
    let ghost all = projections(casting_verts@, *plane_point, *plane_normal, *sun_dir);
    for i in 0..casting_verts.len()
        invariant
            all == projections(casting_verts@, *plane_point, *plane_normal, *sun_dir),
            projected@ == all.take(i as int),
            forall|k: int|
                0 <= k < i ==> shadow_point(
                    #[trigger] casting_verts@[k],
                    *plane_point,
                    *plane_normal,
                    *sun_dir,
                ) is Some,
    {
        match project_point_onto_plane(&casting_verts[i], plane_point, plane_normal, sun_dir) {
            Some(p) => {
                projected.push(p);
                assert(projected@ =~= all.take(i + 1));
            },
            None => {
                assert(shadow_point(
                    casting_verts@[i as int],
                    *plane_point,
                    *plane_normal,
                    *sun_dir,
                ) is None);
                return None;
            },
        }
    }
    assert(projected@ =~= all);
    Some(projected)
}

/// The axes of the plane of a surface: the first vertex, the direction of the first
/// edge, and the direction at right angles to it.
pub open spec fn local_axes<T: Scalar>(
    vertices: Seq<Point3D<T>>,
    normal: Vec3<T>,
) -> (Point3D<T>, Vec3<T>, Vec3<T>) {
    let u = vertices[1].from(&vertices[0]).normalize();
    (vertices[0], u, normal.cross(&u).normalize())
}

/// A local coordinate system `(origin, u, v)` on a planar surface.
pub fn build_local_coords<T: Scalar>(
    vertices: &[Point3D<T>],
    normal: &Vec3<T>,
) -> (r: (Point3D<T>, Vec3<T>, Vec3<T>))
    requires
        vertices@.len() >= 2,
    ensures
        r == local_axes(vertices@, *normal),
{
    let origin = vertices[0];
    let u = vertices[1].from(&origin).normalize();
    let v = normal.cross(&u).normalize();
    (origin, u, v)
}

/// The coordinates of a point of the surface plane.
#[verifier::allow_in_spec]
pub fn to_local_2d<T: Scalar>(
    point: &Point3D<T>,
    origin: &Point3D<T>,
    u: &Vec3<T>,
    v: &Vec3<T>,
) -> Point2D<T>
    returns
        (Point2D { x: point.from(origin).dot(u), y: point.from(origin).dot(v) }),
{
    let d = point.from(origin);
    Point2D { x: d.dot(u), y: d.dot(v) }
}

/// The coordinates of each vertex in the axes `(origin, u, v)`.
pub open spec fn flattened<T: Scalar>(
    vertices: Seq<Point3D<T>>,
    axes: (Point3D<T>, Vec3<T>, Vec3<T>),
) -> Seq<Point2D<T>> {
    Seq::new(vertices.len(), |i: int| to_local_2d(&vertices[i], &axes.0, &axes.1, &axes.2))
}

fn flatten<T: Scalar>(
    vertices: &[Point3D<T>],
    axes: &(Point3D<T>, Vec3<T>, Vec3<T>),
) -> (r: Vec<Point2D<T>>)
    ensures
        r@ == flattened(vertices@, *axes),
{
    let mut flat: Vec<Point2D<T>> = Vec::new();
    for i in 0..vertices.len()
        invariant
            flat@ == flattened(vertices@, *axes).take(i as int),
    {
        flat.push(to_local_2d(&vertices[i], &axes.0, &axes.1, &axes.2));
        assert(flat@ =~= flattened(vertices@, *axes).take(i + 1));
    }
    assert(flat@ =~= flattened(vertices@, *axes));
    flat
}

// ---------------------------------------------------------------------------
// Overhangs and fins

/// The corners of an overhang, counterclockwise seen from below: along the wall from left
/// to right, then outwards and back to the left. A window gives its corners as bottom
/// left, bottom right, top right, top left.
pub open spec fn overhang_corners<T: Scalar>(
    window: Seq<Point3D<T>>,
    overhang: OverhangInput<T>,
    wall_outward: Vec3<T>,
) -> Seq<Point3D<T>> {
    let horizontal = window[1].from(&window[0]).normalize();
    let vertical = window[3].from(&window[0]).normalize();
    let outward = wall_outward.normalize();
    let base_left = window[3].along(&vertical, overhang.offset_above).against(
        &horizontal,
        overhang.left_extension,
    );
    let base_right = window[2].along(&vertical, overhang.offset_above).along(
        &horizontal,
        overhang.right_extension,
    );
    seq![
        base_left,
        base_right,
        base_right.along(&outward, overhang.depth),
        base_left.along(&outward, overhang.depth),
    ]
}

/// The vertices of a horizontal overhang above a window; its normal points down.
pub fn generate_overhang_vertices<T: Scalar>(
    window_verts: &[Point3D<T>],
    overhang: &OverhangInput<T>,
    wall_outward: &Vec3<T>,
) -> (r: Vec<Point3D<T>>)
    requires
        window_verts@.len() >= 4,
    ensures
        r@ == overhang_corners(window_verts@, *overhang, *wall_outward),
{
    let bl = window_verts[0];
    let br = window_verts[1];
    let tr = window_verts[2];
    let tl = window_verts[3];
    let horizontal = br.from(&bl).normalize();
    let vertical = tl.from(&bl).normalize();
    let outward = wall_outward.normalize();
    let base_left = tl.along(&vertical, overhang.offset_above).against(
        &horizontal,
        overhang.left_extension,
    );
    let base_right = tr.along(&vertical, overhang.offset_above).along(
        &horizontal,
        overhang.right_extension,
    );
    let outer_left = base_left.along(&outward, overhang.depth);
    let outer_right = base_right.along(&outward, overhang.depth);
    let corners = vec![base_left, base_right, outer_right, outer_left];
    assert(corners@ =~= overhang_corners(window_verts@, *overhang, *wall_outward));
    corners
}

/// The corners of a fin, counterclockwise seen from its outer face, the one that looks
/// away from the window: the left fin goes up along its outer edge and down along the
/// wall, and the right fin the other way round.
pub open spec fn fin_corners<T: Scalar>(
    window: Seq<Point3D<T>>,
    fin: FinInput<T>,
    wall_outward: Vec3<T>,
    side: FinSide,
) -> Seq<Point3D<T>> {
    let vertical = window[3].from(&window[0]).normalize();
    let outward = wall_outward.normalize();
    let (low, high) = if side == FinSide::Left {
        (window[0], window[3])
    } else {
        (window[1], window[2])
    };
    let base_bottom = low.against(&vertical, fin.extend_below);
    let base_top = high.along(&vertical, fin.extend_above);
    let outer_bottom = base_bottom.along(&outward, fin.depth);
    let outer_top = base_top.along(&outward, fin.depth);
    if side == FinSide::Left {
        seq![outer_bottom, outer_top, base_top, base_bottom]
    } else {
        seq![base_bottom, base_top, outer_top, outer_bottom]
    }
}

/// The vertices of a vertical fin beside a window; its normal points away from the window.
pub fn generate_fin_vertices<T: Scalar>(
    window_verts: &[Point3D<T>],
    fin: &FinInput<T>,
    wall_outward: &Vec3<T>,
    side: FinSide,
) -> (r: Vec<Point3D<T>>)
    requires
        window_verts@.len() >= 4,
    ensures
        r@ == fin_corners(window_verts@, *fin, *wall_outward, side),
{
    let vertical = window_verts[3].from(&window_verts[0]).normalize();
    let outward = wall_outward.normalize();
    let (low, high) = match side {
        FinSide::Left => (window_verts[0], window_verts[3]),
        FinSide::Right => (window_verts[1], window_verts[2]),
    };
    let base_bottom = low.against(&vertical, fin.extend_below);
    let base_top = high.along(&vertical, fin.extend_above);
    let outer_bottom = base_bottom.along(&outward, fin.depth);
    let outer_top = base_top.along(&outward, fin.depth);
    let corners = match side {
        FinSide::Left => vec![outer_bottom, outer_top, base_top, base_bottom],
        FinSide::Right => vec![base_bottom, base_top, outer_top, outer_bottom],
    };
    assert(corners@ =~= fin_corners(window_verts@, *fin, *wall_outward, side));
    corners
}

// ---------------------------------------------------------------------------
// Shading polygons from their inputs

fn copy_points<T: Scalar>(vertices: &[Point3D<T>]) -> (r: Vec<Point3D<T>>)
    ensures
        r@ == vertices@,
{
    let mut copy: Vec<Point3D<T>> = Vec::new();
    for i in 0..vertices.len()
        invariant
            copy@ == vertices@.take(i as int),
    {
        copy.push(vertices[i]);
        assert(copy@ =~= vertices@.take(i + 1));
    }
    assert(copy@ =~= vertices@);
    copy
}

/// `polygon` is what a shading surface with these vertices resolves to.
pub open spec fn resolves_to<T: Scalar>(
    polygon: ShadingPolygon<T>,
    name: Seq<char>,
    vertices: Seq<Point3D<T>>,
    solar_transmittance: T,
) -> bool {
    &&& polygon.name@ == name
    &&& polygon.vertices@ == vertices
    &&& polygon.normal == geometry::newell_sum(vertices, vertices.len()).normalize()
    &&& polygon.solar_transmittance == solar_transmittance
}

/// The inputs that have enough vertices to be a polygon, in order.
pub open spec fn usable_surfaces<T: Scalar>(
    inputs: Seq<ShadingSurfaceInput<T>>,
) -> Seq<ShadingSurfaceInput<T>> {
    inputs.filter(|s: ShadingSurfaceInput<T>| s.vertices@.len() >= 3)
}

/// Resolves explicit shading surfaces; those with fewer than three vertices are
/// left out.
pub fn resolve_shading_surfaces<T: Scalar>(inputs: &[ShadingSurfaceInput<T>]) -> (r: Vec<
    ShadingPolygon<T>,
>)
    ensures
        r@.len() == usable_surfaces(inputs@).len(),
        forall|i: int|
            0 <= i < r@.len() ==> {
                let input = usable_surfaces(inputs@)[i];
                resolves_to(
                    #[trigger] r@[i],
                    input.name@,
                    input.vertices@,
                    input.solar_transmittance,
                )
            },
{
    let mut polygons: Vec<ShadingPolygon<T>> = Vec::new();
    let ghost keep = |s: ShadingSurfaceInput<T>| s.vertices@.len() >= 3;
    assert(inputs@.take(0).filter(keep).len() == 0) by {
        reveal(Seq::filter);
    }
    for i in 0..inputs.len()
        invariant
            keep == (|s: ShadingSurfaceInput<T>| s.vertices@.len() >= 3),
            polygons@.len() == inputs@.take(i as int).filter(keep).len(),
            forall|k: int|
                0 <= k < polygons@.len() ==> {
                    let input = inputs@.take(i as int).filter(keep)[k];
                    resolves_to(
                        #[trigger] polygons@[k],
                        input.name@,
                        input.vertices@,
                        input.solar_transmittance,
                    )
                },
    {
        let surface = &inputs[i];
        proof {
            assert(inputs@.take(i + 1).drop_last() =~= inputs@.take(i as int));
            assert(inputs@.take(i + 1).last() == inputs@[i as int]);
            reveal(Seq::filter);
        }
        if surface.vertices.len() >= 3 {
            let normal = newell_normal(surface.vertices.as_slice()).normalize();
            polygons.push(
                ShadingPolygon {
                    name: surface.name.clone(),
                    vertices: copy_points(surface.vertices.as_slice()),
                    normal,
                    solar_transmittance: surface.solar_transmittance,
                },
            );
        }
    }
    assert(inputs@.take(inputs@.len() as int) =~= inputs@);
    polygons
}

/// A building surface as a caster of shadows: opaque, under its own name with the
/// prefix `self:`. Fewer than three vertices make no polygon.
pub fn surface_to_shading_polygon<T: Scalar>(
    name: &str,
    vertices: &[Point3D<T>],
) -> (r: Option<ShadingPolygon<T>>)
    ensures
        r is Some <==> vertices@.len() >= 3,
        r is Some ==> resolves_to(r->Some_0, "self:"@ + name@, vertices@, num(0)),
{
    if vertices.len() < 3 {
        return None;
    }
    let normal = newell_normal(vertices).normalize();
    Some(
        ShadingPolygon {
            name: "self:".to_owned().concat(name),
            vertices: copy_points(vertices),
            normal,
            solar_transmittance: num(0),
        },
    )
}

// ---------------------------------------------------------------------------
// Sample points on a surface

/// The smallest rectangle, along the axes, around some points.
#[derive(Clone, Copy, Debug)]
pub struct Extent<T> {
    pub u_min: T,
    pub u_max: T,
    pub v_min: T,
    pub v_max: T,
}

/// The extent of the first `points` points.
pub open spec fn extent_of<T: Scalar>(flat: Seq<Point2D<T>>, points: nat) -> Extent<T>
    decreases points,
{
    if points == 0 {
        Extent {
            u_min: T::largest(),
            u_max: T::largest().opposite(),
            v_min: T::largest(),
            v_max: T::largest().opposite(),
        }
    } else {
        let rest = extent_of(flat, (points - 1) as nat);
        let p = flat[points - 1];
        Extent {
            u_min: least(rest.u_min, p.x),
            u_max: most(rest.u_max, p.x),
            v_min: least(rest.v_min, p.y),
            v_max: most(rest.v_max, p.y),
        }
    }
}

fn extent<T: Scalar>(flat: &Vec<Point2D<T>>) -> (r: Extent<T>)
    ensures
        r == extent_of(flat@, flat@.len()),
{
    let mut e: Extent<T> = Extent {
        u_min: T::max_value(),
        u_max: negated(T::max_value()),
        v_min: T::max_value(),
        v_max: negated(T::max_value()),
    };
    for i in 0..flat.len()
        invariant
            e == extent_of(flat@, i as nat),
    {
        let p = flat[i];
        e = Extent {
            u_min: least(e.u_min, p.x),
            u_max: most(e.u_max, p.x),
            v_min: least(e.v_min, p.y),
            v_max: most(e.v_max, p.y),
        };
    }
    e
}

/// The middle of cell `index` when the way from `low` to `high` is cut into `cells`.
#[verifier::allow_in_spec]
pub fn cell_middle<T: Scalar>(low: T, high: T, index: usize, cells: usize) -> T
    returns
        low.sum(
            T::whole(index as nat).sum(T::fraction(1, 2)).quotient(T::whole(cells as nat)).product(
                high.difference(low),
            ),
        ),
{
    plus(low, times(over(plus(count(index), lit(1, 2)), count(cells)), minus(high, low)))
}

/// Sample `k` of a grid of `cells` by `cells` points over an extent, column by column.
pub open spec fn grid_point<T: Scalar>(e: Extent<T>, cells: usize, k: nat) -> Point2D<T> {
    Point2D {
        x: cell_middle(e.u_min, e.u_max, (k / cells as nat) as usize, cells),
        y: cell_middle(e.v_min, e.v_max, (k % cells as nat) as usize, cells),
    }
}

fn grid_sample<T: Scalar>(e: &Extent<T>, cells: usize, k: usize) -> (r: Point2D<T>)
    requires
        cells > 0,
    ensures
        r == grid_point(*e, cells, k as nat),
{
    Point2D {
        x: cell_middle(e.u_min, e.u_max, k / cells, cells),
        y: cell_middle(e.v_min, e.v_max, k % cells, cells),
    }
}

// ---------------------------------------------------------------------------
// Sunlit fraction of a surface

/// The distance of a point from the plane of the receiver.
pub open spec fn plane_distance<T: Scalar>(
    point: Point3D<T>,
    recv_point: Point3D<T>,
    recv_normal: Vec3<T>,
) -> T {
    absolute(point.from(&recv_point).dot(&recv_normal))
}

/// The distances of the first `points` vertices from the plane of the receiver, added up.
pub open spec fn total_distance<T: Scalar>(
    vertices: Seq<Point3D<T>>,
    recv_point: Point3D<T>,
    recv_normal: Vec3<T>,
    points: nat,
) -> T
    decreases points,
{
    if points == 0 {
        num(0)
    } else {
        plus(
            total_distance(vertices, recv_point, recv_normal, (points - 1) as nat),
            plane_distance(vertices[points - 1], recv_point, recv_normal),
        )
    }
}

/// A caster in the plane of the receiver casts no shadow on it. This keeps a wall
/// from shading the windows in it.
pub open spec fn stands_off<T: Scalar>(
    caster: ShadingPolygon<T>,
    recv_point: Point3D<T>,
    recv_normal: Vec3<T>,
) -> bool {
    let vertices = caster.vertices@;
    gt(absolute(caster.normal.dot(&recv_normal)), lit(99, 100)) ==> ge(
        over(
            total_distance(vertices, recv_point, recv_normal, vertices.len()),
            T::whole(vertices.len()),
        ),
        lit(1, 100),
    )
}

fn is_off_plane<T: Scalar>(
    caster: &ShadingPolygon<T>,
    recv_point: &Point3D<T>,
    recv_normal: &Vec3<T>,
) -> (r: bool)
    ensures
        r == stands_off(*caster, *recv_point, *recv_normal),
{
    if !gt(absolute(caster.normal.dot(recv_normal)), lit(99, 100)) {
        return true;
    }
    let n: usize = caster.vertices.len();
    let mut distance: T = num(0);
    for i in 0..n
        invariant
            n == caster.vertices@.len(),
            distance == total_distance(caster.vertices@, *recv_point, *recv_normal, i as nat),
    {
        distance = plus(
            distance,
            absolute(caster.vertices[i].from(recv_point).dot(recv_normal)),
        );
    }
    ge(over(distance, count(n)), lit(1, 100))
}

/// The outline that a caster's shadow has on the receiver, in the axes of the
/// receiver; nothing where it casts no shadow there.
pub open spec fn shadow_outline<T: Scalar>(
    caster: ShadingPolygon<T>,
    recv: Seq<Point3D<T>>,
    recv_normal: Vec3<T>,
    sun_dir: Vec3<T>,
) -> Option<Seq<Point2D<T>>> {
    let axes = local_axes(recv, recv_normal);
    let vertices = caster.vertices@;
    let outline = clipped(
        flattened(projections(vertices, recv[0], recv_normal, sun_dir), axes),
        flattened(recv, axes),
    );
    if stands_off(caster, recv[0], recv_normal) && all_projected(
        vertices,
        recv[0],
        recv_normal,
        sun_dir,
    ) && vertices.len() >= 3 && outline.len() >= 3 {
        Some(outline)
    } else {
        None
    }
}

/// The shadows of the first `n` casters, each with its caster's transmittance.
pub open spec fn shadows_on<T: Scalar>(
    casters: Seq<&ShadingPolygon<T>>,
    recv: Seq<Point3D<T>>,
    recv_normal: Vec3<T>,
    sun_dir: Vec3<T>,
    n: nat,
) -> Seq<(Seq<Point2D<T>>, T)>
    decreases n,
{
    if n == 0 {
        Seq::empty()
    } else {
        let rest = shadows_on(casters, recv, recv_normal, sun_dir, (n - 1) as nat);
        match shadow_outline(*casters[n - 1], recv, recv_normal, sun_dir) {
            Some(outline) => rest.push((outline, casters[n - 1].solar_transmittance)),
            None => rest,
        }
    }
}

/// The outlines and transmittances of shadows.
pub open spec fn shadow_views<T: Scalar>(shadows: Seq<Shadow<T>>) -> Seq<(Seq<Point2D<T>>, T)> {
    Seq::new(shadows.len(), |i: int| (shadows[i].outline@, shadows[i].transmittance))
}

fn cast_shadow<T: Scalar>(
    caster: &ShadingPolygon<T>,
    recv_verts: &[Point3D<T>],
    recv_normal: &Vec3<T>,
    sun_dir: &Vec3<T>,
    axes: &(Point3D<T>, Vec3<T>, Vec3<T>),
    recv_2d: &Vec<Point2D<T>>,
) -> (r: Option<Vec<Point2D<T>>>)
    requires
        recv_verts@.len() >= 2,
        *axes == local_axes(recv_verts@, *recv_normal),
        recv_2d@ == flattened(recv_verts@, *axes),
    ensures
        match r {
            Some(outline) => shadow_outline(*caster, recv_verts@, *recv_normal, *sun_dir) == Some(
                outline@,
            ),
            None => shadow_outline(*caster, recv_verts@, *recv_normal, *sun_dir) is None,
        },
{
    if !is_off_plane(caster, &recv_verts[0], recv_normal) {
        return None;
    }
    let projected = match project_polygon_onto_plane(
        caster.vertices.as_slice(),
        &recv_verts[0],
        recv_normal,
        sun_dir,
    ) {
        Some(p) => p,
        None => {
            return None;
        },
    };
    let cast_2d = flatten(projected.as_slice(), axes);
    if cast_2d.len() < 3 {
        return None;
    }
    let outline = sutherland_hodgman_clip(cast_2d.as_slice(), recv_2d.as_slice());
    if outline.len() < 3 {
        return None;
    }
    Some(outline)
}

/// The share of the beam that reaches a point: the product of the transmittances of
/// the shadows that cover it, among the first `n`.
pub open spec fn survival_at<T: Scalar>(
    point: Point2D<T>,
    shadows: Seq<(Seq<Point2D<T>>, T)>,
    n: nat,
) -> T
    decreases n,
{
    if n == 0 {
        num(1)
    } else {
        let rest = survival_at(point, shadows, (n - 1) as nat);
        if in_polygon(point, shadows[n - 1].0) {
            times(rest, shadows[n - 1].1)
        } else {
            rest
        }
    }
}

fn survival<T: Scalar>(point: &Point2D<T>, shadows: &Vec<Shadow<T>>) -> (r: T)
    requires
        forall|i: int| 0 <= i < shadows@.len() ==> (#[trigger] shadows@[i]).outline@.len() > 0,
    ensures
        r == survival_at(*point, shadow_views(shadows@), shadows@.len()),
{
    let mut share: T = num(1);
    for i in 0..shadows.len()
        invariant
            forall|i: int| 0 <= i < shadows@.len() ==> (#[trigger] shadows@[i]).outline@.len() > 0,
            share == survival_at(*point, shadow_views(shadows@), i as nat),
    {
        if point_in_polygon_2d(point, shadows[i].outline.as_slice()) {
            share = times(share, shadows[i].transmittance);
        }
    }
    share
}

/// How many samples a side of the grid has that a sunlit fraction is sampled on.
pub const SUNLIT_GRID: usize = 8;

/// How many of the first `samples` grid points lie on the receiver.
pub open spec fn samples_inside<T: Scalar>(recv_2d: Seq<Point2D<T>>, samples: nat) -> nat
    decreases samples,
{
    if samples == 0 {
        0
    } else {
        let rest = samples_inside(recv_2d, (samples - 1) as nat);
        let point = grid_point(
            extent_of(recv_2d, recv_2d.len()),
            SUNLIT_GRID,
            (samples - 1) as nat,
        );
        if in_polygon(point, recv_2d) {
            rest + 1
        } else {
            rest
        }
    }
}

/// The beam shares of those of the first `samples` grid points that lie on the
/// receiver, added up.
pub open spec fn sunlit_sum<T: Scalar>(
    recv_2d: Seq<Point2D<T>>,
    shadows: Seq<(Seq<Point2D<T>>, T)>,
    samples: nat,
) -> T
    decreases samples,
{
    if samples == 0 {
        num(0)
    } else {
        let rest = sunlit_sum(recv_2d, shadows, (samples - 1) as nat);
        let point = grid_point(
            extent_of(recv_2d, recv_2d.len()),
            SUNLIT_GRID,
            (samples - 1) as nat,
        );
        if in_polygon(point, recv_2d) {
            plus(rest, survival_at(point, shadows, shadows.len()))
        } else {
            rest
        }
    }
}

/// The sunlit fraction by sampling: the mean beam share of the grid points on the
/// receiver.
pub open spec fn sampled_fraction<T: Scalar>(
    recv_2d: Seq<Point2D<T>>,
    shadows: Seq<(Seq<Point2D<T>>, T)>,
) -> T {
    let samples = (SUNLIT_GRID * SUNLIT_GRID) as nat;
    if samples_inside(recv_2d, samples) == 0 {
        num(1)
    } else {
        over(
            sunlit_sum(recv_2d, shadows, samples),
            T::whole(samples_inside(recv_2d, samples)),
        )
    }
}

fn sample_fraction<T: Scalar>(recv_2d: &Vec<Point2D<T>>, shadows: &Vec<Shadow<T>>) -> (r: T)
    requires
        recv_2d@.len() > 0,
        forall|i: int| 0 <= i < shadows@.len() ==> (#[trigger] shadows@[i]).outline@.len() > 0,
    ensures
        r == sampled_fraction(recv_2d@, shadow_views(shadows@)),
{
    let e = extent(recv_2d);
    let mut n_total: usize = 0;
    let mut sunlit: T = num(0);
    for k in 0..SUNLIT_GRID * SUNLIT_GRID
        invariant
            recv_2d@.len() > 0,
            e == extent_of(recv_2d@, recv_2d@.len()),
            forall|i: int| 0 <= i < shadows@.len() ==> (#[trigger] shadows@[i]).outline@.len() > 0,
            n_total <= k,
            n_total == samples_inside(recv_2d@, k as nat),
            sunlit == sunlit_sum(recv_2d@, shadow_views(shadows@), k as nat),
    {
        let point = grid_sample(&e, SUNLIT_GRID, k);
        if point_in_polygon_2d(&point, recv_2d.as_slice()) {
            n_total += 1;
            sunlit = plus(sunlit, survival(&point, shadows));
        }
    }
    if n_total == 0 {
        num(1)
    } else {
        over(sunlit, count(n_total))
    }
}

/// The sunlit fraction that [`calculate_sunlit_fraction`] computes.
///
/// A receiver too small to matter, or without shadows on it, is fully sunlit; one
/// with the sun behind it is fully shaded. A single opaque shadow is measured by its
/// area, and anything else by sampling, so that shadows which overlap count once.
pub open spec fn sunlit_fraction<T: Scalar>(
    recv: Seq<Point3D<T>>,
    recv_normal: Vec3<T>,
    casters: Seq<&ShadingPolygon<T>>,
    sun_dir: Vec3<T>,
) -> T {
    let area = geometry::area_of(recv);
    let shadows = shadows_on(casters, recv, recv_normal, sun_dir, casters.len());
    if recv.len() < 3 || lt(area, lit(1, 1_000_000)) {
        num(1)
    } else if ge(sun_dir.dot(&recv_normal), num(0)) {
        num(0)
    } else if shadows.len() == 0 {
        num(1)
    } else if shadows.len() == 1 && same(shadows[0].1, num(0)) {
        clamp(minus(num(1), over(plane_area(shadows[0].0), area)), num(0), num(1))
    } else {
        sampled_fraction(flattened(recv, local_axes(recv, recv_normal)), shadows)
    }
}

/// The sunlit fraction of a receiving surface, from 0 (fully shaded) to 1.
///
/// `recv_normal` is the outward unit normal of the receiver, `casters` are all other
/// polygons that may shade it, and `sun_dir` points from the sun to the ground. Only
/// beam radiation is to be multiplied by the fraction.
pub fn calculate_sunlit_fraction<T: Scalar>(
    recv_verts: &[Point3D<T>],
    recv_normal: &Vec3<T>,
    casters: &[&ShadingPolygon<T>],
    sun_dir: &Vec3<T>,
) -> (r: T)
    ensures
        r == sunlit_fraction(recv_verts@, *recv_normal, casters@, *sun_dir),
{
    if recv_verts.len() < 3 {
        return num(1);
    }
    let recv_area = polygon_area(recv_verts);
    if lt(recv_area, lit(1, 1_000_000)) {
        return num(1);
    }
    if ge(sun_dir.dot(recv_normal), num(0)) {
        return num(0);
    }
    let axes = build_local_coords(recv_verts, recv_normal);
    let recv_2d = flatten(recv_verts, &axes);
    let mut shadows: Vec<Shadow<T>> = Vec::new();
    for i in 0..casters.len()
        invariant
            recv_verts@.len() >= 3,
            axes == local_axes(recv_verts@, *recv_normal),
            recv_2d@ == flattened(recv_verts@, axes),
            shadow_views(shadows@) == shadows_on(
                casters@,
                recv_verts@,
                *recv_normal,
                *sun_dir,
                i as nat,
            ),
            forall|k: int| 0 <= k < shadows@.len() ==> (#[trigger] shadows@[k]).outline@.len() >= 3,
    {
        let ghost before = shadow_views(shadows@);
        match cast_shadow(casters[i], recv_verts, recv_normal, sun_dir, &axes, &recv_2d) {
            Some(outline) => {
                let ghost pair = (outline@, casters@[i as int].solar_transmittance);
                shadows.push(Shadow { outline, transmittance: casters[i].solar_transmittance });
                assert(shadow_views(shadows@) =~= before.push(pair));
            },
            None => {},
        }
    }
    assert(shadow_views(shadows@).len() == shadows@.len());
    if shadows.len() == 0 {
        return num(1);
    }
    assert(shadow_views(shadows@)[0] == (shadows@[0].outline@, shadows@[0].transmittance));
    if shadows.len() == 1 && same(shadows[0].transmittance, num(0)) {
        let shadow_area = polygon_area_2d(shadows[0].outline.as_slice());
        return clamp(minus(num(1), over(shadow_area, recv_area)), num(0), num(1));
    }
    sample_fraction(&recv_2d, &shadows)
}

// ---------------------------------------------------------------------------
// Diffuse radiation from the sky

/// `point` lies on the inner side of the edge from `a` to `b` of a polygon with the
/// given normal.
pub open spec fn inner_side<T: Scalar>(
    point: Point3D<T>,
    a: Point3D<T>,
    b: Point3D<T>,
    normal: Vec3<T>,
) -> bool {
    !lt(b.from(&a).cross(&point.from(&a)).dot(&normal), negated(lit(1, 1_000_000)))
}

/// A point of the plane of a convex polygon is inside it where it lies on the inner
/// side of every edge.
pub open spec fn inside_convex<T: Scalar>(
    point: Point3D<T>,
    verts: Seq<Point3D<T>>,
    normal: Vec3<T>,
) -> bool {
    forall|i: int|
        0 <= i < verts.len() ==> inner_side(
            point,
            #[trigger] verts[i],
            verts[geometry::after_on_ring(i, verts.len() as int)],
            normal,
        )
}

pub fn point_in_polygon_3d<T: Scalar>(
    point: &Point3D<T>,
    verts: &[Point3D<T>],
    normal: &Vec3<T>,
) -> (r: bool)
    ensures
        r == inside_convex(*point, verts@, *normal),
{
    let n: usize = verts.len();
    for i in 0..n
        invariant
            n == verts@.len(),
            forall|k: int|
                0 <= k < i ==> inner_side(
                    *point,
                    #[trigger] verts@[k],
                    verts@[geometry::after_on_ring(k, n as int)],
                    *normal,
                ),
    {
        let a = verts[i];
        let b = verts[following(i, n)];
        if lt(b.from(&a).cross(&point.from(&a)).dot(normal), negated(lit(1, 1_000_000))) {
            assert(!inner_side(
                *point,
                verts@[i as int],
                verts@[geometry::after_on_ring(i as int, n as int)],
                *normal,
            ));
            return false;
        }
    }
    true
}

/// A ray hits a convex polygon: it is not parallel to the plane, the plane lies
/// ahead, and the point where it meets the plane is inside.
pub open spec fn ray_hits<T: Scalar>(
    origin: Point3D<T>,
    dir: Vec3<T>,
    verts: Seq<Point3D<T>>,
    normal: Vec3<T>,
) -> bool {
    let denom = normal.dot(&dir);
    let t = over(normal.dot(&verts[0].from(&origin)), denom);
    &&& verts.len() >= 3
    &&& !lt(absolute(denom), lit(1, 10_000_000_000))
    &&& !lt(t, lit(1, 1000))
    &&& inside_convex(origin.along(&dir, t), verts, normal)
}

pub fn ray_intersects_polygon<T: Scalar>(
    origin: &Point3D<T>,
    dir: &Vec3<T>,
    poly_verts: &[Point3D<T>],
    poly_normal: &Vec3<T>,
) -> (r: bool)
    ensures
        r == ray_hits(*origin, *dir, poly_verts@, *poly_normal),
{
    if poly_verts.len() < 3 {
        return false;
    }
    let denom = poly_normal.dot(dir);
    if lt(absolute(denom), lit(1, 10_000_000_000)) {
        return false;
    }
    let t = over(poly_normal.dot(&poly_verts[0].from(origin)), denom);
    if lt(t, lit(1, 1000)) {
        return false;
    }
    let hit = origin.along(dir, t);
    point_in_polygon_3d(&hit, poly_verts, poly_normal)
}

/// Some caster stands between a point and the sky in direction `dir`.
pub open spec fn sky_blocked<T: Scalar>(
    point: Point3D<T>,
    dir: Vec3<T>,
    casters: Seq<&ShadingPolygon<T>>,
) -> bool {
    exists|i: int|
        0 <= i < casters.len() && ray_hits(
            point,
            dir,
            (#[trigger] casters[i]).vertices@,
            casters[i].normal,
        )
}

fn is_blocked<T: Scalar>(
    point: &Point3D<T>,
    dir: &Vec3<T>,
    casters: &[&ShadingPolygon<T>],
) -> (r: bool)
    ensures
        r == sky_blocked(*point, *dir, casters@),
{
    for i in 0..casters.len()
        invariant
            forall|k: int|
                0 <= k < i ==> !ray_hits(
                    *point,
                    *dir,
                    (#[trigger] casters@[k]).vertices@,
                    casters@[k].normal,
                ),
    {
        let caster = casters[i];
        if ray_intersects_polygon(point, dir, caster.vertices.as_slice(), &caster.normal) {
            assert(ray_hits(
                *point,
                *dir,
                casters@[i as int].vertices@,
                casters@[i as int].normal,
            ));
            return true;
        }
    }
    false
}

/// A point of the plane of a surface in world coordinates.
#[verifier::allow_in_spec]
pub fn from_local_2d<T: Scalar>(
    point: &Point2D<T>,
    origin: &Point3D<T>,
    u: &Vec3<T>,
    v: &Vec3<T>,
) -> Point3D<T>
    returns
        origin.along(u, point.x).along(v, point.y),
{
    origin.along(u, point.x).along(v, point.y)
}

/// Those of the first `samples` points of a grid over the receiver that lie on it,
/// in world coordinates.
pub open spec fn surface_samples<T: Scalar>(
    recv_2d: Seq<Point2D<T>>,
    axes: (Point3D<T>, Vec3<T>, Vec3<T>),
    cells: usize,
    samples: nat,
) -> Seq<Point3D<T>>
    decreases samples,
{
    if samples == 0 {
        Seq::empty()
    } else {
        let rest = surface_samples(recv_2d, axes, cells, (samples - 1) as nat);
        let point = grid_point(extent_of(recv_2d, recv_2d.len()), cells, (samples - 1) as nat);
        if in_polygon(point, recv_2d) {
            rest.push(from_local_2d(&point, &axes.0, &axes.1, &axes.2))
        } else {
            rest
        }
    }
}

fn sample_surface<T: Scalar>(
    recv_2d: &Vec<Point2D<T>>,
    axes: &(Point3D<T>, Vec3<T>, Vec3<T>),
    cells: usize,
) -> (r: Vec<Point3D<T>>)
    requires
        recv_2d@.len() > 0,
        0 < cells <= 100,
    ensures
        r@ == surface_samples(recv_2d@, *axes, cells, (cells * cells) as nat),
{
    let e = extent(recv_2d);
    let mut points: Vec<Point3D<T>> = Vec::new();
    assert(cells * cells <= 10_000) by (nonlinear_arith)
        requires
            0 < cells <= 100,
    ;
    for k in 0..cells * cells
        invariant
            recv_2d@.len() > 0,
            0 < cells <= 100,
            e == extent_of(recv_2d@, recv_2d@.len()),
            points@ == surface_samples(recv_2d@, *axes, cells, k as nat),
    {
        let point = grid_sample(&e, cells, k);
        if point_in_polygon_2d(&point, recv_2d.as_slice()) {
            points.push(from_local_2d(&point, &axes.0, &axes.1, &axes.2));
        }
    }
    points
}

/// How many of the first `n` points see the sky in direction `dir`.
pub open spec fn unblocked<T: Scalar>(
    points: Seq<Point3D<T>>,
    dir: Vec3<T>,
    casters: Seq<&ShadingPolygon<T>>,
    n: nat,
) -> nat
    decreases n,
{
    if n == 0 {
        0
    } else {
        let rest = unblocked(points, dir, casters, (n - 1) as nat);
        if sky_blocked(points[n - 1], dir, casters) {
            rest
        } else {
            rest + 1
        }
    }
}

fn count_unblocked<T: Scalar>(
    points: &Vec<Point3D<T>>,
    dir: &Vec3<T>,
    casters: &[&ShadingPolygon<T>],
) -> (r: usize)
    ensures
        r == unblocked(points@, *dir, casters@, points@.len()),
        r <= points@.len(),
{
    let mut seen: usize = 0;
    for i in 0..points.len()
        invariant
            seen <= i,
            seen == unblocked(points@, *dir, casters@, i as nat),
    {
        if !is_blocked(&points[i], dir, casters) {
            seen += 1;
        }
    }
    seen
}

/// How many steps around the horizon a band of sky is cut into.
pub const AZIMUTH_STEPS: usize = 24;

/// The step between sky patches around the horizon.
#[verifier::allow_in_spec]
pub fn azimuth_step<T: Scalar>() -> T
    returns
        T::fraction(2, 1).product(pi()).quotient(T::whole(AZIMUTH_STEPS as nat)),
{
    over(times(num(2), pi()), count(AZIMUTH_STEPS))
}

/// The altitude of band `i` of the sky: bands are `d_phi` high and the first one is
/// centred half a step above the horizon.
#[verifier::allow_in_spec]
pub fn band_altitude<T: Scalar>(i: usize, d_phi: T) -> T
    returns
        T::fraction(1, 2).product(d_phi).sum(T::whole(i as nat).product(d_phi)),
{
    plus(times(lit(1, 2), d_phi), times(count(i), d_phi))
}

/// The direction towards sky patch `k`, counted around each band from the lowest up.
pub open spec fn patch_direction<T: Scalar>(d_phi: T, k: nat) -> Vec3<T> {
    let phi = band_altitude((k / AZIMUTH_STEPS as nat) as usize, d_phi);
    let theta = times(count((k % AZIMUTH_STEPS as nat) as usize), azimuth_step());
    Vec3 {
        x: times(cosine(phi), cosine(theta)),
        y: times(cosine(phi), sine(theta)),
        z: sine(phi),
    }
}

/// The weight of sky patch `k`: its solid angle, projected onto the receiver.
pub open spec fn patch_weight<T: Scalar>(d_phi: T, recv_normal: Vec3<T>, k: nat) -> T {
    let phi = band_altitude((k / AZIMUTH_STEPS as nat) as usize, d_phi);
    times(
        times(times(cosine(phi), d_phi), azimuth_step()),
        patch_direction(d_phi, k).dot(&recv_normal),
    )
}

/// Sky patch `k` is in front of the receiver.
pub open spec fn patch_in_front<T: Scalar>(d_phi: T, recv_normal: Vec3<T>, k: nat) -> bool {
    !le(patch_direction(d_phi, k).dot(&recv_normal), num(0))
}

/// The radiation that the first `patches` sky patches send to the receiver, with
/// everything in the way and with nothing in the way.
pub open spec fn sky_sums<T: Scalar>(
    points: Seq<Point3D<T>>,
    recv_normal: Vec3<T>,
    casters: Seq<&ShadingPolygon<T>>,
    d_phi: T,
    patches: nat,
) -> (T, T)
    decreases patches,
{
    if patches == 0 {
        (num(0), num(0))
    } else {
        let k = (patches - 1) as nat;
        let (with, without) = sky_sums(points, recv_normal, casters, d_phi, k);
        if patch_in_front(d_phi, recv_normal, k) {
            let weight = patch_weight(d_phi, recv_normal, k);
            let share = over(
                T::whole(unblocked(points, patch_direction(d_phi, k), casters, points.len())),
                T::whole(points.len()),
            );
            (plus(with, times(weight, share)), plus(without, weight))
        } else {
            (with, without)
        }
    }
}

/// The share of the radiation from `bands` bands of sky that reaches a receiver.
pub open spec fn diffuse_ratio<T: Scalar>(
    recv: Seq<Point3D<T>>,
    recv_normal: Vec3<T>,
    casters: Seq<&ShadingPolygon<T>>,
    cells: usize,
    bands: usize,
    d_phi: T,
) -> T {
    let axes = local_axes(recv, recv_normal);
    let points = surface_samples(flattened(recv, axes), axes, cells, (cells * cells) as nat);
    let (with, without) = sky_sums(
        points,
        recv_normal,
        casters,
        d_phi,
        (bands * AZIMUTH_STEPS) as nat,
    );
    if recv.len() < 3 || casters.len() == 0 || points.len() == 0 {
        num(1)
    } else if gt(without, lit(1, 10_000_000_000)) {
        clamp(over(with, without), num(0), num(1))
    } else {
        num(1)
    }
}

fn sky_ratio<T: Scalar>(
    recv_verts: &[Point3D<T>],
    recv_normal: &Vec3<T>,
    casters: &[&ShadingPolygon<T>],
    cells: usize,
    bands: usize,
    d_phi: T,
) -> (r: T)
    requires
        0 < cells <= 100,
        bands <= 100,
    ensures
        r == diffuse_ratio(recv_verts@, *recv_normal, casters@, cells, bands, d_phi),
{
    if recv_verts.len() < 3 || casters.len() == 0 {
        return num(1);
    }
    let axes = build_local_coords(recv_verts, recv_normal);
    let recv_2d = flatten(recv_verts, &axes);
    let points = sample_surface(&recv_2d, &axes, cells);
    if points.len() == 0 {
        return num(1);
    }
    let d_theta: T = azimuth_step();
    let mut with: T = num(0);
    let mut without: T = num(0);
    for k in 0..bands * AZIMUTH_STEPS
        invariant
            bands <= 100,
            d_theta == azimuth_step::<T>(),
            (with, without) == sky_sums(points@, *recv_normal, casters@, d_phi, k as nat),
    {
        let phi = band_altitude(k / AZIMUTH_STEPS, d_phi);
        let theta = times(count(k % AZIMUTH_STEPS), d_theta);
        let cos_phi = cosine(phi);
        let toward_sky = Vec3 {
            x: times(cos_phi, cosine(theta)),
            y: times(cos_phi, sine(theta)),
            z: sine(phi),
        };
        assert(toward_sky == patch_direction(d_phi, k as nat));
        let cos_aoi = toward_sky.dot(recv_normal);
        if !le(cos_aoi, num(0)) {
            let weight = times(times(times(cos_phi, d_phi), d_theta), cos_aoi);
            assert(weight == patch_weight(d_phi, *recv_normal, k as nat));
            without = plus(without, weight);
            let share = over(
                count(count_unblocked(&points, &toward_sky, casters)),
                count(points.len()),
            );
            with = plus(with, times(weight, share));
        }
    }
    if gt(without, lit(1, 10_000_000_000)) {
        clamp(over(with, without), num(0), num(1))
    } else {
        num(1)
    }
}

/// The share of isotropic sky diffuse radiation that reaches a surface past its
/// shading surfaces, from 0 to 1.
///
/// The hemisphere is cut into 6 bands of 24 patches, and each patch is tested from a
/// grid of 5 by 5 points on the surface, so that casters which overlap count once.
pub fn compute_diffuse_sky_shading_ratio<T: Scalar>(
    recv_verts: &[Point3D<T>],
    recv_normal: &Vec3<T>,
    casters: &[&ShadingPolygon<T>],
) -> (r: T)
    ensures
        r == diffuse_ratio(
            recv_verts@,
            *recv_normal,
            casters@,
            5,
            6,
            over(over(pi(), num(2)), num(6)),
        ),
{
    let d_phi = over(over(pi(), num(2)), num(6));
    sky_ratio(recv_verts, recv_normal, casters, 5, 6, d_phi)
}

/// The share of diffuse radiation from the horizon that reaches a surface past its
/// shading surfaces, from 0 to 1.
///
/// The lowest ten degrees of the sky are cut into 2 bands of 24 patches, tested from
/// a grid of 3 by 3 points.
pub fn compute_diffuse_horizon_shading_ratio<T: Scalar>(
    recv_verts: &[Point3D<T>],
    recv_normal: &Vec3<T>,
    casters: &[&ShadingPolygon<T>],
) -> (r: T)
    ensures
        r == diffuse_ratio(
            recv_verts@,
            *recv_normal,
            casters@,
            3,
            2,
            over(times(num(10), over(pi(), num(180))), num(2)),
        ),
{
    let d_phi = over(times(num(10), over(pi(), num(180))), num(2));
    sky_ratio(recv_verts, recv_normal, casters, 3, 2, d_phi)
}

} // verus!
