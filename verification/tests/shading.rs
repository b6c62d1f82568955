//! Shading geometry on double-precision numbers.
use openbse::geometry::{newell_normal, polygon_area, Point3D, Vec3};
use openbse::scalar::Scalar;
use openbse::shading::{
    build_local_coords, calculate_sunlit_fraction, compute_diffuse_horizon_shading_ratio,
    compute_diffuse_sky_shading_ratio, generate_fin_vertices, generate_overhang_vertices, is_inside,
    line_intersect_2d, point_in_polygon_2d, point_in_polygon_3d, polygon_area_2d,
    project_point_onto_plane, project_polygon_onto_plane, ray_intersects_polygon,
    resolve_shading_surfaces, surface_to_shading_polygon, sutherland_hodgman_clip, to_local_2d,
    FinInput, FinSide, OverhangInput, Point2D, ShadingCalculation, ShadingPolygon,
    ShadingSurfaceInput,
};

/// A double-precision number as the number type of the library.
#[derive(Clone, Copy, Debug, PartialEq)]
struct Double(f64);

impl Scalar for Double {
    fn add(self, other: Self) -> Self {
        Double(self.0 + other.0)
    }
    fn sub(self, other: Self) -> Self {
        Double(self.0 - other.0)
    }
    fn mul(self, other: Self) -> Self {
        Double(self.0 * other.0)
    }
    fn div(self, other: Self) -> Self {
        Double(self.0 / other.0)
    }
    fn neg(self) -> Self {
        Double(-self.0)
    }
    fn abs(self) -> Self {
        Double(self.0.abs())
    }
    fn sqrt(self) -> Self {
        Double(self.0.sqrt())
    }
    fn cos(self) -> Self {
        Double(self.0.cos())
    }
    fn sin(self) -> Self {
        Double(self.0.sin())
    }
    fn exp(self) -> Self {
        Double(self.0.exp())
    }
    fn lt(self, other: Self) -> bool {
        self.0 < other.0
    }
    fn le(self, other: Self) -> bool {
        self.0 <= other.0
    }
    fn eq(self, other: Self) -> bool {
        self.0 == other.0
    }
    fn min(self, other: Self) -> Self {
        Double(self.0.min(other.0))
    }
    fn max(self, other: Self) -> Self {
        Double(self.0.max(other.0))
    }
    fn ratio(numerator: i64, denominator: i64) -> Self {
        Double(numerator as f64 / denominator as f64)
    }
    fn count(n: usize) -> Self {
        Double(n as f64)
    }
    fn max_value() -> Self {
        Double(f64::MAX)
    }
    fn infinity() -> Self {
        Double(f64::INFINITY)
    }
    fn is_finite(self) -> bool {
        self.0.is_finite()
    }
}

/// `a` and `b` differ by at most `epsilon`, or by at most `max_relative` of the larger.
fn near(a: f64, b: f64, epsilon: f64, max_relative: f64) -> bool {
    let difference = (a - b).abs();
    difference <= epsilon || difference <= max_relative * a.abs().max(b.abs())
}

fn point2(x: f64, y: f64) -> Point2D<Double> {
    Point2D { x: Double(x), y: Double(y) }
}

fn point3(x: f64, y: f64, z: f64) -> Point3D<Double> {
    Point3D::new(Double(x), Double(y), Double(z))
}

fn vec3(x: f64, y: f64, z: f64) -> Vec3<Double> {
    Vec3::new(Double(x), Double(y), Double(z))
}

// Sutherland-Hodgman Clipping Tests

#[test]
fn test_clip_square_overlap() {
    // Two overlapping unit squares: one at (0,0)-(1,1), one at (0.5,0.5)-(1.5,1.5)
    let subject = vec![
        point2(0.5, 0.5),
        point2(1.5, 0.5),
        point2(1.5, 1.5),
        point2(0.5, 1.5),
    ];
    let clip = vec![
        point2(0.0, 0.0),
        point2(1.0, 0.0),
        point2(1.0, 1.0),
        point2(0.0, 1.0),
    ];
    let result = sutherland_hodgman_clip(&subject, &clip);
    let area = polygon_area_2d(&result);
    assert!(near(area.0, 0.25, f64::EPSILON, 0.01)); // 0.5 x 0.5
}

#[test]
fn test_clip_no_overlap() {
    let subject = vec![
        point2(2.0, 2.0),
        point2(3.0, 2.0),
        point2(3.0, 3.0),
        point2(2.0, 3.0),
    ];
    let clip = vec![
        point2(0.0, 0.0),
        point2(1.0, 0.0),
        point2(1.0, 1.0),
        point2(0.0, 1.0),
    ];
    let result = sutherland_hodgman_clip(&subject, &clip);
    assert!(result.is_empty() || polygon_area_2d(&result).0 < 1e-10);
}

#[test]
fn test_clip_full_containment() {
    // Subject fully inside clip -> result = subject
    let subject = vec![
        point2(0.25, 0.25),
        point2(0.75, 0.25),
        point2(0.75, 0.75),
        point2(0.25, 0.75),
    ];
    let clip = vec![
        point2(0.0, 0.0),
        point2(1.0, 0.0),
        point2(1.0, 1.0),
        point2(0.0, 1.0),
    ];
    let result = sutherland_hodgman_clip(&subject, &clip);
    let area = polygon_area_2d(&result);
    assert!(near(area.0, 0.25, f64::EPSILON, 0.01));
}

#[test]
fn test_clip_half_overlap() {
    // Subject covers right half of clip
    let subject = vec![
        point2(0.5, 0.0),
        point2(2.0, 0.0),
        point2(2.0, 1.0),
        point2(0.5, 1.0),
    ];
    let clip = vec![
        point2(0.0, 0.0),
        point2(1.0, 0.0),
        point2(1.0, 1.0),
        point2(0.0, 1.0),
    ];
    let result = sutherland_hodgman_clip(&subject, &clip);
    let area = polygon_area_2d(&result);
    assert!(near(area.0, 0.5, f64::EPSILON, 0.01));
}

#[test]
fn test_clip_triangle_in_square() {
    let subject = vec![
        point2(0.5, 0.0),
        point2(1.0, 0.5),
        point2(0.5, 1.0),
    ];
    let clip = vec![
        point2(0.0, 0.0),
        point2(1.0, 0.0),
        point2(1.0, 1.0),
        point2(0.0, 1.0),
    ];
    let result = sutherland_hodgman_clip(&subject, &clip);
    let area = polygon_area_2d(&result);
    // Triangle: base=1.0 (from y=0 to y=1), height=0.5 (from x=0.5 to x=1.0)
    assert!(near(area.0, 0.25, f64::EPSILON, 0.01));
}

// Polygon Area 2D Tests

#[test]
fn test_area_2d_unit_square() {
    let sq = vec![
        point2(0.0, 0.0),
        point2(1.0, 0.0),
        point2(1.0, 1.0),
        point2(0.0, 1.0),
    ];
    assert!(near(polygon_area_2d(&sq).0, 1.0, f64::EPSILON, 0.001));
}

#[test]
fn test_area_2d_triangle() {
    let tri = vec![
        point2(0.0, 0.0),
        point2(4.0, 0.0),
        point2(0.0, 3.0),
    ];
    assert!(near(polygon_area_2d(&tri).0, 6.0, f64::EPSILON, 0.001));
}

// Shadow Projection Tests

#[test]
fn test_project_point_straight_down() {
    // Sun directly overhead -> project straight down onto floor
    let sun_dir = vec3(0.0, 0.0, -1.0);
    let plane_point = point3(0.0, 0.0, 0.0);
    let plane_normal = vec3(0.0, 0.0, 1.0); // Floor facing up

    let point = point3(3.0, 4.0, 5.0);
    let projected = project_point_onto_plane(&point, &plane_point, &plane_normal, &sun_dir);
    assert!(projected.is_some());
    let p = projected.unwrap();
    assert!(near(p.x.0, 3.0, 0.001, f64::EPSILON));
    assert!(near(p.y.0, 4.0, 0.001, f64::EPSILON));
    assert!(near(p.z.0, 0.0, 0.001, f64::EPSILON));
}

#[test]
fn test_project_point_45_degree() {
    // Sun at 45 deg from south -> projects onto vertical south wall
    let sun_dir = vec3(0.0, 1.0, -1.0).normalize(); // from south-above toward north-below
    let plane_point = point3(0.0, 0.0, 0.0);
    let plane_normal = vec3(0.0, -1.0, 0.0); // South wall facing south

    let point = point3(4.0, -1.0, 2.0); // Overhang 1m south, 2m high
    let projected = project_point_onto_plane(&point, &plane_point, &plane_normal, &sun_dir);
    assert!(projected.is_some());
    let p = projected.unwrap();
    // At 45 deg, moving 1m south = 1m in y = 1m drop in z
    // Point at y=-1 projected to y=0 plane: t = 1/cos(45 deg) * something
    // sun_dir*normal = (0)(0) + (1)(-1) + (-1)(0) = -1/sqrt2 ~ -0.707
    // diff*normal = (0-4)(0) + (0-(-1))(-1) + (0-2)(0) = -1
    // t = -1 / (-0.707) ~ 1.414
    // projected_y = -1 + 1.414 * 0.707 ~ 0.0 
    // projected_z = 2 + 1.414 * (-0.707) ~ 1.0
    assert!(near(p.y.0, 0.0, 0.01, f64::EPSILON));
    assert!(near(p.z.0, 1.0, 0.01, f64::EPSILON));
}

// Sunlit Fraction Tests

#[test]
fn test_sunlit_no_casters() {
    // No casting surfaces -> fully sunlit
    let recv = vec![
        point3(0.0, 0.0, 0.0),
        point3(8.0, 0.0, 0.0),
        point3(8.0, 0.0, 2.7),
        point3(0.0, 0.0, 2.7),
    ];
    let normal = newell_normal(&recv).normalize();
    let sun_dir = vec3(0.0, 1.0, -1.0).normalize(); // from south-above

    let sf = calculate_sunlit_fraction(&recv, &normal, &[], &sun_dir);
    assert!(near(sf.0, 1.0, 0.001, f64::EPSILON));
}

#[test]
fn test_sunlit_with_overhang() {
    // South wall (2m tall, 8m wide) with 1m overhang at top
    // Sun at 45 deg altitude from due south
    let recv = vec![
        point3(0.0, 0.0, 0.0),
        point3(8.0, 0.0, 0.0),
        point3(8.0, 0.0, 2.0),
        point3(0.0, 0.0, 2.0),
    ];
    let recv_normal = vec3(0.0, -1.0, 0.0); // facing south

    // Horizontal overhang: 8m wide, 1m deep, at z=2.0 (top of wall)
    let overhang_verts = vec![
        point3(0.0, 0.0, 2.0),
        point3(0.0, -1.0, 2.0),
        point3(8.0, -1.0, 2.0),
        point3(8.0, 0.0, 2.0),
    ];
    let ovh = ShadingPolygon {
        name: "overhang".into(),
        vertices: overhang_verts,
        normal: vec3(0.0, 0.0, -1.0), // faces down
        solar_transmittance: Double(0.0),
    };

    // Sun at 45 deg from due south -> shadow drops 1m down the wall
    // (overhang depth 1m x tan(90 deg-45 deg) = 1m shadow height)
    // Wall is 2m tall -> 1m shaded, 1m sunlit -> sunlit_fraction ~ 0.5
    let sun_dir = vec3(0.0, 1.0, -1.0).normalize();

    let casters: Vec<&ShadingPolygon<Double>> = vec![&ovh];
    let sf = calculate_sunlit_fraction(&recv, &recv_normal, &casters, &sun_dir);
    assert!(near(sf.0, 0.5, f64::EPSILON, 0.05));
}

#[test]
fn test_sunlit_with_semitransparent_caster() {
    // Same geometry as test_sunlit_with_overhang (overhang shades the lower
    // half of the wall), but the caster is semi-transparent (transmittance
    // 0.5), as a tree canopy would be. The shaded half then passes 50% of the
    // beam, so sunlit ~ 0.5 (unshaded half) + 0.5 x 0.5 (shaded half) = 0.75.
    let recv = vec![
        point3(0.0, 0.0, 0.0),
        point3(8.0, 0.0, 0.0),
        point3(8.0, 0.0, 2.0),
        point3(0.0, 0.0, 2.0),
    ];
    let recv_normal = vec3(0.0, -1.0, 0.0); // facing south

    let overhang_verts = vec![
        point3(0.0, 0.0, 2.0),
        point3(0.0, -1.0, 2.0),
        point3(8.0, -1.0, 2.0),
        point3(8.0, 0.0, 2.0),
    ];
    let canopy = ShadingPolygon {
        name: "canopy".into(),
        vertices: overhang_verts,
        normal: vec3(0.0, 0.0, -1.0),
        solar_transmittance: Double(0.5), // leaf canopy: passes half the beam
    };

    let sun_dir = vec3(0.0, 1.0, -1.0).normalize();
    let casters: Vec<&ShadingPolygon<Double>> = vec![&canopy];
    let sf = calculate_sunlit_fraction(&recv, &recv_normal, &casters, &sun_dir);
    assert!(near(sf.0, 0.75, f64::EPSILON, 0.05));
}

#[test]
fn test_sunlit_transmittance_monotonic() {
    // A denser canopy (lower transmittance) must let LESS beam through than a
    // sparser one over identical geometry - the property the seasonal leaf-on
    // vs leaf-off model depends on.
    let recv = vec![
        point3(0.0, 0.0, 0.0),
        point3(8.0, 0.0, 0.0),
        point3(8.0, 0.0, 2.0),
        point3(0.0, 0.0, 2.0),
    ];
    let recv_normal = vec3(0.0, -1.0, 0.0);
    let verts = vec![
        point3(0.0, 0.0, 2.0),
        point3(0.0, -1.0, 2.0),
        point3(8.0, -1.0, 2.0),
        point3(8.0, 0.0, 2.0),
    ];
    let sun_dir = vec3(0.0, 1.0, -1.0).normalize();
    let make = |t: f64| ShadingPolygon {
        name: "c".into(),
        vertices: verts.clone(),
        normal: vec3(0.0, 0.0, -1.0),
        solar_transmittance: Double(t),
    };
    let dense = make(0.20);
    let sparse = make(0.75);
    let sf_dense = calculate_sunlit_fraction(&recv, &recv_normal, &[&dense], &sun_dir);
    let sf_sparse = calculate_sunlit_fraction(&recv, &recv_normal, &[&sparse], &sun_dir);
    // Denser canopy -> less sunlight reaches the wall.
    assert!(sf_dense.0 < sf_sparse.0);
}

#[test]
fn test_sunlit_sun_behind_surface() {
    // Sun from north hitting a south-facing wall -> sun is behind -> sunlit = 0
    let recv = vec![
        point3(0.0, 0.0, 0.0),
        point3(8.0, 0.0, 0.0),
        point3(8.0, 0.0, 2.7),
        point3(0.0, 0.0, 2.7),
    ];
    let normal = vec3(0.0, -1.0, 0.0); // facing south
    let sun_dir = vec3(0.0, -1.0, -1.0).normalize(); // from north

    let sf = calculate_sunlit_fraction(&recv, &normal, &[], &sun_dir);
    assert!(near(sf.0, 0.0, 0.001, f64::EPSILON));
}

// Overhang Vertex Generation Tests

#[test]
fn test_generate_overhang_south_window() {
    // South-facing window: 3m wide x 2m tall on south wall (y=0)
    let window_verts = vec![
        point3(0.5, 0.0, 0.2), // BL
        point3(3.5, 0.0, 0.2), // BR
        point3(3.5, 0.0, 2.2), // TR
        point3(0.5, 0.0, 2.2), // TL
    ];
    let wall_normal = vec3(0.0, -1.0, 0.0); // south-facing

    let ovh = OverhangInput {
        depth: Double(1.0),
        offset_above: Double(0.5),
        left_extension: Double(0.0),
        right_extension: Double(0.0),
    };

    let verts = generate_overhang_vertices(&window_verts, &ovh, &wall_normal);
    assert_eq!(verts.len(), 4);

    // Base should be at z = 2.2 + 0.5 = 2.7 (window top + offset)
    // Outer edge should be at y = 0 - 1.0 = -1.0 (depth outward from south wall)
    for v in &verts {
        assert!(near(v.z.0, 2.7, 0.01, f64::EPSILON));
    }
    // Check that overhang extends from x=0.5 to x=3.5 (no extension)
    let min_x = verts.iter().map(|v| v.x.0).fold(f64::INFINITY, f64::min);
    let max_x = verts.iter().map(|v| v.x.0).fold(f64::NEG_INFINITY, f64::max);
    assert!(near(min_x, 0.5, 0.01, f64::EPSILON));
    assert!(near(max_x, 3.5, 0.01, f64::EPSILON));
}

#[test]
fn test_generate_overhang_case610() {
    // A full 8m wide overhang, 1m deep, at z=2.7 (0.5m above window top at z=2.2)
    // Two windows side by side, but overhang spans full wall
    let window_verts = vec![
        point3(0.0, 0.0, 0.0), // full south wall bottom
        point3(8.0, 0.0, 0.0),
        point3(8.0, 0.0, 2.2), // to window top
        point3(0.0, 0.0, 2.2),
    ];
    let wall_normal = vec3(0.0, -1.0, 0.0);

    let ovh = OverhangInput {
        depth: Double(1.0),
        offset_above: Double(0.5),
        left_extension: Double(0.0),
        right_extension: Double(0.0),
    };

    let verts = generate_overhang_vertices(&window_verts, &ovh, &wall_normal);
    // All vertices at z=2.7
    for v in &verts {
        assert!(near(v.z.0, 2.7, 0.01, f64::EPSILON));
    }
    // y range: 0.0 (wall) to -1.0 (1m outward from south wall)
    let min_y = verts.iter().map(|v| v.y.0).fold(f64::INFINITY, f64::min);
    let max_y = verts.iter().map(|v| v.y.0).fold(f64::NEG_INFINITY, f64::max);
    assert!(near(min_y, -1.0, 0.01, f64::EPSILON));
    assert!(near(max_y, 0.0, 0.01, f64::EPSILON));
}

// A unit square on the ground, seen from above

fn ground() -> Vec<Point3D<Double>> {
    vec![point3(0.0, 0.0, 0.0), point3(1.0, 0.0, 0.0), point3(1.0, 1.0, 0.0), point3(0.0, 1.0, 0.0)]
}

/// A horizontal caster over the square from `x0` to `x1` at a height.
fn cover(x0: f64, x1: f64, z: f64, transmittance: f64) -> ShadingPolygon<Double> {
    ShadingPolygon {
        name: "cover".into(),
        vertices: vec![
            point3(x0, -1.0, z),
            point3(x1, -1.0, z),
            point3(x1, 2.0, z),
            point3(x0, 2.0, z),
        ],
        normal: vec3(0.0, 0.0, 1.0),
        solar_transmittance: Double(transmittance),
    }
}

fn sunlit(casters: &[&ShadingPolygon<Double>]) -> f64 {
    let up = vec3(0.0, 0.0, 1.0);
    calculate_sunlit_fraction(&ground(), &up, casters, &vec3(0.0, 0.0, -1.0)).0
}

#[test]
fn single_opaque_shadow_is_measured_by_its_area() {
    assert!(near(sunlit(&[&cover(0.0, 0.3, 1.0, 0.0)]), 0.7, 1e-12, 0.0));
    assert_eq!(sunlit(&[&cover(-1.0, 2.0, 1.0, 0.0)]), 0.0);
    assert_eq!(sunlit(&[&cover(3.0, 4.0, 1.0, 0.0)]), 1.0);
}

#[test]
fn overlapping_shadows_count_once() {
    let half = cover(0.0, 0.5, 1.0, 0.0);
    assert_eq!(sunlit(&[&half, &cover(0.0, 0.5, 2.0, 0.0)]), 0.5);
    assert_eq!(sunlit(&[&half, &cover(0.25, 0.75, 2.0, 0.0)]), 0.25);
    // Half of the square gets a quarter of the beam through two half-dense covers.
    let thin = cover(0.0, 0.5, 1.0, 0.5);
    assert_eq!(sunlit(&[&thin, &cover(0.0, 0.5, 2.0, 0.5)]), 0.625);
    assert_eq!(sunlit(&[&thin]), 0.75);
}

#[test]
fn casters_in_the_plane_or_below_cast_no_shadow() {
    assert_eq!(sunlit(&[&cover(-1.0, 2.0, 0.005, 0.0)]), 1.0);
    assert_eq!(sunlit(&[&cover(-1.0, 2.0, -1.0, 0.0)]), 1.0);
    // A receiver without area is not shaded.
    let line = [point3(0.0, 0.0, 0.0), point3(1.0, 0.0, 0.0)];
    let up = vec3(0.0, 0.0, 1.0);
    let down = vec3(0.0, 0.0, -1.0);
    let c = cover(-1.0, 2.0, 1.0, 0.0);
    assert_eq!(calculate_sunlit_fraction(&line, &up, &[&c], &down).0, 1.0);
}

#[test]
fn diffuse_light_of_the_sky() {
    let up = vec3(0.0, 0.0, 1.0);
    let sky = |casters: &[&ShadingPolygon<Double>]| {
        compute_diffuse_sky_shading_ratio(&ground(), &up, casters).0
    };
    let horizon = |casters: &[&ShadingPolygon<Double>]| {
        compute_diffuse_horizon_shading_ratio(&ground(), &up, casters).0
    };
    assert_eq!(sky(&[]), 1.0);
    assert_eq!(horizon(&[]), 1.0);
    let below = cover(-1.0, 2.0, -1.0, 0.0);
    assert_eq!(sky(&[&below]), 1.0);
    let big = 1.0e4;
    let roof = ShadingPolygon {
        name: "roof".into(),
        vertices: vec![
            point3(-big, -big, 1.0),
            point3(big, -big, 1.0),
            point3(big, big, 1.0),
            point3(-big, big, 1.0),
        ],
        normal: vec3(0.0, 0.0, 1.0),
        solar_transmittance: Double(0.0),
    };
    assert_eq!(sky(&[&roof]), 0.0);
    assert_eq!(horizon(&[&roof]), 0.0);
    // A wall in the east hides eleven of twenty-four directions.
    let wall = ShadingPolygon {
        name: "wall".into(),
        vertices: vec![
            point3(2.0, -big, -big),
            point3(2.0, big, -big),
            point3(2.0, big, big),
            point3(2.0, -big, big),
        ],
        normal: vec3(1.0, 0.0, 0.0),
        solar_transmittance: Double(0.0),
    };
    assert!(near(sky(&[&wall]), 13.0 / 24.0, 1e-9, 0.0));
    assert!(near(horizon(&[&wall]), 13.0 / 24.0, 1e-9, 0.0));
    // A surface that faces the ground sees no sky.
    let down = vec3(0.0, 0.0, -1.0);
    assert_eq!(compute_diffuse_sky_shading_ratio(&ground(), &down, &[&wall]).0, 1.0);
}

#[test]
fn rays_hit_what_is_in_front_of_them() {
    let up = vec3(0.0, 0.0, 1.0);
    let origin = point3(0.5, 0.5, -1.0);
    assert!(ray_intersects_polygon(&origin, &up, &ground(), &up));
    assert!(!ray_intersects_polygon(&origin, &vec3(0.0, 0.0, -1.0), &ground(), &up));
    assert!(!ray_intersects_polygon(&origin, &vec3(1.0, 0.0, 0.0), &ground(), &up));
    assert!(!ray_intersects_polygon(&point3(5.0, 0.5, -1.0), &up, &ground(), &up));
    assert!(!ray_intersects_polygon(&origin, &up, &ground()[..2], &up));
    assert!(point_in_polygon_3d(&point3(1.0, 0.5, 0.0), &ground(), &up));
    assert!(!point_in_polygon_3d(&point3(1.1, 0.5, 0.0), &ground(), &up));
}

#[test]
fn points_and_lines_in_the_plane() {
    let square =
        [point2(0.0, 0.0), point2(1.0, 0.0), point2(1.0, 1.0), point2(0.0, 1.0)];
    assert!(point_in_polygon_2d(&point2(0.5, 0.5), &square));
    assert!(!point_in_polygon_2d(&point2(1.5, 0.5), &square));
    assert!(is_inside(point2(0.5, 0.5), square[0], square[1]));
    assert!(is_inside(point2(0.5, 0.0), square[0], square[1]));
    assert!(!is_inside(point2(0.5, -0.1), square[0], square[1]));
    let p = line_intersect_2d(point2(0.5, -1.0), point2(0.5, 1.0), square[0], square[1]).unwrap();
    assert_eq!((p.x.0, p.y.0), (0.5, 0.0));
    let parallel = line_intersect_2d(point2(0.0, 1.0), point2(1.0, 1.0), square[0], square[1]);
    assert!(parallel.is_none());
    assert_eq!(polygon_area_2d(&square[..2]).0, 0.0);
    assert!(sutherland_hodgman_clip(&[], &square).is_empty());
    assert!(sutherland_hodgman_clip(&square, &square[..2]).is_empty());
}

#[test]
fn projection_needs_the_sun_on_the_right_side() {
    let plane = point3(0.0, 0.0, 0.0);
    let up = vec3(0.0, 0.0, 1.0);
    let down = vec3(0.0, 0.0, -1.0);
    assert!(project_point_onto_plane(&point3(0.0, 0.0, -1.0), &plane, &up, &down).is_none());
    let flat = vec3(1.0, 0.0, 0.0);
    assert!(project_point_onto_plane(&point3(0.0, 0.0, 1.0), &plane, &up, &flat).is_none());
    let raised: Vec<Point3D<Double>> =
        ground().iter().map(|p| point3(p.x.0, p.y.0, 3.0)).collect();
    let shadow = project_polygon_onto_plane(&raised, &plane, &up, &down).unwrap();
    assert_eq!(shadow.len(), 4);
    assert_eq!((shadow[2].x.0, shadow[2].y.0, shadow[2].z.0), (1.0, 1.0, 0.0));
    let mut sunk = raised;
    sunk[1] = point3(1.0, 0.0, -3.0);
    assert!(project_polygon_onto_plane(&sunk, &plane, &up, &down).is_none());
}

#[test]
fn local_coordinates_follow_the_first_edge() {
    let up = vec3(0.0, 0.0, 1.0);
    let (origin, u, v) = build_local_coords(&ground()[1..], &up);
    assert_eq!((u.x.0, u.y.0, u.z.0), (0.0, 1.0, 0.0));
    assert_eq!((v.x.0, v.y.0, v.z.0), (-1.0, 0.0, 0.0));
    let p = to_local_2d(&point3(0.25, 0.75, 0.0), &origin, &u, &v);
    assert_eq!((p.x.0, p.y.0), (0.75, 0.75));
    assert_eq!(polygon_area(&ground()).0, 1.0);
}

/// A window in the plane y = 0 that faces south.
fn south_window() -> Vec<Point3D<Double>> {
    vec![point3(0.0, 0.0, 1.0), point3(2.0, 0.0, 1.0), point3(2.0, 0.0, 3.0), point3(0.0, 0.0, 3.0)]
}

#[test]
fn fins_stand_beside_the_window() {
    let fin = FinInput { depth: Double(0.5), extend_below: Double(0.25), extend_above: Double(0.75) };
    let south = vec3(0.0, -2.0, 0.0);
    let at = |side| -> Vec<(f64, f64, f64)> {
        generate_fin_vertices(&south_window(), &fin, &south, side)
            .iter()
            .map(|p| (p.x.0, p.y.0, p.z.0))
            .collect()
    };
    assert_eq!(
        at(FinSide::Left),
        vec![(0.0, -0.5, 0.75), (0.0, -0.5, 3.75), (0.0, 0.0, 3.75), (0.0, 0.0, 0.75)]
    );
    assert_eq!(
        at(FinSide::Right),
        vec![(2.0, 0.0, 0.75), (2.0, 0.0, 3.75), (2.0, -0.5, 3.75), (2.0, -0.5, 0.75)]
    );
    // Each fin looks away from the window, which lies to the right of the left one.
    let normal = |side: FinSide| {
        newell_normal(&generate_fin_vertices(&south_window(), &fin, &south, side))
    };
    assert!(normal(FinSide::Left).x.0 < 0.0);
    assert!(normal(FinSide::Right).x.0 > 0.0);
}

#[test]
fn overhang_extends_beyond_the_window() {
    let overhang = OverhangInput {
        depth: Double(1.0),
        offset_above: Double(0.5),
        left_extension: Double(0.25),
        right_extension: Double(0.75),
    };
    let south = vec3(0.0, -1.0, 0.0);
    let v = generate_overhang_vertices(&south_window(), &overhang, &south);
    let corners: Vec<(f64, f64, f64)> = v.iter().map(|p| (p.x.0, p.y.0, p.z.0)).collect();
    assert_eq!(
        corners,
        vec![(-0.25, 0.0, 3.5), (2.75, 0.0, 3.5), (2.75, -1.0, 3.5), (-0.25, -1.0, 3.5)]
    );
    // It looks down.
    assert!(newell_normal(&v).z.0 < 0.0);
}

#[test]
fn surfaces_become_casters() {
    let input = |name: &str, vertices: Vec<Point3D<Double>>| ShadingSurfaceInput {
        name: name.to_string(),
        vertices,
        solar_transmittance: Double(0.3),
    };
    let mut line = ground();
    line.truncate(2);
    let inputs = vec![input("a", ground()), input("b", line.clone()), input("c", south_window())];
    let polygons = resolve_shading_surfaces(&inputs);
    assert_eq!(polygons.len(), 2);
    assert_eq!(polygons[0].name, "a");
    assert_eq!(polygons[0].normal.z.0, 1.0);
    assert_eq!(polygons[0].solar_transmittance.0, 0.3);
    assert_eq!(polygons[1].name, "c");
    assert_eq!(polygons[1].normal.y.0, -1.0);
    let own = surface_to_shading_polygon("Wall", &south_window()).unwrap();
    assert_eq!(own.name, "self:Wall");
    assert_eq!(own.solar_transmittance.0, 0.0);
    assert_eq!(own.vertices.len(), 4);
    assert!(surface_to_shading_polygon("Line", &line).is_none());
    assert_eq!(ShadingCalculation::default(), ShadingCalculation::Basic);
}
