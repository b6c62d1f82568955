//! The laws of the library, on a few values of the fixed-point numbers.
use openbse::air_side::Supply;
use openbse::control::{
    apply_plant_reset, apply_sat_reset, apply_sat_reset_heating, free_cooling_fraction,
    PlantResetConfig, SatResetConfig,
};
use openbse::fixed::Fixed;
use openbse::geometry::{newell_normal, Point3D, Vec3};
use openbse::gshp::{
    interpolate_monthly, interpolate_within_day, AirPort, CurveValues, GroundSourceHeatPump,
    GshpMode,
};
use openbse::loop_results::mix_supplies;
use openbse::model::{PlantEquipmentKind, PlantLoopInput, StagingMode};
use openbse::plant::Staging;
use openbse::scalar::{clamp, Scalar};
use openbse::services::{panel_part_load, PanelSource};
use openbse::shading::{
    build_local_coords, calculate_sunlit_fraction, compute_diffuse_horizon_shading_ratio,
    compute_diffuse_sky_shading_ratio, from_local_2d, generate_fin_vertices,
    generate_overhang_vertices, is_inside, polygon_area_2d, sutherland_hodgman_clip, to_local_2d,
    FinInput, FinSide, OverhangInput, Point2D, ShadingPolygon,
};
use openbse::vav::ramped_flow;

/// A number of thousandths.
fn n(thousandths: i64) -> Fixed {
    Fixed::ratio(thousandths, 1000)
}

fn p2(x: i64, y: i64) -> Point2D<Fixed> {
    Point2D { x: n(x), y: n(y) }
}

fn square(low: i64, high: i64) -> Vec<Point2D<Fixed>> {
    vec![p2(low, low), p2(high, low), p2(high, high), p2(low, high)]
}

#[test]
fn clamped_values_stay_within() {
    assert_eq!(clamp(n(5000), n(0), n(1000)), n(1000));
    assert_eq!(clamp(n(-5000), n(0), n(1000)), n(0));
    assert_eq!(clamp(n(500), n(0), n(1000)), n(500));
}

#[test]
fn resets_stay_between_their_limits() {
    let reset = SatResetConfig::OaReset {
        sat_min: n(11_000),
        sat_max: n(16_000),
        oa_low: n(10_000),
        oa_high: n(24_000),
    };
    let none = Vec::new();
    for t in [-40_000, 10_000, 12_345, 17_000, 24_000, 90_000] {
        for sat in [
            apply_sat_reset(&reset, n(t), n(0), &none),
            apply_sat_reset_heating(&reset, n(t), n(0), &none),
        ] {
            assert!(n(11_000).le(sat) && sat.le(n(16_000)));
        }
    }
    assert_eq!(apply_sat_reset(&reset, n(10_000), n(0), &none), n(16_000));
    assert_eq!(apply_sat_reset(&reset, n(24_000), n(0), &none), n(11_000));
    let plant = PlantResetConfig::OaReset {
        sp_min: n(60_000),
        sp_max: n(80_000),
        oa_low: n(-10_000),
        oa_high: n(10_000),
    };
    assert_eq!(apply_plant_reset(&plant, n(-30_000)), n(80_000));
    assert_eq!(apply_plant_reset(&plant, n(30_000)), n(60_000));
}

#[test]
fn free_cooling_stays_between_minimum_and_one() {
    assert_eq!(free_cooling_fraction(n(23_000), n(22_000), n(13_000), n(200)), n(1000));
    assert_eq!(free_cooling_fraction(n(23_000), n(-90_000), n(13_000), n(200)), n(200));
    assert_eq!(free_cooling_fraction(n(23_000), n(23_000), n(13_000), n(200)), n(200));
}

fn cooling_modifiers(t: i64) -> (Fixed, Fixed) {
    GroundSourceHeatPump::<Fixed>::default_ewt_modifiers(GshpMode::Cooling, n(t))
}

#[test]
fn modifiers_move_one_way_and_stay_in_range() {
    let mut last = cooling_modifiers(-60_000);
    for t in (-60_000..=120_000).step_by(5_000) {
        let now = cooling_modifiers(t);
        assert!(now.0.le(last.0) && last.1.le(now.1));
        assert!(n(600).le(now.0) && now.0.le(n(1200)));
        assert!(n(500).le(now.1) && now.1.le(n(2000)));
        last = now;
    }
    assert_eq!(last.0, n(600));
}

#[test]
fn monthly_values_stay_between_their_months() {
    let mut temps = [n(0); 12];
    for (i, t) in temps.iter_mut().enumerate() {
        *t = n(1000 * ((i as i64 * 7) % 12));
    }
    for day in 1..=365u32 {
        let t = interpolate_monthly(&temps, day);
        assert!(n(0).le(t) && t.le(n(11_000)));
    }
}

#[test]
fn clipping_keeps_what_is_inside_and_drops_the_rest() {
    let window = square(0, 4000);
    let small = square(1000, 2000);
    let kept = sutherland_hodgman_clip(&small, &window);
    assert_eq!(kept.len(), 4);
    for i in 0..4 {
        assert_eq!((kept[i].x, kept[i].y), (small[i].x, small[i].y));
    }
    assert!(sutherland_hodgman_clip(&square(5000, 6000), &window).is_empty());
}

fn p3(x: i64, y: i64, z: i64) -> Point3D<Fixed> {
    Point3D::new(n(x), n(y), n(z))
}

fn cover(from: i64, to: i64, transmittance: i64) -> ShadingPolygon<Fixed> {
    ShadingPolygon {
        name: "cover".to_string(),
        vertices: vec![
            p3(from, -1000, 1000),
            p3(to, -1000, 1000),
            p3(to, 2000, 1000),
            p3(from, 2000, 1000),
        ],
        normal: Vec3::new(n(0), n(0), n(1000)),
        solar_transmittance: n(transmittance),
    }
}

fn sunlit(casters: &[&ShadingPolygon<Fixed>]) -> Fixed {
    let ground = [p3(0, 0, 0), p3(1000, 0, 0), p3(1000, 1000, 0), p3(0, 1000, 0)];
    let up = Vec3::new(n(0), n(0), n(1000));
    let down = Vec3::new(n(0), n(0), n(-1000));
    calculate_sunlit_fraction(&ground, &up, casters, &down)
}

#[test]
fn sunlit_fraction_stays_between_zero_and_one() {
    assert_eq!(sunlit(&[]), n(1000));
    for t in [0, 300, 1000] {
        for to in [100, 500, 2000] {
            let s = sunlit(&[&cover(0, to, t), &cover(-500, 300, t)]);
            assert!(n(0).le(s) && s.le(n(1000)));
        }
    }
}

#[test]
fn denser_covers_let_less_through() {
    let mut last = n(0);
    for t in [100, 200, 750, 1000] {
        let s = sunlit(&[&cover(0, 600, t)]);
        assert!(last.le(s));
        last = s;
    }
    // Several covers are sampled, opaque or not.
    assert!(sunlit(&[&cover(0, 600, 0), &cover(300, 900, 500)])
        .le(sunlit(&[&cover(0, 600, 100), &cover(300, 900, 500)])));
    // Under an opaque cover nothing is left for the other to take.
    assert_eq!(sunlit(&[&cover(0, 500, 0), &cover(0, 500, 500)]), n(500));
}

#[test]
fn diffuse_ratio_stays_between_zero_and_one() {
    let ground = [p3(0, 0, 0), p3(1000, 0, 0), p3(1000, 1000, 0), p3(0, 1000, 0)];
    let up = Vec3::new(n(0), n(0), n(1000));
    let r = compute_diffuse_sky_shading_ratio(&ground, &up, &[&cover(0, 600, 0)]);
    assert!(n(0).lt(r) && r.lt(n(1000)));
}

#[test]
fn panels_stay_between_off_and_full() {
    for t in (18_000..27_000).step_by(125) {
        for source in [PanelSource::Electric, PanelSource::HotWater, PanelSource::ChilledWater] {
            let plr = panel_part_load(source, n(t), n(21_000), n(24_000));
            assert!(n(0).le(plr) && plr.le(n(1000)));
        }
    }
}

fn two_units() -> PlantLoopInput<Fixed> {
    PlantLoopInput {
        name: "CHW".to_string(),
        design_delta_t: n(5000),
        design_supply_temp: n(7000),
        setpoint_reset: None,
        staging_mode: StagingMode::Sequential,
        staging_threshold: n(900),
        supply_equipment: Vec::new(),
    }
}

#[test]
fn delivered_heat_comes_off_the_load() {
    let plant = two_units();
    let chiller = PlantEquipmentKind::Chiller;
    let mut s = Staging::start(&plant, n(-60_000_000));
    s.record(chiller, n(40_000_000), n(42_000_000));
    assert_eq!(s.remaining, n(-20_000_000));
    assert_eq!(s.next(&plant, chiller), Some(n(20_000_000)));
    // Below the threshold the next unit waits.
    let mut s = Staging::start(&plant, n(60_000_000));
    s.record(chiller, n(40_000_000), n(100_000_000));
    assert_eq!(s.remaining, n(20_000_000));
    assert_eq!(s.next(&plant, chiller), None);
}

#[test]
fn warmer_outdoor_air_lowers_resets() {
    let air = SatResetConfig::OaReset {
        sat_min: n(11_000),
        sat_max: n(16_000),
        oa_low: n(10_000),
        oa_high: n(24_000),
    };
    let plant = PlantResetConfig::OaReset {
        sp_min: n(60_000),
        sp_max: n(80_000),
        oa_low: n(-10_000),
        oa_high: n(20_000),
    };
    let none = Vec::new();
    for t in (-20_000..30_000).step_by(777) {
        let (cold, warm) = (n(t), n(t + 777));
        assert!(apply_sat_reset(&air, warm, n(0), &none)
            .le(apply_sat_reset(&air, cold, n(0), &none)));
        assert!(apply_sat_reset_heating(&air, warm, n(0), &none)
            .le(apply_sat_reset_heating(&air, cold, n(0), &none)));
        assert!(apply_plant_reset(&plant, warm).le(apply_plant_reset(&plant, cold)));
    }
}

#[test]
fn boxes_open_with_the_error() {
    assert_eq!(ramped_flow(n(2000), n(300), n(1000), n(-1000)), n(600));
    assert_eq!(ramped_flow(n(2000), n(300), n(1000), n(2000)), n(1160));
    assert_eq!(ramped_flow(n(2000), n(300), n(1000), n(9000)), n(2000));
}

fn supply(zone: &str, temp: i64, flow: i64, w: i64) -> (String, Supply<Fixed>) {
    (zone.to_string(), Supply { temp: n(temp), flow: n(flow), w: n(w) })
}

#[test]
fn loops_that_share_a_zone_mix_by_flow() {
    let list = vec![
        supply("A", 14_000, 1000, 8),
        supply("B", 20_000, 500, 9),
        supply("A", 30_000, 3000, 4),
        supply("C", 20_000, 0, 9),
        supply("D", 20_000, 500, 9),
        supply("D", 20_000, -500, 9),
    ];
    let mixed = mix_supplies(&list);
    let a = mixed.get("A").unwrap();
    assert_eq!((a.temp, a.flow, a.w), (n(26_000), n(4000), n(5)));
    let b = mixed.get("B").unwrap();
    assert_eq!((b.temp, b.flow, b.w), (n(20_000), n(500), n(9)));
    assert!(mixed.get("C").is_none());
    assert!(mixed.get("D").is_none());
}

#[test]
fn flows_of_two_lists_add_up() {
    let first = vec![supply("A", 14_000, 1250, 8), supply("A", 15_000, 250, 8)];
    let second = vec![supply("A", 30_000, 500, 8), supply("B", 15_000, 250, 8)];
    let both: Vec<_> = first.iter().cloned().chain(second.iter().cloned()).collect();
    let flow = |list: &Vec<(String, Supply<Fixed>)>| mix_supplies(list).get("A").unwrap().flow;
    assert_eq!(flow(&both), flow(&first).add(flow(&second)));
}

#[test]
fn monthly_values_repeat_and_meet_their_months() {
    let mut temps = [n(0); 12];
    for (i, t) in temps.iter_mut().enumerate() {
        *t = n(1000 * ((i as i64 * 7) % 12));
    }
    for day in 0..365u32 {
        assert_eq!(interpolate_monthly(&temps, day), interpolate_monthly(&temps, day + 365));
    }
    let middles = [31, 90, 149, 210, 271, 332, 393, 455, 516, 577, 638, 699];
    for m in 0..12 {
        assert_eq!(interpolate_within_day(&temps, middles[m], 2), temps[m]);
    }
    // From 7 to 2 between the middles of February and March.
    assert_eq!(interpolate_within_day(&temps, 90, 2), n(7000));
    for k in 0..59u32 {
        let expected = n(7000).add(Fixed::ratio(k as i64, 59).mul(n(-5000)));
        assert_eq!(interpolate_within_day(&temps, 90 + k, 2), expected);
    }
    // A third of the way, in ten parts of an hour.
    assert_eq!(
        interpolate_within_day(&temps, 45 * 240 + 2360, 240),
        n(7000).add(Fixed::ratio(1, 3).mul(n(-5000)))
    );
    // And from 5 to 0 across the end of the year.
    assert_eq!(interpolate_within_day(&temps, 730, 2), n(2500));
}

#[test]
fn loop_pump_is_counted_in_the_power() {
    let curves = CurveValues { cap: None, eir: None };
    let mut unit = GroundSourceHeatPump::new(
        "G",
        n(10_000_000),
        n(9_000_000),
        n(4500),
        n(4000),
        n(13_000),
        n(500),
    );
    let inlet = AirPort { t_db: n(26_000), w: n(8), p_b: n(101_325_000), mass_flow: n(500) };
    unit.simulate_air(&inlet, 7, 15, n(1_005_000), curves);
    assert_eq!(unit.loop_pump_power, n(250_000));
    assert!(unit.loop_pump_power.lt(unit.power));
    unit.simulate_ground(
        GshpMode::Cooling,
        n(500),
        n(22_000),
        n(9000),
        n(0),
        n(1_005_000),
        curves,
    );
    assert_eq!(unit.loop_pump_power, n(0));
    assert!(n(0).lt(unit.power));
}

fn diffuse(casters: &[&ShadingPolygon<Fixed>]) -> (Fixed, Fixed) {
    let wall = [p3(0, 0, 0), p3(1000, 0, 0), p3(1000, 0, 1000), p3(0, 0, 1000)];
    let south = Vec3::new(n(0), n(-1000), n(0));
    (
        compute_diffuse_sky_shading_ratio(&wall, &south, casters),
        compute_diffuse_horizon_shading_ratio(&wall, &south, casters),
    )
}

/// A screen before the wall, from `low` up to `high`.
fn screen(low: i64, high: i64) -> ShadingPolygon<Fixed> {
    ShadingPolygon {
        name: "screen".to_string(),
        vertices: vec![
            p3(-2000, -1000, low),
            p3(3000, -1000, low),
            p3(3000, -1000, high),
            p3(-2000, -1000, high),
        ],
        normal: Vec3::new(n(0), n(-1000), n(0)),
        solar_transmittance: n(0),
    }
}

#[test]
fn casters_darken_the_sky_once_and_in_any_order() {
    let (a, b) = (screen(0, 400), screen(200, 2000));
    assert_eq!(diffuse(&[]), (n(1000), n(1000)));
    assert_eq!(diffuse(&[&a, &b]), diffuse(&[&b, &a]));
    assert_eq!(diffuse(&[&a, &b]), diffuse(&[&a, &b, &a]));
    let (one, two) = (diffuse(&[&a]), diffuse(&[&a, &b]));
    assert!(one.0.lt(n(1000)) && one.1.lt(n(1000)));
    assert!(two.0.lt(one.0) && two.1.lt(one.1));
}

#[test]
fn areas_survive_turning_reversal_and_moving() {
    let poly = vec![p2(0, 0), p2(3333, 111), p2(4001, 2777), p2(1999, 3001), p2(-777, 1234)];
    let area = polygon_area_2d(&poly);
    for k in 0..poly.len() {
        let mut next = poly.clone();
        next.rotate_left(k);
        assert_eq!(polygon_area_2d(&next), area);
    }
    let mut back = poly.clone();
    back.reverse();
    assert!((polygon_area_2d(&back).units - area.units).abs() <= 1);
    let moved: Vec<Point2D<Fixed>> = poly
        .iter()
        .map(|p| Point2D { x: p.x.add(n(12_345)), y: p.y.add(n(-777)) })
        .collect();
    assert!((polygon_area_2d(&moved).units - area.units).abs() <= 6);
    assert_eq!(polygon_area_2d(&square(1000, 3000)), n(4000));
    assert_eq!(polygon_area_2d(&poly[..2]), n(0));
}

#[test]
fn plane_coordinates_come_back_and_keep_distances() {
    let origin = p3(1000, -2000, 500);
    let u = Vec3::new(n(600), n(800), n(0));
    let v = Vec3::new(n(0), n(0), n(1000));
    let (p, q) = (p2(1234, 777), p2(-4321, 999));
    for point in [p, q] {
        let back = to_local_2d(&from_local_2d(&point, &origin, &u, &v), &origin, &u, &v);
        assert!((back.x.units - point.x.units).abs() <= 15);
        assert!((back.y.units - point.y.units).abs() <= 15);
    }
    let d = from_local_2d(&p, &origin, &u, &v).from(&from_local_2d(&q, &origin, &u, &v));
    assert_eq!(d.dot(&d), Fixed { units: 30_907_309_000 });
}

#[test]
fn clip_has_corners_and_crossings_only() {
    let window = square(0, 4000);
    let subject = vec![p2(1000, 1000), p2(6000, 1000), p2(6000, 3000), p2(1000, 3000)];
    let kept = sutherland_hodgman_clip(&subject, &window);
    let corners: Vec<(Fixed, Fixed)> = kept.iter().map(|p| (p.x, p.y)).collect();
    assert_eq!(
        corners,
        vec![
            (n(1000), n(1000)),
            (n(4000), n(1000)),
            (n(4000), n(3000)),
            (n(1000), n(3000)),
        ]
    );
    for p in &kept {
        for i in 0..4 {
            assert!(is_inside(*p, window[i], window[(i + 1) % 4]));
        }
    }
}

#[test]
fn crossings_lie_on_the_clip_edge() {
    // A slanted clip edge, and a subject that it cuts twice.
    let clip = vec![p2(0, 0), p2(3000, 1000), p2(2000, 4000), p2(-1000, 3000)];
    let subject = vec![p2(500, -700), p2(2500, -300), p2(1900, 2100), p2(700, 1300)];
    let kept = sutherland_hodgman_clip(&subject, &clip);
    assert!(kept.len() >= 4);
    for p in &kept {
        for i in 0..4 {
            let (a, b) = (clip[i], clip[(i + 1) % 4]);
            let side = (b.x.units - a.x.units) as i128 * (p.y.units - a.y.units) as i128
                - (b.y.units - a.y.units) as i128 * (p.x.units - a.x.units) as i128;
            // A few units off an edge of a few metres.
            assert!(side >= -20_000_000_000);
        }
    }
}

#[test]
fn sets_of_loops_mix_like_their_means() {
    let first = vec![supply("A", 14_123, 1250, 8), supply("A", 15_777, 333, 9)];
    let second = vec![supply("A", 30_001, 777, 5), supply("B", 15_000, 250, 8)];
    let both: Vec<_> = first.iter().cloned().chain(second.iter().cloned()).collect();
    let of = |list: &Vec<(String, Supply<Fixed>)>| *mix_supplies(list).get("A").unwrap();
    let (a, b, c) = (of(&first), of(&second), of(&both));
    let wide = |x: Fixed| x.units as i128;
    let flow = wide(a.flow) + wide(b.flow);
    assert_eq!(wide(c.flow), flow);
    let heat = wide(a.temp) * wide(a.flow) + wide(b.temp) * wide(b.flow);
    assert!((wide(c.temp) * flow - heat).abs() < flow);
    let moisture = wide(a.w) * wide(a.flow) + wide(b.w) * wide(b.flow);
    assert!((wide(c.w) * flow - moisture).abs() < flow);
    assert_eq!(of(&second).flow, n(777));
}

#[test]
fn overhangs_look_down_and_fins_look_away() {
    // A wall that faces between south and east.
    let window = vec![p3(0, 0, 1000), p3(1200, 1600, 1000), p3(1200, 1600, 2500), p3(0, 0, 2500)];
    let outward = Vec3::new(n(800), n(-600), n(0));
    let right = Vec3::new(n(600), n(800), n(0));
    let overhang = OverhangInput {
        depth: n(500),
        offset_above: n(100),
        left_extension: n(200),
        right_extension: n(300),
    };
    let down = newell_normal(&generate_overhang_vertices(&window, &overhang, &outward));
    // Twice an area of 2.5 m by 0.5 m.
    assert!((down.z.units + 2_500_000_000).abs() <= 20);
    let fin = FinInput { depth: n(400), extend_above: n(100), extend_below: n(100) };
    let normal = |side: FinSide| {
        newell_normal(&generate_fin_vertices(&window, &fin, &outward, side)).dot(&right)
    };
    // Twice an area of 1.7 m by 0.4 m.
    assert!((normal(FinSide::Left).units + 1_360_000_000).abs() <= 20);
    assert!((normal(FinSide::Right).units - 1_360_000_000).abs() <= 20);
}

#[test]
fn modifiers_are_one_at_the_rating_points() {
    let at = |mode: GshpMode, t: i64| GroundSourceHeatPump::default_ewt_modifiers(mode, n(t));
    assert_eq!(at(GshpMode::Cooling, 25_000), (n(1000), n(1000)));
    assert_eq!(at(GshpMode::Heating, 0), (n(1000), n(1000)));
    assert_eq!(at(GshpMode::Off, 12_345), (n(1000), n(1000)));
}

#[test]
fn ground_temperatures_are_finite() {
    let mut unit = GroundSourceHeatPump::new(
        "G",
        n(10_000_000),
        n(9_000_000),
        n(4500),
        n(4000),
        n(13_000),
        n(500),
    );
    unit.kusuda_t_mean = n(10_500);
    unit.kusuda_amplitude = n(12_000);
    for depth in [0, 1500, 3000, 8000] {
        unit.loop_depth = n(depth);
        for day in [1, 90, 180, 270, 365] {
            let t = unit.ground_temp_for_day(day);
            assert!(t.is_finite());
            assert!(n(-2000).le(t) && t.le(n(23_000)));
        }
    }
}

#[test]
fn axes_of_a_surface_are_nearly_orthonormal() {
    // A wall of a third of a metre, somewhere between south and east.
    let wall = [p3(1000, 2000, 0), p3(1234, 2234, 0), p3(1234, 2234, 900), p3(1000, 2000, 900)];
    let normal = Vec3::new(
        Fixed { units: 707_106_781 },
        Fixed { units: -707_106_781 },
        n(0),
    );
    let (o, u, v) = build_local_coords(&wall, &normal);
    let dot = |a: Vec3<Fixed>, b: Vec3<Fixed>| {
        a.x.units as i128 * b.x.units as i128
            + a.y.units as i128 * b.y.units as i128
            + a.z.units as i128 * b.z.units as i128
    };
    // Edges of at least a quarter of a metre leave 91 units.
    let slack = 91_000_000_000i128;
    let one = 1_000_000_000_000_000_000i128;
    assert!((dot(u, u) - one).abs() <= slack);
    assert!((dot(v, v) - one).abs() <= slack);
    assert!(dot(u, v).abs() <= slack);
    let image = to_local_2d(&o, &o, &u, &v);
    assert_eq!((image.x, image.y), (n(0), n(0)));
    let corner = to_local_2d(&wall[2], &o, &u, &v);
    let back = from_local_2d(&corner, &o, &u, &v);
    assert!((back.x.units - wall[2].x.units).abs() <= 70);
    assert!((back.y.units - wall[2].y.units).abs() <= 70);
    assert!((back.z.units - wall[2].z.units).abs() <= 70);
}
