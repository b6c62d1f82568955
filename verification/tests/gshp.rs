//! The ground-source heat pump on double-precision numbers.
use openbse::fixed::Fixed;
use openbse::gshp::{
    day_of_year, interpolate_monthly, AirPort, CurveValues, GroundSourceHeatPump,
    GroundTempSource, GshpMode,
};
use openbse::scalar::Scalar;

/// A double-precision number as the number type of the library.
#[derive(Clone, Copy, Debug, PartialEq)]
struct Double(f64);

impl Scalar for Double {
    fn add(self, other: Self) -> Self {
        Double(self.0 + other.0)
    }
    fn sub(self, other: Self) -> Self {
        Double(self.0 - other.0)
    }
    fn mul(self, other: Self) -> Self {
        Double(self.0 * other.0)
    }
    fn div(self, other: Self) -> Self {
        Double(self.0 / other.0)
    }
    fn neg(self) -> Self {
        Double(-self.0)
    }
    fn abs(self) -> Self {
        Double(self.0.abs())
    }
    fn sqrt(self) -> Self {
        Double(self.0.sqrt())
    }
    fn cos(self) -> Self {
        Double(self.0.cos())
    }
    fn sin(self) -> Self {
        Double(self.0.sin())
    }
    fn exp(self) -> Self {
        Double(self.0.exp())
    }
    fn lt(self, other: Self) -> bool {
        self.0 < other.0
    }
    fn le(self, other: Self) -> bool {
        self.0 <= other.0
    }
    fn eq(self, other: Self) -> bool {
        self.0 == other.0
    }
    fn min(self, other: Self) -> Self {
        Double(self.0.min(other.0))
    }
    fn max(self, other: Self) -> Self {
        Double(self.0.max(other.0))
    }
    fn ratio(numerator: i64, denominator: i64) -> Self {
        Double(numerator as f64 / denominator as f64)
    }
    fn count(n: usize) -> Self {
        Double(n as f64)
    }
    fn max_value() -> Self {
        Double(f64::MAX)
    }
    fn infinity() -> Self {
        Double(f64::INFINITY)
    }
    fn is_finite(self) -> bool {
        self.0.is_finite()
    }
}

/// `a` and `b` differ by at most `epsilon`, or by at most `max_relative` of the larger.
fn near(a: f64, b: f64, epsilon: f64, max_relative: f64) -> bool {
    let difference = (a - b).abs();
    difference <= epsilon || difference <= max_relative * a.abs().max(b.abs())
}

fn f(x: f64) -> Double {
    Double(x)
}

/// Heat capacity of moist air [J/(kg K)].
fn cp_air(w: f64) -> f64 {
    1006.0 + 1860.0 * w
}

/// Air of a temperature and relative humidity at sea level.
fn air(t: f64, rh: f64, flow: f64) -> AirPort<Double> {
    let saturation = 610.94 * (17.625 * t / (t + 243.04)).exp();
    let vapour = rh * saturation;
    let w = 0.62198 * vapour / (101325.0 - vapour);
    AirPort { t_db: f(t), w: f(w), p_b: f(101325.0), mass_flow: f(flow) }
}

const NO_CURVES: CurveValues<Double> = CurveValues { cap: None, eir: None };

fn unit(name: &str, setpoint: f64) -> GroundSourceHeatPump<Double> {
    let mut g = GroundSourceHeatPump::new(
        name,
        f(10_000.0),
        f(9_000.0),
        f(4.5),
        f(4.0),
        f(setpoint),
        f(0.5),
    );
    g.configure_ground_source(f(12.0), f(10.0), f(35.0), f(0.04), f(1.5), None);
    g
}

fn make_gshp_cooling() -> GroundSourceHeatPump<Double> {
    unit("GSHP-1", 13.0)
}

fn make_gshp_heating() -> GroundSourceHeatPump<Double> {
    unit("GSHP-H", 40.0)
}

fn small_unit() -> GroundSourceHeatPump<Double> {
    GroundSourceHeatPump::new("G", f(1000.0), f(1000.0), f(4.5), f(4.0), f(13.0), f(0.5))
}

fn run(g: &mut GroundSourceHeatPump<Double>, inlet: &AirPort<Double>) -> AirPort<Double> {
    g.simulate_air(inlet, 7, 15, f(cp_air(inlet.w.0)), NO_CURVES)
}

#[test]
fn test_cooling_power_equals_q_over_cop() {
    let mut gshp = make_gshp_cooling();
    let ewt = f(15.0);
    let (_, _) = gshp.simulate_ground(
        GshpMode::Cooling,
        f(1.0),
        f(26.0),
        ewt,
        f(30.0),
        f(cp_air(0.008)),
        NO_CURVES,
    );
    let q = -gshp.air_thermal_output.0;
    let expected_w = q / gshp.cop_cooling.0;
    assert!(near(gshp.power.0, expected_w, f64::EPSILON, 0.01));
    assert_eq!(gshp.mode, GshpMode::Cooling);
}

#[test]
fn test_heating_power_equals_q_over_cop() {
    let mut gshp = make_gshp_heating();
    let ewt = f(8.0);
    let (t_sup, _) = gshp.simulate_ground(
        GshpMode::Heating,
        f(1.0),
        f(20.0),
        ewt,
        f(-5.0),
        f(cp_air(0.008)),
        NO_CURVES,
    );
    let q = gshp.air_thermal_output.0;
    let expected_w = q / gshp.cop_heating.0;
    assert!(near(gshp.power.0, expected_w, f64::EPSILON, 0.01));
    assert_eq!(t_sup.0, 40.0);
    assert_eq!(gshp.mode, GshpMode::Heating);
}

#[test]
fn test_cooling_supply_temp_equals_setpoint() {
    let mut gshp = make_gshp_cooling();
    let (t_sup, _) = gshp.simulate_ground(
        GshpMode::Cooling,
        f(0.8),
        f(26.0),
        f(15.0),
        f(30.0),
        f(cp_air(0.008)),
        NO_CURVES,
    );
    assert!(near(t_sup.0, 13.0, 0.01, f64::EPSILON));
}

#[test]
fn test_ground_temp_auto_sinusoidal() {
    let mut gshp = small_unit();
    gshp.ground_temp_source = GroundTempSource::Auto;
    gshp.configure_ground_source(f(12.0), f(10.0), f(35.0), f(0.04), f(1.5), None);

    // At depth 1.5 m, summer > winter for northern hemisphere
    let t_summer = gshp.ground_temp_for_day(196); // mid-July
    let t_winter = gshp.ground_temp_for_day(15); // mid-January
    assert!(t_summer.0 > t_winter.0);
}

#[test]
fn test_ground_temp_monthly_interpolation() {
    let mut gshp = small_unit();
    let temps = [
        f(-0.09),
        f(-1.03),
        f(0.64),
        f(3.26),
        f(10.11),
        f(15.39),
        f(18.96),
        f(20.04),
        f(18.19),
        f(14.09),
        f(8.61),
        f(3.52),
    ];
    gshp.ground_temp_source = GroundTempSource::Monthly(temps);
    gshp.configure_ground_source(f(12.0), f(10.0), f(35.0), f(0.04), f(1.5), None);

    // Mid-January (day 16) should be close to Jan value
    let t_jan = gshp.ground_temp_for_day(16);
    assert!(near(t_jan.0, -0.09, 0.5, f64::EPSILON));

    // Mid-July should be close to Jul value
    let t_jul = gshp.ground_temp_for_day(196);
    assert!(near(t_jul.0, 18.96, 0.5, f64::EPSILON));
}

#[test]
fn test_ground_temp_epw_monthly_no_data_falls_back_to_auto() {
    let mut gshp = small_unit();
    gshp.ground_temp_source = GroundTempSource::EpwMonthly;
    gshp.configure_ground_source(f(12.0), f(10.0), f(35.0), f(0.04), f(1.5), None);
    let t = gshp.ground_temp_for_day(180);
    assert!(t.0.is_finite());
    // The same as the sinusoidal model gives.
    gshp.ground_temp_source = GroundTempSource::Auto;
    assert_eq!(t, gshp.ground_temp_for_day(180));
}

#[test]
fn test_performance_curve_reduces_capacity() {
    let mut gshp = make_gshp_cooling();
    // cap_mod = 0.9 at every condition
    let curves = CurveValues { cap: Some(f(0.9)), eir: None };
    let (_, _) = gshp.simulate_ground(
        GshpMode::Cooling,
        f(1.0),
        f(26.0),
        f(15.0),
        f(30.0),
        f(cp_air(0.008)),
        curves,
    );
    let q = -gshp.air_thermal_output.0;
    let expected = gshp.rated_cooling_capacity.0 * 0.9;
    assert!(near(q, expected, f64::EPSILON, 0.01));
}

#[test]
fn test_simulate_air_cooling() {
    let mut gshp = make_gshp_cooling();
    let inlet = air(26.0, 0.5, 0.5);
    let outlet = run(&mut gshp, &inlet);
    assert!(outlet.t_db.0 < inlet.t_db.0);
    assert!(gshp.power.0 > 0.0);
    assert_eq!(gshp.mode, GshpMode::Cooling);
}

#[test]
fn test_simulate_air_zero_flow() {
    let mut gshp = make_gshp_cooling();
    let inlet = air(26.0, 0.5, 0.0);
    run(&mut gshp, &inlet);
    assert_eq!(gshp.power.0, 0.0);
    assert_eq!(gshp.mode, GshpMode::Off);
}

#[test]
fn test_ewt_includes_loop_approach_and_derates_cooling() {
    // Warmer ground -> warmer loop -> more compressor power for the same
    // cooling; EWT reported = ground + cooling approach.
    let mut cold = make_gshp_cooling();
    cold.configure_ground_source(f(10.0), f(0.0), f(35.0), f(0.04), f(1.5), None);
    let mut warm = make_gshp_cooling();
    warm.configure_ground_source(f(25.0), f(0.0), f(35.0), f(0.04), f(1.5), None);
    // Small flow so capacity is not the limiter and both deliver the same q.
    let inlet = air(26.0, 0.5, 0.2);
    cold.set_setpoint(f(13.0));
    warm.set_setpoint(f(13.0));
    run(&mut cold, &inlet);
    run(&mut warm, &inlet);
    assert!(near(
        cold.current_ewt.0,
        10.0 + cold.loop_approach_cooling_k.0,
        f64::EPSILON,
        1e-6
    ));
    assert!(near(cold.air_thermal_output.0, warm.air_thermal_output.0, f64::EPSILON, 1e-6));
    assert!(warm.power.0 > cold.power.0);
    // At exactly the ISO rating EWT the modifiers are unity.
    assert_eq!(
        GroundSourceHeatPump::default_ewt_modifiers(GshpMode::Cooling, f(25.0)),
        (f(1.0), f(1.0))
    );
    assert_eq!(
        GroundSourceHeatPump::default_ewt_modifiers(GshpMode::Heating, f(0.0)),
        (f(1.0), f(1.0))
    );
}

#[test]
fn test_loop_pump_power_included_when_running() {
    let mut gshp = make_gshp_cooling();
    let inlet = air(26.0, 0.5, 1.0);
    gshp.set_setpoint(f(13.0));
    run(&mut gshp, &inlet);
    let expected_pump = gshp.loop_pump_w_per_kw.0 * gshp.rated_cooling_capacity.0 / 1000.0;
    assert!(near(gshp.loop_pump_power.0, expected_pump, f64::EPSILON, 1e-9));
    assert!(gshp.power.0 > gshp.loop_pump_power.0);
    gshp.set_setpoint(f(99.0));
    run(&mut gshp, &inlet);
    assert_eq!(gshp.loop_pump_power.0, 0.0);
}

#[test]
fn test_off_sentinel_setpoint_means_off() {
    // Air loops park idle coils at +/-99 C.
    let mut gshp = make_gshp_cooling();
    let inlet = air(21.0, 0.5, 1.0);
    gshp.set_setpoint(f(99.0));
    let out = run(&mut gshp, &inlet);
    assert_eq!(gshp.mode, GshpMode::Off);
    assert_eq!(gshp.power.0, 0.0);
    assert!(near(out.t_db.0, 21.0, f64::EPSILON, 1e-6));
    gshp.set_setpoint(f(-99.0));
    run(&mut gshp, &inlet);
    assert_eq!(gshp.mode, GshpMode::Off);
}

#[test]
fn test_setpoint_drives_heating_and_cooling_modes() {
    let mut gshp = make_gshp_cooling();
    let inlet = air(21.0, 0.5, 1.0);
    gshp.set_setpoint(f(35.0));
    let out = run(&mut gshp, &inlet);
    assert_eq!(gshp.mode, GshpMode::Heating);
    assert!(gshp.power.0 > 0.0 && gshp.air_thermal_output.0 > 0.0);
    assert!(out.t_db.0 > 21.0);
    gshp.set_setpoint(f(13.0));
    let out = run(&mut gshp, &inlet);
    assert_eq!(gshp.mode, GshpMode::Cooling);
    assert!(gshp.power.0 > 0.0 && gshp.air_thermal_output.0 < 0.0);
    assert!(out.t_db.0 < 21.0);
}

#[test]
fn part_load_of_ground_operation_is_clamped() {
    let mut gshp = make_gshp_heating();
    let (t, flow) = gshp.simulate_ground(
        GshpMode::Heating,
        f(2.0),
        f(20.0),
        f(8.0),
        f(0.0),
        f(1000.0),
        NO_CURVES,
    );
    assert_eq!(gshp.air_thermal_output.0, 9000.0);
    assert_eq!(gshp.power.0, 2250.0);
    assert_eq!(t.0, 40.0);
    assert!(near(flow.0, 0.45, 1e-12, 1e-12));
}

#[test]
fn ground_operation_off_has_no_flow() {
    let mut gshp = make_gshp_cooling();
    let r = gshp.simulate_ground(
        GshpMode::Off,
        f(1.0),
        f(22.0),
        f(9.0),
        f(0.0),
        f(1000.0),
        NO_CURVES,
    );
    assert_eq!(r, (f(22.0), f(0.0)));
    assert_eq!(gshp.current_ewt.0, 9.0);
    assert_eq!(gshp.power.0, 0.0);
}

#[test]
fn ground_operation_runs_no_loop_pump() {
    for mode in [GshpMode::Off, GshpMode::Cooling, GshpMode::Heating] {
        // The air side leaves a pump running.
        let mut gshp = make_gshp_cooling();
        gshp.set_setpoint(f(13.0));
        run(&mut gshp, &air(26.0, 0.5, 1.0));
        assert_eq!(gshp.loop_pump_power.0, 250.0);
        gshp.simulate_ground(mode, f(0.5), f(22.0), f(9.0), f(0.0), f(1000.0), NO_CURVES);
        assert_eq!(gshp.loop_pump_power.0, 0.0);
        assert!(gshp.loop_pump_power.0 <= gshp.power.0);
    }
}

#[test]
fn capacity_limits_what_the_air_gets() {
    let mut gshp = make_gshp_cooling();
    let inlet = AirPort { t_db: f(26.0), w: f(0.01), p_b: f(101325.0), mass_flow: f(10.0) };
    let curves = CurveValues { cap: Some(f(1.0)), eir: Some(f(1.8)) };
    let out = gshp.simulate_air(&inlet, 7, 15, f(1000.0), curves);
    assert_eq!(gshp.air_thermal_output.0, -10_000.0);
    assert_eq!(gshp.power.0, 10_000.0 * 1.8 / 4.5 + 250.0);
    assert_eq!(out.t_db.0, 25.0);
    assert_eq!(out.mass_flow.0, 10.0);
    assert_eq!(out.w.0, 0.01);
}

#[test]
fn setpoint_within_a_tenth_of_a_degree_is_off() {
    let mut gshp = make_gshp_cooling();
    gshp.set_setpoint(f(21.05));
    let inlet = air(21.0, 0.5, 1.0);
    assert_eq!(gshp.demanded_mode(&inlet), GshpMode::Off);
    gshp.set_setpoint(f(21.2));
    assert_eq!(gshp.demanded_mode(&inlet), GshpMode::Heating);
    gshp.set_setpoint(f(20.8));
    assert_eq!(gshp.demanded_mode(&inlet), GshpMode::Cooling);
}

#[test]
fn modifiers_follow_their_slopes_and_limits() {
    let (cap, eir) = GroundSourceHeatPump::default_ewt_modifiers(GshpMode::Cooling, f(35.0));
    assert!(near(cap.0, 0.95, 1e-12, 0.0));
    assert!(near(eir.0, 1.27, 1e-12, 0.0));
    let (cap, eir) = GroundSourceHeatPump::default_ewt_modifiers(GshpMode::Heating, f(10.0));
    assert!(near(cap.0, 1.12, 1e-12, 0.0));
    assert!(near(eir.0, 0.73, 1e-12, 0.0));
    let (cap, eir) = GroundSourceHeatPump::default_ewt_modifiers(GshpMode::Cooling, f(500.0));
    assert_eq!((cap.0, eir.0), (0.6, 2.0));
    let (cap, eir) = GroundSourceHeatPump::default_ewt_modifiers(GshpMode::Heating, f(500.0));
    assert_eq!((cap.0, eir.0), (1.5, 0.5));
    assert_eq!(
        GroundSourceHeatPump::default_ewt_modifiers(GshpMode::Off, f(3.0)),
        (f(1.0), f(1.0))
    );
}

#[test]
fn sinusoidal_ground_temperature_by_formula() {
    let g = small_unit();
    let (depth, alpha, day) = (1.5_f64, 0.04_f64, 100.0_f64);
    let pi = std::f64::consts::PI;
    let damping = (-(depth * (pi / (365.0 * alpha)).sqrt())).exp();
    let shift = depth / 2.0 * (365.0 / (pi * alpha)).sqrt();
    let expected = 12.0 - 10.0 * damping * (2.0 * pi / 365.0 * (day - 35.0 - shift)).cos();
    assert_eq!(g.kusuda(f(day), f(depth)).0, expected);
    let mut flat = small_unit();
    flat.kusuda_diffusivity = f(0.0);
    assert_eq!(flat.kusuda(f(day), f(depth)).0, 12.0);
}

#[test]
fn monthly_values_by_day() {
    let mut temps = [f(0.0); 12];
    for m in 0..12 {
        temps[m] = f(m as f64);
    }
    // January 1 is half a day into the year: halfway between the middles of December and
    // January, less half a day.
    assert!(near(interpolate_monthly(&temps, 0).0, 11.0 + (15.5 / 31.0) * (0.0 - 11.0), 1e-12, 0.0));
    // Day 45 is the middle of February.
    assert_eq!(interpolate_monthly(&temps, 45).0, 1.0);
    // Between the middles of July (196.5) and August (227.5).
    assert!(near(interpolate_monthly(&temps, 212).0, 6.0 + 15.5 / 31.0, 1e-12, 0.0));
    // The end of the year runs towards January.
    assert!(near(interpolate_monthly(&temps, 364).0, 11.0 - 11.0 * (14.5 / 31.0), 1e-12, 0.0));
    // The year repeats.
    assert_eq!(interpolate_monthly(&temps, 365 + 45).0, 1.0);
}

#[test]
fn days_are_numbered_from_one() {
    assert_eq!(day_of_year(1, 1), 1);
    assert_eq!(day_of_year(7, 15), 196);
    assert_eq!(day_of_year(12, 31), 365);
    assert_eq!(day_of_year(0, 5), 5);
    assert_eq!(day_of_year(40, 1), 335);
}

#[test]
fn detailed_outputs_report_mode_and_cop() {
    let mut gshp = make_gshp_cooling();
    let inlet = AirPort { t_db: f(26.0), w: f(0.01), p_b: f(101325.0), mass_flow: f(0.1) };
    gshp.simulate_air(&inlet, 7, 15, f(1000.0), CurveValues { cap: None, eir: Some(f(1.0)) });
    let out = gshp.detailed_outputs();
    assert_eq!(out.get("gshp_mode").unwrap().0, -1.0);
    assert_eq!(out.get("loop_pump_power").unwrap().0, 250.0);
    assert!(near(out.get("cop_operating").unwrap().0, 4.5, 1e-9, 1e-9));
    assert_eq!(out.get("entering_water_temp").unwrap().0, gshp.current_ewt.0);
    assert_eq!(out.len(), 4);
    gshp.set_setpoint(f(99.0));
    gshp.simulate_air(&inlet, 7, 15, f(1000.0), NO_CURVES);
    let out = gshp.detailed_outputs();
    assert_eq!(out.get("gshp_mode").unwrap().0, 0.0);
    assert_eq!(out.get("cop_operating").unwrap().0, 0.0);
}

#[test]
fn setters_change_one_field() {
    let mut g = small_unit();
    g.set_nominal_capacity(f(5.0));
    g.set_heating_capacity(f(6.0));
    assert_eq!(g.nominal_capacity(), Some(f(5.0)));
    assert_eq!(g.rated_heating_capacity.0, 6.0);
    assert_eq!(g.power_consumption().0, 0.0);
    assert_eq!(g.thermal_output().0, 0.0);
    g.loop_depth = f(2.5);
    g.configure_ground_source(f(9.0), f(8.0), f(30.0), f(0.05), f(99.0), Some([f(1.0); 12]));
    assert_eq!(g.loop_depth.0, 2.5);
    assert_eq!(g.name, "G");
    assert_eq!(g.submeter, "General");
    g.ground_temp_source = GroundTempSource::EpwMonthly;
    assert_eq!(g.ground_temp_for_day(77).0, 1.0);
    assert_eq!(g.entering_water_temp(GshpMode::Heating, 77).0, -5.0);
    assert_eq!(g.entering_water_temp(GshpMode::Cooling, 77).0, 9.0);
    assert_eq!(g.entering_water_temp(GshpMode::Off, 77).0, 1.0);
}

#[test]
fn fixed_point_unit_stops_at_its_setpoint() {
    let fx = |n: i64, d: i64| Fixed::ratio(n, d);
    let mut g = GroundSourceHeatPump::new(
        "F",
        fx(10_000, 1),
        fx(9_000, 1),
        fx(45, 10),
        fx(4, 1),
        fx(13, 1),
        fx(1, 2),
    );
    let inlet = AirPort {
        t_db: fx(26, 1),
        w: fx(1, 100),
        p_b: fx(101325, 1),
        mass_flow: fx(2, 10),
    };
    let none = CurveValues { cap: None, eir: None };
    let out = g.simulate_air(&inlet, 7, 15, fx(1006, 1), none);
    assert_eq!(g.mode, GshpMode::Cooling);
    assert!(fx(13, 1).units <= out.t_db.units && out.t_db.units <= fx(26, 1).units);
    assert!(GshpMode::default() == GshpMode::Off);
}
