//! Runs: setup, dates, the iteration with the envelope, reports, and the tables and numbers
//! that all of it is built on.
use openbse::air_loop::{AirLoopSystemType, CyclingMethod, FanOperatingMode, LoopInfo};
use openbse::air_side::Supply;
use openbse::calendar::{day_of_year, month_day_from_hour};
use openbse::control::{Economizer, EconomizerType};
use openbse::coupling::{
    average_supply, damp_supplies, envelope_supplies, handles_outdoor_air, has_settled,
    iterate_again, outdoor_air_flags, previous_warmup_hour, update_loads, warmup_is_over,
    VrfSupply, ZoneLoads, MAX_HVAC_ITER, MAX_WARMUP_REPS, WARMUP_HOURS,
};
use openbse::fixed::Fixed;
use openbse::model::{AirLoopInput, ZoneConnection};
use openbse::paths::{locate_file, resolve_against, resolve_path};
use openbse::scalar::Scalar;
use openbse::setup::{
    collect_output, fixed_signals, heat_balance, hour_of_day, plan_runs, previous_hour,
    report_progress, run_hours, schedule_day, set_if_missing, set_output, shallowest,
    sizing_cooling_setpoint, solar_hour, step_share, total_timesteps, weather_source,
    zone_capacity, zone_design_flows, zone_setpoints, FixedSetpoint, RunHours, RunPlan, Thermostat,
    WeatherSource,
};
use openbse::table::Table;
use openbse::text::{contains, is_listed, join, same_text, starts_with, strip_suffix};
use openbse::zone_report::{
    add_to, comfort_temps, solar_gains, surface_outputs, total_surfaces, unmet_setpoints,
    zone_gains, SurfaceState, SurfaceTemp, ZoneAir,
};
use openbse::zones::{
    control_zone, count_zones_above, max_over_zones, mean_over_zones, min_over_zones,
    sum_over_zones, HumidityFloor, ZoneData,
};

/// A double-precision number as the number type of the library.
#[derive(Clone, Copy, Debug, PartialEq)]
struct Double(f64);

impl Scalar for Double {
    fn add(self, other: Self) -> Self {
        Double(self.0 + other.0)
    }
    fn sub(self, other: Self) -> Self {
        Double(self.0 - other.0)
    }
    fn mul(self, other: Self) -> Self {
        Double(self.0 * other.0)
    }
    fn div(self, other: Self) -> Self {
        Double(self.0 / other.0)
    }
    fn neg(self) -> Self {
        Double(-self.0)
    }
    fn abs(self) -> Self {
        Double(self.0.abs())
    }
    fn sqrt(self) -> Self {
        Double(self.0.sqrt())
    }
    fn cos(self) -> Self {
        Double(self.0.cos())
    }
    fn sin(self) -> Self {
        Double(self.0.sin())
    }
    fn exp(self) -> Self {
        Double(self.0.exp())
    }
    fn lt(self, other: Self) -> bool {
        self.0 < other.0
    }
    fn le(self, other: Self) -> bool {
        self.0 <= other.0
    }
    fn eq(self, other: Self) -> bool {
        self.0 == other.0
    }
    fn min(self, other: Self) -> Self {
        Double(self.0.min(other.0))
    }
    fn max(self, other: Self) -> Self {
        Double(self.0.max(other.0))
    }
    fn ratio(numerator: i64, denominator: i64) -> Self {
        Double(numerator as f64 / denominator as f64)
    }
    fn count(n: usize) -> Self {
        Double(n as f64)
    }
    fn max_value() -> Self {
        Double(f64::MAX)
    }
    fn infinity() -> Self {
        Double(f64::INFINITY)
    }
    fn is_finite(self) -> bool {
        self.0.is_finite()
    }
}

/// `a` and `b` differ by at most `epsilon`, or by at most `max_relative` of the larger.
fn near(a: f64, b: f64, epsilon: f64, max_relative: f64) -> bool {
    let difference = (a - b).abs();
    difference <= epsilon || difference <= max_relative * a.abs().max(b.abs())
}

fn f(x: f64) -> Double {
    Double(x)
}

fn table(entries: &[(&str, f64)]) -> Table<Double> {
    let mut t = Table::new();
    for (name, value) in entries {
        t.insert(name, f(*value));
    }
    t
}

fn names(list: &[&str]) -> Vec<String> {
    list.iter().map(|s| s.to_string()).collect()
}

fn value(t: &Table<Double>, key: &str) -> Option<f64> {
    t.get(key).map(|v| v.0)
}

/// Zones of which nothing is known.
fn no_zones() -> ZoneData<Double> {
    ZoneData {
        temps: Table::new(),
        heat_sp: Table::new(),
        cool_sp: Table::new(),
        design_flows: Table::new(),
        cooling_loads: Table::new(),
        heating_loads: Table::new(),
        initial_temps: Table::new(),
        thermal_caps: Table::new(),
        predicted_temps: Table::new(),
        multipliers: Table::new(),
        humidity_ratios: Table::new(),
        rel_humidity: Table::new(),
        default_rel_humidity: f(50.0),
        max_rh: Table::new(),
        min_rh: Table::new(),
    }
}

/// A loop with the given components that serves the given zones.
fn make_loop(
    system_type: AirLoopSystemType,
    components: &[&str],
    zones: &[&str],
) -> LoopInfo<Double> {
    LoopInfo {
        name: "loop".to_string(),
        system_type,
        component_names: names(components),
        fan_names: Vec::new(),
        served_zones: names(zones),
        min_oa_fraction: f(0.15),
        min_vav_fraction: f(0.3),
        availability_schedule: None,
        heating_supply_temp: f(40.0),
        cooling_supply_temp: f(13.0),
        cycling: CyclingMethod::OnOff,
        fan_operating_mode: FanOperatingMode::Cycling,
        terminal_boxes: Table::new(),
        dd_boxes: Table::new(),
        explicit_min_oa: false,
        heat_recovery_name: None,
        hhw_boiler_efficiency: f(0.8),
        dcv: false,
        cooling_sat_reset: None,
        heating_sat_reset: None,
        zone_oa_data: Vec::new(),
        design_supply_flow: f(0.5),
        economizer: Economizer {
            economizer_type: EconomizerType::NoEconomizer,
            high_limit: None,
            high_limit_enthalpy: None,
        },
    }
}

const DAYS: [u32; 12] = [31, 28, 31, 30, 31, 30, 31, 31, 30, 31, 30, 31];

fn close(a: f64, b: f64) -> bool {
    near(a, b, 1e-9, 1e-9)
}

fn supply(temp: f64, flow: f64, w: f64) -> Supply<Double> {
    Supply { temp: f(temp), flow: f(flow), w: f(w) }
}

// Dates

#[test]
fn days_of_the_year_count_from_zero() {
    assert_eq!(day_of_year(1, 1, &DAYS), 0);
    assert_eq!(day_of_year(3, 1, &DAYS), 59);
    assert_eq!(day_of_year(12, 31, &DAYS), 364);
}

#[test]
fn hours_have_dates() {
    assert_eq!(month_day_from_hour(0, &DAYS), (1, 1));
    assert_eq!(month_day_from_hour(31 * 24 - 1, &DAYS), (1, 31));
    assert_eq!(month_day_from_hour(31 * 24, &DAYS), (2, 1));
    assert_eq!(month_day_from_hour(8759, &DAYS), (12, 31));
    assert_eq!(month_day_from_hour(8760, &DAYS), (12, 31));
    assert_eq!(month_day_from_hour(100_000, &DAYS), (12, 31));
}

#[test]
fn every_date_comes_back_from_each_of_its_hours() {
    for month in 1..=12u32 {
        for day in 1..=DAYS[month as usize - 1] {
            for hour in [0, 11, 23] {
                let h = day_of_year(month, day, &DAYS) * 24 + hour;
                assert_eq!(month_day_from_hour(h, &DAYS), (month, day));
            }
        }
    }
}

#[test]
fn run_covers_its_days() {
    let r = run_hours(1, 1, 12, 31, 8760, &DAYS);
    assert_eq!((r.start, r.end), (0, 8760));
    let r = run_hours(2, 1, 2, 2, 8760, &DAYS);
    assert_eq!((r.start, r.end), (744, 792));
    assert_eq!(total_timesteps(&r, 4), 192);
    // The weather ends first.
    let r = run_hours(1, 1, 12, 31, 48, &DAYS);
    assert_eq!((r.start, r.end), (0, 48));
    assert_eq!(total_timesteps(&RunHours { start: 5, end: 5 }, 6), 0);
}

#[test]
fn hours_follow_one_another() {
    assert_eq!(previous_hour(0, 8760), 8759);
    assert_eq!(previous_hour(17, 8760), 16);
    assert_eq!(previous_warmup_hour(0), WARMUP_HOURS - 1);
    assert_eq!(previous_warmup_hour(100), 99);
    assert_eq!(hour_of_day(0), 1);
    assert_eq!(hour_of_day(47), 24);
    assert_eq!(step_share::<Double>(1, 4).0, 0.25);
    assert_eq!(step_share::<Double>(4, 4).0, 1.0);
}

#[test]
fn progress_is_reported_weekly() {
    // The first hour of the run.
    assert!(report_progress(0, 0, 0));
    assert!(!report_progress(1, 0, 0));
    assert!(!report_progress(6 * 24, 0, 0));
    assert!(report_progress(7 * 24, 0, 0));
    assert!(report_progress(744, 744, 31));
}

#[test]
fn holidays_are_the_eighth_day() {
    let holidays = vec![(7u32, 4u32), (12, 25)];
    assert_eq!(schedule_day(3, &holidays, 7, 4), 8);
    assert_eq!(schedule_day(3, &holidays, 7, 5), 3);
    assert_eq!(schedule_day(3, &Vec::new(), 7, 4), 3);
}

#[test]
fn solar_time_follows_the_longitude() {
    // Half past twelve, seven hours west, at 105 degrees west.
    let h = solar_hour(12, f(-7.0), f(-105.0), f(0.1));
    assert!(close(h.0, 12.6));
    let h = solar_hour(36, f(0.0), f(15.0), f(0.0));
    assert!(close(h.0, 11.5));
}

// Setup

#[test]
fn runs_are_planned() {
    assert_eq!(plan_runs(false, Some(3)), RunPlan::Single);
    assert_eq!(plan_runs(true, None), RunPlan::Single);
    assert_eq!(plan_runs(true, Some(0)), RunPlan::Single);
    assert_eq!(plan_runs(true, Some(3)), RunPlan::Parametric(3));
    assert_eq!(weather_source(true, 0), WeatherSource::CommandLine);
    assert_eq!(weather_source(true, 2), WeatherSource::CommandLine);
    assert_eq!(weather_source(false, 2), WeatherSource::Model);
    assert_eq!(weather_source(false, 0), WeatherSource::Missing);
}

#[test]
fn shallowest_profile_is_the_first_of_the_smallest() {
    assert_eq!(shallowest::<Double>(&vec![]), None);
    assert_eq!(shallowest(&vec![f(2.0), f(0.5), f(4.0), f(0.5)]), Some(1));
    assert_eq!(shallowest(&vec![f(f64::NAN), f(0.5)]), Some(0));
}

fn thermostat(zones: &[&str], heat: f64, cool: f64) -> Thermostat<Double> {
    Thermostat { zones: names(zones), heating_setpoint: f(heat), cooling_setpoint: f(cool) }
}

#[test]
fn thermostats_set_their_zones() {
    let stats = vec![thermostat(&["A", "B"], 20.0, 25.0), thermostat(&["B"], 18.0, 27.0)];
    let (heat, cool) = zone_setpoints(&stats);
    assert_eq!(value(&heat, "A"), Some(20.0));
    // The last one counts for control, the first one for sizing.
    assert_eq!(value(&heat, "B"), Some(18.0));
    assert_eq!(value(&cool, "B"), Some(27.0));
    assert_eq!(sizing_cooling_setpoint(&stats, "B").map(|v| v.0), Some(25.0));
    assert!(sizing_cooling_setpoint(&stats, "C").is_none());
    let mut heat = heat;
    set_if_missing(&mut heat, "A", f(1.0));
    set_if_missing(&mut heat, "C", f(2.0));
    assert_eq!((value(&heat, "A"), value(&heat, "C")), (Some(20.0), Some(2.0)));
}

fn air_loop(zones: &[&str], flow: f64) -> AirLoopInput<Double> {
    AirLoopInput {
        name: "AHU".to_string(),
        system_type: AirLoopSystemType::Vav,
        equipment: Vec::new(),
        zone_terminals: zones
            .iter()
            .map(|z| ZoneConnection {
                zone: z.to_string(),
                terminal: None,
                per_person_oa: None,
                per_area_oa: None,
            })
            .collect(),
        minimum_damper_position: None,
        required_oa_fraction: f(0.2),
        min_vav_fraction: f(0.3),
        availability_schedule: None,
        heating_supply_temp: f(40.0),
        cooling_supply_temp: f(13.0),
        cycling: CyclingMethod::OnOff,
        fan_operating_mode: FanOperatingMode::Cycling,
        cooling_sat_reset: None,
        heating_sat_reset: None,
        economizer: None,
        dcv: false,
        design_zone_flow: f(flow),
    }
}

#[test]
fn loops_set_the_flows_of_their_zones() {
    let flows = zone_design_flows(&vec![air_loop(&["A", "B"], 0.4), air_loop(&["B"], 0.9)]);
    assert_eq!(value(&flows, "A"), Some(0.4));
    assert_eq!(value(&flows, "B"), Some(0.9));
    // 1.2 kg/m3 of air in 100 m3 over a quarter of an hour, by third-order differences.
    let c = zone_capacity(f(1.2), f(100.0), f(900.0));
    assert!(close(c.0, 1.2 * 100.0 * 1006.0 * (11.0 / 6.0) / 900.0));
}

#[test]
fn outputs_are_filed_and_collected() {
    let mut results = Table::new();
    set_output(&mut results, "Weather", "outdoor_temp", f(5.0));
    set_output(&mut results, "Fan", "outlet_temp", f(6.0));
    set_output(&mut results, "Fan", "mass_flow", f(7.0));
    set_output(&mut results, "Weather", "outlet_temp", f(8.0));
    assert_eq!(value(results.get("Fan").unwrap(), "outlet_temp"), Some(6.0));
    assert_eq!(value(results.get("Fan").unwrap(), "mass_flow"), Some(7.0));
    let temps = collect_output(&results, "outlet_temp");
    assert_eq!(value(&temps, "Fan"), Some(6.0));
    // The weather is no component.
    assert_eq!(value(&temps, "Weather"), None);
    assert_eq!(temps.len(), 1);
    // Of two entries under one name the first counts.
    let mut again = Table::new();
    again.insert("outlet_temp", f(99.0));
    results.entries.push(("Fan".to_string(), again));
    assert_eq!(value(&collect_output(&results, "outlet_temp"), "Fan"), Some(6.0));
}

#[test]
fn fixed_setpoints_become_signals() {
    let sp = |name: &str, v: f64| FixedSetpoint { name: name.to_string(), value: f(v) };
    let coils = vec![sp("Coil", 13.0), sp("Heater", 35.0), sp("Coil", 14.0)];
    let s = fixed_signals(&coils, &vec![sp("CHW", 7.0), sp("HHW", 60.0), sp("CHW", 6.0)]);
    assert_eq!(value(&s.plant_loop_setpoints, "CHW"), Some(6.0));
    assert_eq!(value(&s.plant_loop_setpoints, "HHW"), Some(60.0));
    assert_eq!(value(&s.plant_loop_setpoints, "Coil"), None);
    assert_eq!(value(&s.coil_setpoints, "Coil"), Some(14.0));
    assert_eq!(value(&s.coil_setpoints, "Heater"), Some(35.0));
    assert_eq!(s.air_mass_flows.len(), 0);
    assert_eq!(heat_balance(f(10.0), f(5.0), f(3.0), f(12.0)).0, 0.0);
}

#[test]
fn paths_are_relative_to_the_input_file() {
    let r = resolve_against("a.epw", true, None);
    assert!(r.base.is_none());
    assert_eq!(r.path, "a.epw");
    let r = resolve_against("a.epw", false, Some("dir".to_string()));
    assert_eq!(r.base, Some("dir".to_string()));
    let r = resolve_against("a.epw", false, None);
    assert_eq!(r.base, Some(".".to_string()));
    let r = locate_file("models/office.yaml", "weather/a.epw");
    assert_eq!(r.base, Some("models".to_string()));
    assert_eq!(r.path, "weather/a.epw");
    let r = locate_file("office.yaml", "a.epw");
    assert_eq!(r.base, Some(String::new()));
    let r = locate_file("models/office.yaml", "/weather/a.epw");
    assert!(r.base.is_none());
    assert_eq!(locate_file("", "a.epw").base, Some(".".to_string()));
    assert_eq!(locate_file("../sites/x/office.yaml", "a").base, Some("../sites/x".to_string()));

    assert_eq!(resolve_path("models/office.yaml", "weather/a.epw"), "models/weather/a.epw");
    assert_eq!(resolve_path("/home/x/office.yaml", "a.epw"), "/home/x/a.epw");
    assert_eq!(resolve_path("office.yaml", "a.epw"), "a.epw");
    assert_eq!(resolve_path("", "a.epw"), "./a.epw");
    assert_eq!(resolve_path("models/office.yaml", "/weather/a.epw"), "/weather/a.epw");
}

// The iteration with the envelope

#[test]
fn supplies_are_damped() {
    let a = average_supply(&supply(30.0, 1.0, 0.010), &supply(14.0, 3.0, 0.006));
    assert_eq!(a.flow.0, 2.0);
    assert!(close(a.temp.0, 18.0));
    assert!(close(a.w.0, 0.007));
    let still = average_supply(&supply(30.0, 0.0, 0.010), &supply(14.0, 0.0, 0.006));
    assert!(close(still.temp.0, 22.0));
    let mut now = Table::new();
    now.insert("A", supply(30.0, 1.0, 0.010));
    now.insert("B", supply(20.0, 1.0, 0.008));
    let mut before = Table::new();
    before.insert("A", supply(14.0, 3.0, 0.006));
    before.insert("C", supply(1.0, 1.0, 0.001));
    let damped = damp_supplies(&now, &before);
    assert!(close(damped.get("A").unwrap().temp.0, 18.0));
    assert_eq!(damped.get("B").unwrap().temp.0, 20.0);
    assert!(damped.get("C").is_none());
}

#[test]
fn iteration_ends_when_settled() {
    let before = table(&[("A", 20.0), ("B", 21.0)]);
    assert!(has_settled(&table(&[("A", 20.04), ("B", 20.97)]), &before));
    assert!(!has_settled(&table(&[("A", 20.06), ("B", 21.0)]), &before));
    // A new zone has nothing to be compared with.
    assert!(has_settled(&table(&[("C", 99.0)]), &before));
    assert!(iterate_again(1, false));
    assert!(!iterate_again(1, true));
    assert!(!iterate_again(MAX_HVAC_ITER, false));
}

#[test]
fn warmup_ends_when_the_zones_repeat() {
    assert!(warmup_is_over(&vec![f(20.4)], &vec![f(20.0)]));
    assert!(!warmup_is_over(&vec![f(20.0), f(20.5)], &vec![f(20.0), f(20.0)]));
    assert!(warmup_is_over::<Double>(&vec![], &vec![]));
    assert_eq!(MAX_WARMUP_REPS * WARMUP_HOURS / 24, 28);
}

#[test]
fn envelope_gets_the_air_of_conditioned_zones() {
    let mut supplies = Table::new();
    supplies.insert("A", supply(14.0, 1.0, 0.008));
    supplies.insert("Attic", supply(15.0, 1.0, 0.008));
    supplies.insert("New", supply(16.0, 1.0, 0.008));
    let mut conditioned = Table::new();
    conditioned.insert("A", true);
    conditioned.insert("Attic", false);
    let unit = |zone: &str, flow: f64| VrfSupply {
        zone: zone.to_string(),
        supply: supply(33.0, flow, 0.007),
    };
    let units = vec![unit("A", 0.2), unit("New", 0.0), unit("Attic", 0.3)];
    let r = envelope_supplies(&supplies, &conditioned, &units);
    assert_eq!(r.get("A").unwrap().temp.0, 33.0);
    assert_eq!(r.get("New").unwrap().temp.0, 16.0);
    assert_eq!(r.get("Attic").unwrap().flow.0, 0.3);
}

#[test]
fn loops_with_outdoor_air_ventilate_their_zones() {
    assert!(!handles_outdoor_air(f(0.001)));
    assert!(handles_outdoor_air(f(0.002)));
    let mut still = make_loop(AirLoopSystemType::Ptac, &[], &["A", "B"]);
    still.min_oa_fraction = f(0.0);
    let fresh = make_loop(AirLoopSystemType::Doas, &[], &["B"]);
    let flags = outdoor_air_flags(&vec![still, fresh]);
    assert_eq!(flags.get("A"), Some(&false));
    assert_eq!(flags.get("B"), Some(&true));
}

#[test]
fn loads_of_conditioned_zones_are_updated() {
    let mut heating = table(&[("A", 1.0), ("B", 2.0)]);
    let mut cooling = table(&[("A", 3.0)]);
    let zone = |name: &str, conditioned: bool| ZoneLoads {
        name: name.to_string(),
        conditioned,
        heating: f(10.0),
        cooling: f(20.0),
    };
    update_loads(&mut heating, &mut cooling, &vec![zone("A", true), zone("B", false)]);
    assert_eq!((value(&heating, "A"), value(&cooling, "A")), (Some(10.0), Some(20.0)));
    assert_eq!((value(&heating, "B"), value(&cooling, "B")), (Some(2.0), None));
}

// Reports

#[test]
fn zone_gains_by_flow() {
    let zone = ZoneAir {
        temp: f(20.0),
        w: f(0.008),
        cp: f(1000.0),
        infiltration: f(0.1),
        ventilation: f(0.2),
        natural_ventilation: f(0.3),
        supply: f(0.5),
        supply_temp: f(14.0),
        supply_w: f(0.007),
    };
    let g = zone_gains(&zone, f(30.0), f(0.010));
    assert!(close(g.infiltration.sensible.0, 1000.0));
    assert!(close(g.infiltration.latent.0, 0.1 * 2_501_000.0 * 0.002));
    assert!(close(g.ventilation.sensible.0, 2000.0));
    assert!(close(g.natural_ventilation.sensible.0, 3000.0));
    assert!(close(g.hvac.sensible.0, -3000.0));
    assert!(close(g.hvac.latent.0, -0.5 * 2_501_000.0 * 0.001));
}

#[test]
fn unmet_setpoints_have_a_tolerance() {
    let unmet = |t: f64| {
        let u = unmet_setpoints(f(t), f(20.0), f(24.0));
        (u.heating, u.cooling)
    };
    assert_eq!(unmet(19.7), (true, false));
    assert_eq!(unmet(19.9), (false, false));
    assert_eq!(unmet(24.1), (false, false));
    assert_eq!(unmet(24.3), (false, true));
}

#[test]
fn comfort_weighs_surfaces_by_area() {
    let s = |area: f64, temp: f64| SurfaceTemp { area: f(area), temp: f(temp) };
    let (mrt, op) = comfort_temps(&vec![s(10.0, 18.0), s(30.0, 22.0)], f(23.0));
    assert!(close(mrt.0, 21.0));
    assert!(close(op.0, 22.0));
    let (mrt, op) = comfort_temps::<Double>(&vec![], f(23.0));
    assert_eq!((mrt.0, op.0), (23.0, 23.0));
}

fn surface(name: &str, zone: &str, is_window: bool) -> SurfaceState<Double> {
    SurfaceState {
        name: name.to_string(),
        zone: zone.to_string(),
        is_window,
        net_area: f(10.0),
        temp_inside: f(18.0),
        temp_outside: f(5.0),
        incident_solar: f(100.0),
        transmitted_solar: f(if is_window { 500.0 } else { 0.0 }),
        q_cond_inside: f(-4.0),
        q_conv_inside: f(-6.0),
        h_conv_inside: f(3.0),
    }
}

#[test]
fn surfaces_report_and_add_up() {
    let wall = surface("Wall", "A", false);
    let window = surface("Window", "A", true);
    let out = surface_outputs(&wall, f(20.0));
    assert_eq!(value(&out, "cond_inside"), Some(-40.0));
    assert_eq!(value(&out, "conv_to_zone"), Some(-60.0));
    assert_eq!(value(&out, "h_conv_inside"), Some(3.0));
    assert_eq!(value(&out, "transmitted_solar"), None);
    let out = surface_outputs(&window, f(20.0));
    assert_eq!(value(&out, "transmitted_solar"), Some(500.0));
    assert_eq!(value(&out, "conv_inside"), Some(-60.0));
    let all = vec![wall, window, surface("Site", "", false)];
    let t = total_surfaces(&all);
    assert_eq!(value(&t.solar, "A"), Some(500.0));
    assert_eq!(value(&t.opaque_conduction, "A"), Some(-40.0));
    assert_eq!(value(&t.window_conduction, "A"), Some(-60.0));
    assert_eq!(value(&t.solar, ""), None);
    let gains = solar_gains(&all);
    assert_eq!(value(&gains, "A"), Some(500.0));
    assert_eq!(gains.len(), 1);
    let mut sums = Table::new();
    add_to(&mut sums, "A", f(1.0));
    add_to(&mut sums, "A", f(2.0));
    assert_eq!(value(&sums, "A"), Some(3.0));
}

// Zones

#[test]
fn quantities_of_zones() {
    let served = names(&["A", "B", "C"]);
    let t = table(&[("A", 1.0), ("B", 5.0)]);
    assert_eq!(sum_over_zones(&served, &t, f(0.5)).0, 6.5);
    assert_eq!(mean_over_zones(&served, &t, f(3.0), f(9.0)).0, 3.0);
    assert_eq!(mean_over_zones(&Vec::new(), &t, f(3.0), f(9.0)).0, 9.0);
    assert_eq!(max_over_zones(&served, &t, f(3.0)).0, 5.0);
    assert_eq!(min_over_zones(&served, &t, f(3.0)).0, 1.0);
    assert_eq!(max_over_zones(&Vec::new(), &t, f(3.0)).0, f64::NEG_INFINITY);
    assert_eq!(count_zones_above(&served, &t, f(1.0)), 1);
    assert_eq!(control_zone(&served), "A");
    assert_eq!(control_zone(&Vec::new()), "");
}

#[test]
fn humidity_limits_apply_to_their_zones() {
    let mut z = no_zones();
    z.max_rh = table(&[("A", 60.0), ("B", 60.0)]);
    z.rel_humidity = table(&[("A", 61.0)]);
    assert!(z.is_too_humid("A"));
    // The default of 50 % counts where nothing is known.
    assert!(!z.is_too_humid("B"));
    assert!(!z.is_too_humid("C"));
    z.min_rh.insert("B", HumidityFloor { min_rh: f(55.0), w_target: f(0.009) });
    z.min_rh.insert("C", HumidityFloor { min_rh: f(55.0), w_target: f(0.010) });
    assert!(z.humidify("A").is_none());
    assert_eq!(z.humidify("B").map(|v| v.0), Some(0.009));
    let served = names(&["A", "C", "B"]);
    assert_eq!(z.humidify_any(&served).map(|v| v.0), Some(0.010));
    assert!(z.humidify_any(&names(&["A"])).is_none());
}

// Tables and texts

#[test]
fn tables_keep_the_last_value_of_a_name() {
    let mut t = table(&[("a", 1.0), ("b", 2.0)]);
    t.insert("a", f(3.0));
    assert_eq!(value(&t, "a"), Some(3.0));
    assert_eq!(t.len(), 2);
    assert_eq!(t.position("b"), Some(1));
    assert_eq!(t.position("c"), None);
    assert!(t.contains_key("b") && !t.contains_key("c"));
    assert_eq!(t.get_or("c", f(9.0)).0, 9.0);
    t.merge(&table(&[("b", 5.0), ("c", 6.0)]));
    assert_eq!((value(&t, "a"), value(&t, "b"), value(&t, "c")), (Some(3.0), Some(5.0), Some(6.0)));
}

#[test]
fn parts_of_texts() {
    assert!(contains("main cooling coil", "cool"));
    assert!(contains("dx", "dx"));
    assert!(contains("x", ""));
    assert!(!contains("d", "dx"));
    assert!(starts_with("cc_1", "cc_"));
    assert!(!starts_with("1cc_", "cc_"));
    assert_eq!(strip_suffix("GSHP-1 [gshp heating]", " [gshp heating]"), Some("GSHP-1".to_string()));
    assert_eq!(strip_suffix("GSHP-1", " [gshp heating]"), None);
    assert!(same_text("a", "a") && !same_text("a", "A"));
    assert_eq!(join("a", "b"), "ab");
    assert!(is_listed(&names(&["a", "b"]), "b"));
    assert!(!is_listed(&names(&["a", "b"]), "c"));
}

// Fixed-point numbers

fn x(units: i64) -> Fixed {
    Fixed { units }
}

#[test]
fn fixed_point_arithmetic() {
    let half = Fixed::ratio(1, 2);
    assert_eq!(half, x(500_000_000));
    assert_eq!(half.add(half), Fixed::ratio(1, 1));
    assert_eq!(half.mul(half), Fixed::ratio(1, 4));
    assert_eq!(half.div(Fixed::ratio(-1, 4)), Fixed::ratio(-2, 1));
    assert_eq!(Fixed::ratio(-1, 3), x(-333_333_334));
    assert_eq!(half.neg().abs(), half);
    assert_eq!(Fixed::ratio(2, 1).sqrt(), x(1_414_213_562));
    assert_eq!(Fixed::ratio(-2, 1).sqrt(), x(0));
    assert_eq!(Fixed::count(3), Fixed::ratio(3, 1));
    assert!(x(1).lt(x(2)) && !x(2).lt(x(2)) && x(2).le(x(2)));
    assert_eq!(x(1).min(x(2)), x(1));
    assert_eq!(x(1).max(x(2)), x(2));
}

#[test]
fn fixed_point_saturates() {
    let top = Fixed::max_value();
    assert_eq!(top.add(top), top);
    assert_eq!(top.neg().sub(top), x(i64::MIN));
    assert_eq!(x(5).div(x(0)), top);
    assert_eq!(x(-5).div(x(0)), x(i64::MIN));
    assert_eq!(x(0).div(x(0)), x(0));
    assert!(!top.is_finite() && x(0).is_finite());
    assert_eq!(Fixed::count(usize::MAX), top);
}

#[test]
fn fixed_point_functions() {
    let one = Fixed::ratio(1, 1);
    let within = |a: Fixed, b: f64| (a.units as f64 / 1e9 - b).abs() < 1e-7;
    assert!(within(one.cos(), 1f64.cos()));
    assert!(within(one.sin(), 1f64.sin()));
    assert!(within(one.exp(), 1f64.exp()));
    assert!(within(one.neg().exp(), (-1f64).exp()));
}
