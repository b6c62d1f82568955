//! Control of packaged units, outdoor air systems, fan coils and plants on
//! double-precision numbers.
use openbse::air_loop::{AirLoopSystemType, CyclingMethod, FanOperatingMode, LoopInfo};
use openbse::control::{
    apply_coil_rule, apply_plant_reset, apply_sat_reset, apply_sat_reset_heating, coil_setpoint,
    economizer_available, hvac_mode, AirReading, CoilRule, Economizer, EconomizerType, HvacMode,
    PlantResetConfig, SatResetConfig,
};
use openbse::loop_results::cycles_on_off;
use openbse::model::{PlantEquipmentInput, PlantEquipmentKind, PlantLoopInput, StagingMode};
use openbse::plant::Staging;
use openbse::scalar::Scalar;
use openbse::signals::{build_doas_signals, build_fcu_signals, build_psz_signals};
use openbse::table::Table;
use openbse::zones::{HumidityFloor, ZoneData};

/// A double-precision number as the number type of the library.
#[derive(Clone, Copy, Debug, PartialEq)]
struct Double(f64);

impl Scalar for Double {
    fn add(self, other: Self) -> Self {
        Double(self.0 + other.0)
    }
    fn sub(self, other: Self) -> Self {
        Double(self.0 - other.0)
    }
    fn mul(self, other: Self) -> Self {
        Double(self.0 * other.0)
    }
    fn div(self, other: Self) -> Self {
        Double(self.0 / other.0)
    }
    fn neg(self) -> Self {
        Double(-self.0)
    }
    fn abs(self) -> Self {
        Double(self.0.abs())
    }
    fn sqrt(self) -> Self {
        Double(self.0.sqrt())
    }
    fn cos(self) -> Self {
        Double(self.0.cos())
    }
    fn sin(self) -> Self {
        Double(self.0.sin())
    }
    fn exp(self) -> Self {
        Double(self.0.exp())
    }
    fn lt(self, other: Self) -> bool {
        self.0 < other.0
    }
    fn le(self, other: Self) -> bool {
        self.0 <= other.0
    }
    fn eq(self, other: Self) -> bool {
        self.0 == other.0
    }
    fn min(self, other: Self) -> Self {
        Double(self.0.min(other.0))
    }
    fn max(self, other: Self) -> Self {
        Double(self.0.max(other.0))
    }
    fn ratio(numerator: i64, denominator: i64) -> Self {
        Double(numerator as f64 / denominator as f64)
    }
    fn count(n: usize) -> Self {
        Double(n as f64)
    }
    fn max_value() -> Self {
        Double(f64::MAX)
    }
    fn infinity() -> Self {
        Double(f64::INFINITY)
    }
    fn is_finite(self) -> bool {
        self.0.is_finite()
    }
}

/// `a` and `b` differ by at most `epsilon`, or by at most `max_relative` of the larger.
fn near(a: f64, b: f64, epsilon: f64, max_relative: f64) -> bool {
    let difference = (a - b).abs();
    difference <= epsilon || difference <= max_relative * a.abs().max(b.abs())
}

fn f(x: f64) -> Double {
    Double(x)
}

fn table(entries: &[(&str, f64)]) -> Table<Double> {
    let mut t = Table::new();
    for (name, value) in entries {
        t.insert(name, f(*value));
    }
    t
}

fn names(list: &[&str]) -> Vec<String> {
    list.iter().map(|s| s.to_string()).collect()
}

fn value(t: &Table<Double>, key: &str) -> Option<f64> {
    t.get(key).map(|v| v.0)
}

/// Zones of which nothing is known.
fn no_zones() -> ZoneData<Double> {
    ZoneData {
        temps: Table::new(),
        heat_sp: Table::new(),
        cool_sp: Table::new(),
        design_flows: Table::new(),
        cooling_loads: Table::new(),
        heating_loads: Table::new(),
        initial_temps: Table::new(),
        thermal_caps: Table::new(),
        predicted_temps: Table::new(),
        multipliers: Table::new(),
        humidity_ratios: Table::new(),
        rel_humidity: Table::new(),
        default_rel_humidity: f(50.0),
        max_rh: Table::new(),
        min_rh: Table::new(),
    }
}

/// A loop with the given components that serves the given zones.
fn make_loop(
    system_type: AirLoopSystemType,
    components: &[&str],
    zones: &[&str],
) -> LoopInfo<Double> {
    LoopInfo {
        name: "loop".to_string(),
        system_type,
        component_names: names(components),
        fan_names: Vec::new(),
        served_zones: names(zones),
        min_oa_fraction: f(0.15),
        min_vav_fraction: f(0.3),
        availability_schedule: None,
        heating_supply_temp: f(40.0),
        cooling_supply_temp: f(13.0),
        cycling: CyclingMethod::OnOff,
        fan_operating_mode: FanOperatingMode::Cycling,
        terminal_boxes: Table::new(),
        dd_boxes: Table::new(),
        explicit_min_oa: false,
        heat_recovery_name: None,
        hhw_boiler_efficiency: f(0.8),
        dcv: false,
        cooling_sat_reset: None,
        heating_sat_reset: None,
        zone_oa_data: Vec::new(),
        design_supply_flow: f(0.5),
        economizer: Economizer {
            economizer_type: EconomizerType::NoEconomizer,
            high_limit: None,
            high_limit_enthalpy: None,
        },
    }
}

/// Specific enthalpy of moist air [J/kg].
fn enthalpy(t: f64, w: f64) -> f64 {
    1006.0 * t + w * (2_501_000.0 + 1860.0 * t)
}

/// Relative humidity [%] of air at sea level.
fn rel_humidity(t: f64, w: f64) -> f64 {
    let saturation = 610.94 * (17.625 * t / (t + 243.04)).exp();
    let vapour = 101325.0 * w / (0.62198 + w);
    100.0 * vapour / saturation
}

fn reading(t: f64, w: f64) -> AirReading<Double> {
    AirReading { temp: f(t), enthalpy: f(enthalpy(t, w)) }
}

fn mode_table(zone: &str, mode: HvacMode) -> Table<HvacMode> {
    let mut t = Table::new();
    t.insert(zone, mode);
    t
}

fn one_zone(
    temp: f64,
    heat_sp: f64,
    cool_sp: f64,
    flow: f64,
    heating: f64,
    cooling: f64,
) -> ZoneData<Double> {
    let mut z = no_zones();
    z.temps = table(&[("Zone1", temp)]);
    z.heat_sp = table(&[("Zone1", heat_sp)]);
    z.cool_sp = table(&[("Zone1", cool_sp)]);
    z.design_flows = table(&[("Zone1", flow)]);
    z.heating_loads = table(&[("Zone1", heating)]);
    z.cooling_loads = table(&[("Zone1", cooling)]);
    z
}

fn make_pthp_loop(components: &[&str]) -> LoopInfo<Double> {
    let mut li = make_loop(AirLoopSystemType::Pthp, components, &["Zone1"]);
    li.name = "test_pthp".to_string();
    li.min_oa_fraction = f(0.0);
    li.heating_supply_temp = f(45.0);
    li.design_supply_flow = f(0.3);
    li
}

fn make_psz_loop(kind: EconomizerType) -> LoopInfo<Double> {
    let mut li = make_loop(AirLoopSystemType::PszAc, &["DX Cooling Coil"], &["Zone1"]);
    li.name = "test_psz".to_string();
    li.economizer.economizer_type = kind;
    li
}

fn economizer(kind: EconomizerType) -> Economizer<Double> {
    Economizer { economizer_type: kind, high_limit: None, high_limit_enthalpy: None }
}

#[test]
fn test_pthp_heating_mode_sets_hp_coil_setpoint() {
    let li = make_pthp_loop(&["R101 HP Heating Coil", "R101 DX Cooling Coil"]);
    let zones = one_zone(18.0, 21.1, 23.9, 0.3, 2000.0, 0.0);
    let modes = mode_table("Zone1", HvacMode::Heating);
    let signals = build_fcu_signals(&li, &zones, &modes, f(5.0));

    // HP heating coil gets the design heating supply temp
    assert_eq!(
        value(&signals.coil_setpoints, "R101 HP Heating Coil"),
        Some(li.heating_supply_temp.0)
    );
    // DX cooling coil is disabled in heating mode
    assert_eq!(value(&signals.coil_setpoints, "R101 DX Cooling Coil"), Some(99.0));
    // Fan runs at design flow (not proportional like FCU)
    assert_eq!(value(&signals.air_mass_flows, "R101 HP Heating Coil"), Some(0.3));
}

#[test]
fn test_pthp_cooling_mode_sets_dx_setpoint() {
    let li = make_pthp_loop(&["R101 HP Heating Coil", "R101 DX Cooling Coil"]);
    let mut zones = one_zone(26.0, 21.1, 23.9, 0.3, 0.0, 1500.0);
    zones.humidity_ratios = table(&[("Zone1", 0.010)]);
    let modes = mode_table("Zone1", HvacMode::Cooling);
    let signals = build_fcu_signals(&li, &zones, &modes, f(30.0));

    assert_eq!(
        value(&signals.coil_setpoints, "R101 DX Cooling Coil"),
        Some(li.cooling_supply_temp.0)
    );
    assert_eq!(value(&signals.coil_setpoints, "R101 HP Heating Coil"), Some(-99.0));
}

#[test]
fn test_pthp_included_in_plr_cycling_check() {
    // PLR cycling applies to PSZ-AC, PTAC, and PTHP
    assert!(cycles_on_off(AirLoopSystemType::Pthp));
    assert!(cycles_on_off(AirLoopSystemType::PszAc));
    assert!(cycles_on_off(AirLoopSystemType::Ptac));
    // FCU is NOT in the PLR cycling set
    assert!(!cycles_on_off(AirLoopSystemType::Fcu));
    assert!(!cycles_on_off(AirLoopSystemType::Vav));
}

#[test]
fn test_differential_enthalpy_uses_enthalpy_not_temperature() {
    // Warm humid outdoor air (high enthalpy) vs cooler drier return air.
    // Temperature alone says OA (20 C) < return (22 C); enthalpy says OA > return.
    let oa = reading(20.0, 0.015);
    let back = reading(22.0, 0.006);
    assert!(oa.temp.0 < back.temp.0);
    assert!(oa.enthalpy.0 > back.enthalpy.0);
    let kind = EconomizerType::DifferentialEnthalpy;
    assert!(!economizer_available(&economizer(kind), &oa, &back));
    let kind = EconomizerType::DifferentialDryBulb;
    assert!(economizer_available(&economizer(kind), &oa, &back));
}

#[test]
fn test_differential_enthalpy_opens_when_outdoor_is_cold_dry() {
    let oa = reading(5.0, 0.002);
    let back = reading(22.0, 0.009);
    assert!(oa.enthalpy.0 < back.enthalpy.0);
    let kind = EconomizerType::DifferentialEnthalpy;
    assert!(economizer_available(&economizer(kind), &oa, &back));
}

#[test]
fn test_fixed_enthalpy_lockout() {
    // FixedEnthalpy: lock out when OA enthalpy > limit (65200 J/kg default)
    let limit = 65_200.0_f64;
    let back = reading(22.0, 0.009);
    let kind = EconomizerType::FixedEnthalpy;

    // High-enthalpy outdoor air (hot and humid): t=30 C, w=0.020
    let hot = reading(30.0, 0.020);
    assert!(hot.enthalpy.0 > limit);
    assert!(!economizer_available(&economizer(kind), &hot, &back));

    // Low-enthalpy outdoor air (cool and dry): t=10 C, w=0.004
    let cool = reading(10.0, 0.004);
    assert!(cool.enthalpy.0 < limit);
    assert!(economizer_available(&economizer(kind), &cool, &back));
}

#[test]
fn test_enthalpy_with_high_limit_requires_both_conditions() {
    // Requires h_oa < h_return AND t_oa < 23.889
    let back = reading(22.0, 0.009);
    let e = economizer(EconomizerType::EnthalpyWithHighLimit);
    let temp_limit = 23.889_f64;

    // Enthalpy OK but temp too high -> closed
    let warm = reading(25.0, 0.004);
    assert!(warm.enthalpy.0 < back.enthalpy.0);
    assert!(!(warm.temp.0 < temp_limit));
    assert!(!economizer_available(&e, &warm, &back));

    // Temp OK but enthalpy too high -> closed
    let humid = reading(20.0, 0.015);
    assert!(!(humid.enthalpy.0 < back.enthalpy.0));
    assert!(humid.temp.0 < temp_limit);
    assert!(!economizer_available(&e, &humid, &back));

    // Both conditions met -> open
    let good = reading(10.0, 0.003);
    assert!(good.enthalpy.0 < back.enthalpy.0 && good.temp.0 < temp_limit);
    assert!(economizer_available(&e, &good, &back));
}

#[test]
fn test_psz_differential_enthalpy_economizer() {
    let mut li = make_psz_loop(EconomizerType::DifferentialEnthalpy);
    li.min_oa_fraction = f(0.15);
    let mut zones = one_zone(22.0, 21.1, 23.9, 0.5, 0.0, 3000.0);
    zones.humidity_ratios = table(&[("Zone1", 0.009)]);
    let modes = mode_table("Zone1", HvacMode::Cooling);
    let back = f(enthalpy(22.0, 0.009));

    // Warm humid outdoor air: enthalpy > return -> economizer closed
    let signals_humid =
        build_psz_signals(&li, &zones, &modes, &reading(20.0, 0.015), back, li.min_oa_fraction);
    let oa_frac_humid = value(&signals_humid.coil_setpoints, "__oa_fraction__").unwrap_or(0.0);
    assert!((oa_frac_humid - li.min_oa_fraction.0).abs() < 0.01);

    // Cool dry outdoor air: enthalpy < return -> economizer open
    let signals_dry =
        build_psz_signals(&li, &zones, &modes, &reading(12.0, 0.003), back, li.min_oa_fraction);
    let oa_frac_dry = value(&signals_dry.coil_setpoints, "__oa_fraction__").unwrap_or(0.0);
    assert!(oa_frac_dry > li.min_oa_fraction.0);
    // (22 - 13) / (22 - 12)
    assert!(near(oa_frac_dry, 0.9, 1e-12, 0.0));
}

/// Two chillers of 100 kW that deliver what is asked of them, up to their capacity.
fn two_chillers(staging_mode: StagingMode, threshold: f64) -> PlantLoopInput<Double> {
    let chiller = |name: &str| PlantEquipmentInput {
        kind: PlantEquipmentKind::Chiller,
        name: name.to_string(),
        submeter: "General".to_string(),
        efficiency: f(0.0),
        capacity: f(100_000.0),
        cop: f(3.5),
        source_loop: String::new(),
        condenser_plant_loop: None,
    };
    PlantLoopInput {
        name: "CHW".to_string(),
        design_delta_t: f(5.0),
        design_supply_temp: f(7.0),
        setpoint_reset: None,
        staging_mode,
        staging_threshold: f(threshold),
        supply_equipment: vec![chiller("CH1"), chiller("CH2")],
    }
}

#[test]
fn test_chiller_staging_sequential_threshold_stops_second_unit() {
    let plant = two_chillers(StagingMode::Sequential, 0.9);
    let chiller = PlantEquipmentKind::Chiller;
    let rated = 100_000.0_f64;

    // Small load: 40% of CH1 capacity -> PLR 0.4 < threshold 0.9, CH2 must not start
    let mut staging = Staging::start(&plant, f(-40_000.0));
    let asked = staging.next(&plant, chiller).unwrap();
    assert_eq!(asked.0, 40_000.0);
    let delivered1 = asked.0.min(rated);
    staging.record(chiller, f(delivered1), f(rated));
    assert!(staging.last_part_load.0 < 0.9);
    assert!(staging.next(&plant, chiller).is_none());

    // Large load: 95% of CH1 capacity -> PLR >= 0.9, the threshold lets CH2 start
    let large_load = 95_000.0_f64;
    let mut staging = Staging::start(&plant, f(-large_load));
    let asked = staging.next(&plant, chiller).unwrap();
    assert_eq!(asked.0, large_load);
    let delivered2 = asked.0.min(rated);
    staging.record(chiller, f(delivered2), f(rated));
    assert!(staging.last_part_load.0 >= 0.9);

    // CH2 is asked for what remains, which is nothing
    assert_eq!(staging.remaining.0.abs(), (large_load - delivered2).max(0.0));
    let asked_of_ch2 = staging.next(&plant, chiller).map_or(0.0, |q| q.0);
    assert!(asked_of_ch2 >= 0.0);
}

#[test]
fn second_chiller_takes_what_the_first_leaves_at_the_threshold() {
    let plant = two_chillers(StagingMode::Sequential, 0.9);
    let chiller = PlantEquipmentKind::Chiller;
    let rated = 100_000.0_f64;

    // Still a load left, but CH1 below the threshold: CH2 must not stage on
    let mut staging = Staging::start(&plant, f(-60_000.0));
    staging.next(&plant, chiller).unwrap();
    staging.record(chiller, f(40_000.0), f(rated));
    assert_eq!(staging.remaining.0, -20_000.0);
    assert!(staging.next(&plant, chiller).is_none());

    // CH1 at 95%: CH2 takes the rest
    let mut staging = Staging::start(&plant, f(-100_000.0));
    staging.next(&plant, chiller).unwrap();
    staging.record(chiller, f(95_000.0), f(rated));
    assert!(staging.last_part_load.0 >= 0.9);
    assert_eq!(staging.next(&plant, chiller).unwrap().0, 5_000.0);
}

#[test]
fn test_chiller_staging_equal_split_distributes_evenly() {
    let plant = two_chillers(StagingMode::EqualSplit, 0.9);
    let chiller = PlantEquipmentKind::Chiller;
    let total_load = 120_000.0_f64;
    let mut staging = Staging::start(&plant, f(-total_load));
    let delivered1 = staging.next(&plant, chiller).unwrap().0;
    staging.record(chiller, f(delivered1), f(100_000.0));
    let delivered2 = staging.next(&plant, chiller).unwrap().0;
    staging.record(chiller, f(delivered2), f(100_000.0));
    assert!((delivered1 - delivered2).abs() / delivered1 < 0.10);
    assert!(delivered1 + delivered2 >= total_load * 0.95);
    assert_eq!(delivered1, 60_000.0);
    assert_eq!(staging.remaining.0, 0.0);
}

#[test]
fn test_psz_rh_override_forces_cooling_in_deadband() {
    // Zone at 22 C (deadband), but 70% RH -> must force cooling to dehumidify
    let li = make_psz_loop(EconomizerType::NoEconomizer);
    let mut zones = one_zone(22.0, 20.0, 24.0, 0.5, 0.0, 0.0);
    zones.humidity_ratios = table(&[("Zone1", 0.0117)]);
    zones.rel_humidity = table(&[("Zone1", rel_humidity(22.0, 0.0117))]);
    zones.max_rh = table(&[("Zone1", 60.0)]);
    let modes = mode_table("Zone1", HvacMode::Deadband);
    let signals = build_psz_signals(
        &li,
        &zones,
        &modes,
        &reading(20.0, 0.008),
        f(enthalpy(22.0, 0.0117)),
        li.min_oa_fraction,
    );
    let coil_sp = value(&signals.coil_setpoints, "DX Cooling Coil").unwrap_or(99.0);
    assert!(coil_sp < 99.0);
    // Dehumidify-only: setpoint = zone_temp - 0.5 = 21.5
    assert!((coil_sp - 21.5).abs() < 1.0);
    assert_eq!(coil_sp, 21.5);
}

#[test]
fn test_psz_no_rh_override_when_rh_ok() {
    // Zone at 22 C, deadband, 40% RH -> should stay in deadband (no cooling)
    let li = make_psz_loop(EconomizerType::NoEconomizer);
    let mut zones = one_zone(22.0, 20.0, 24.0, 0.5, 0.0, 0.0);
    zones.humidity_ratios = table(&[("Zone1", 0.0066)]);
    zones.rel_humidity = table(&[("Zone1", rel_humidity(22.0, 0.0066))]);
    zones.max_rh = table(&[("Zone1", 60.0)]);
    let modes = mode_table("Zone1", HvacMode::Deadband);
    let signals = build_psz_signals(
        &li,
        &zones,
        &modes,
        &reading(20.0, 0.008),
        f(enthalpy(22.0, 0.0066)),
        li.min_oa_fraction,
    );
    let coil_sp = value(&signals.coil_setpoints, "DX Cooling Coil").unwrap_or(99.0);
    assert_eq!(coil_sp, 99.0);
}

fn oa_reset() -> SatResetConfig<Double> {
    SatResetConfig::OaReset {
        sat_min: f(11.0),
        sat_max: f(16.0),
        oa_low: f(10.0),
        oa_high: f(24.0),
    }
}

#[test]
fn test_sat_oa_reset_at_oa_low() {
    let plrs = Vec::new();
    let sat = apply_sat_reset(&oa_reset(), f(10.0), f(13.0), &plrs);
    assert!((sat.0 - 16.0).abs() < 0.001);
}

#[test]
fn test_sat_oa_reset_at_oa_high() {
    let plrs = Vec::new();
    let sat = apply_sat_reset(&oa_reset(), f(24.0), f(13.0), &plrs);
    assert!((sat.0 - 11.0).abs() < 0.001);
}

#[test]
fn test_sat_oa_reset_midpoint() {
    let plrs = Vec::new();
    let sat = apply_sat_reset(&oa_reset(), f(17.0), f(13.0), &plrs);
    assert!((sat.0 - 13.5).abs() < 0.001);
}

#[test]
fn heating_reset_runs_the_same_way() {
    let plrs = Vec::new();
    assert_eq!(apply_sat_reset_heating(&oa_reset(), f(0.0), f(13.0), &plrs).0, 16.0);
    assert_eq!(apply_sat_reset_heating(&oa_reset(), f(30.0), f(13.0), &plrs).0, 11.0);
    assert_eq!(apply_sat_reset_heating(&oa_reset(), f(17.0), f(13.0), &plrs).0, 13.5);
}

#[test]
fn demand_reset_steps_by_the_most_loaded_zone() {
    let reset = SatResetConfig::DemandReset { sat_min: f(12.0), sat_max: f(14.0), step: f(0.5) };
    let loaded = vec![f(0.2), f(0.96)];
    let idle = vec![f(0.2), f(0.4)];
    assert_eq!(apply_sat_reset(&reset, f(0.0), f(13.0), &loaded).0, 12.5);
    assert_eq!(apply_sat_reset(&reset, f(0.0), f(13.0), &idle).0, 13.5);
    assert_eq!(apply_sat_reset(&reset, f(0.0), f(12.2), &loaded).0, 12.0);
    assert_eq!(apply_sat_reset(&reset, f(0.0), f(13.8), &idle).0, 14.0);
    assert_eq!(apply_sat_reset_heating(&reset, f(0.0), f(13.0), &loaded).0, 13.5);
    assert_eq!(apply_sat_reset_heating(&reset, f(0.0), f(13.0), &idle).0, 12.5);
}

#[test]
fn plant_reset_by_outdoor_temperature() {
    let reset = PlantResetConfig::OaReset {
        sp_min: f(60.0),
        sp_max: f(80.0),
        oa_low: f(-10.0),
        oa_high: f(10.0),
    };
    assert_eq!(apply_plant_reset(&reset, f(-20.0)).0, 80.0);
    assert_eq!(apply_plant_reset(&reset, f(0.0)).0, 70.0);
    assert_eq!(apply_plant_reset(&reset, f(20.0)).0, 60.0);
}

#[test]
fn thermostat_modes() {
    assert_eq!(hvac_mode(f(20.0), f(21.0), f(24.0)), HvacMode::Heating);
    assert_eq!(hvac_mode(f(25.0), f(21.0), f(24.0)), HvacMode::Cooling);
    assert_eq!(hvac_mode(f(21.0), f(21.0), f(24.0)), HvacMode::Deadband);
    assert_eq!(hvac_mode(f(24.0), f(21.0), f(24.0)), HvacMode::Deadband);
}

#[test]
fn dry_bulb_economizers() {
    let back = reading(22.0, 0.009);
    let mut e = economizer(EconomizerType::FixedDryBulb);
    assert!(economizer_available(&e, &reading(23.8, 0.0), &back));
    assert!(!economizer_available(&e, &reading(23.9, 0.0), &back));
    e.high_limit = Some(f(18.0));
    assert!(!economizer_available(&e, &reading(18.0, 0.0), &back));
    assert!(!economizer_available(
        &economizer(EconomizerType::NoEconomizer),
        &reading(0.0, 0.0),
        &back
    ));
}

#[test]
fn packaged_unit_drives_a_ground_source_heat_pump_both_ways() {
    let mut li = make_psz_loop(EconomizerType::NoEconomizer);
    li.component_names = names(&["Supply Fan", "GSHP-1", "Gas Furnace", "CC Main"]);
    let out = reading(0.0, 0.002);
    let zones = one_zone(18.0, 21.0, 24.0, 0.5, 4000.0, 0.0);
    let run = |zones: &ZoneData<Double>, mode| {
        build_psz_signals(&li, zones, &mode_table("Zone1", mode), &out, f(40_000.0), f(0.2))
    };
    let s = run(&zones, HvacMode::Heating);
    assert_eq!(value(&s.coil_setpoints, "GSHP-1"), Some(40.0));
    assert_eq!(value(&s.coil_setpoints, "Gas Furnace"), Some(40.0));
    assert_eq!(value(&s.coil_setpoints, "CC Main"), Some(99.0));
    assert_eq!(value(&s.coil_setpoints, "Supply Fan"), None);
    assert_eq!(value(&s.air_mass_flows, "Supply Fan"), Some(0.5));
    assert_eq!(value(&s.coil_setpoints, "__plr__"), Some(1.0));
    assert_eq!(value(&s.coil_setpoints, "__return_air_temp__"), Some(18.0));
    // 18 * 0.8 + 0 * 0.2
    assert!(near(value(&s.coil_setpoints, "__pszac_mixed_air_temp__").unwrap(), 14.4, 1e-12, 0.0));
    // A predicted cooling mode is turned round in a cold zone.
    let s = run(&zones, HvacMode::Cooling);
    assert_eq!(value(&s.coil_setpoints, "GSHP-1"), Some(40.0));
    let warm = one_zone(26.0, 21.0, 24.0, 0.5, 0.0, 4000.0);
    let s = run(&warm, HvacMode::Heating);
    assert_eq!(value(&s.coil_setpoints, "GSHP-1"), Some(-10.0));
    assert_eq!(value(&s.coil_setpoints, "Gas Furnace"), Some(-99.0));
    assert_eq!(value(&s.coil_setpoints, "CC Main"), Some(-10.0));
    let mild = one_zone(22.0, 21.0, 24.0, 0.5, 0.0, 0.0);
    let s = run(&mild, HvacMode::Deadband);
    assert_eq!(value(&s.coil_setpoints, "GSHP-1"), Some(99.0));
}

#[test]
fn proportional_unit_ramps_its_discharge() {
    let mut li = make_psz_loop(EconomizerType::NoEconomizer);
    li.component_names = names(&["Heating Coil"]);
    li.cycling = CyclingMethod::Proportional;
    let out = reading(0.0, 0.002);
    let modes = mode_table("Zone1", HvacMode::Heating);
    let zones = one_zone(19.0, 21.0, 24.0, 0.5, 4000.0, 0.0);
    let s = build_psz_signals(&li, &zones, &modes, &out, f(40_000.0), f(0.2));
    // 21 + (40 - 21) * 2 / 5
    assert!(near(value(&s.coil_setpoints, "Heating Coil").unwrap(), 28.6, 1e-12, 0.0));
}

#[test]
fn loads_break_the_tie_without_a_prediction() {
    let li = make_psz_loop(EconomizerType::NoEconomizer);
    let out = reading(20.0, 0.002);
    let none = Table::new();
    let zones = one_zone(22.0, 21.0, 24.0, 0.5, 0.0, 150.0);
    let s = build_psz_signals(&li, &zones, &none, &out, f(40_000.0), f(0.2));
    assert_eq!(value(&s.coil_setpoints, "DX Cooling Coil"), Some(-10.0));
    let zones = one_zone(22.0, 21.0, 24.0, 0.5, 0.0, 90.0);
    let s = build_psz_signals(&li, &zones, &none, &out, f(40_000.0), f(0.2));
    assert_eq!(value(&s.coil_setpoints, "DX Cooling Coil"), Some(99.0));
}

#[test]
fn humidifier_runs_in_a_dry_zone() {
    let mut li = make_psz_loop(EconomizerType::NoEconomizer);
    li.component_names = names(&["Steam Humidifier"]);
    let mut zones = one_zone(22.0, 21.0, 24.0, 0.5, 0.0, 0.0);
    zones.rel_humidity = table(&[("Zone1", 20.0)]);
    zones.min_rh.insert("Zone1", HumidityFloor { min_rh: f(30.0), w_target: f(0.005) });
    let modes = mode_table("Zone1", HvacMode::Deadband);
    let out = reading(0.0, 0.002);
    let s = build_psz_signals(&li, &zones, &modes, &out, f(40_000.0), f(0.2));
    assert_eq!(value(&s.coil_setpoints, "Steam Humidifier"), Some(0.005));
    zones.rel_humidity = table(&[("Zone1", 30.0)]);
    let s = build_psz_signals(&li, &zones, &modes, &out, f(40_000.0), f(0.2));
    assert_eq!(value(&s.coil_setpoints, "Steam Humidifier"), None);
}

#[test]
fn outdoor_air_system_tempers_what_it_brings_in() {
    let li = make_loop(
        AirLoopSystemType::Doas,
        &["Preheat Coil", "CC_Main", "Fan"],
        &["A", "B"],
    );
    let mut zones = no_zones();
    zones.heat_sp = table(&[("A", 20.0), ("B", 22.0)]);
    zones.cool_sp = table(&[("A", 25.0), ("B", 23.0)]);
    zones.design_flows = table(&[("A", 1.0), ("B", 2.0)]);
    let winter = build_doas_signals(&li, &zones, f(-5.0));
    assert_eq!(value(&winter.coil_setpoints, "Preheat Coil"), Some(24.0));
    assert_eq!(value(&winter.coil_setpoints, "CC_Main"), Some(99.0));
    assert!(near(value(&winter.air_mass_flows, "Fan").unwrap(), 0.9, 1e-12, 0.0));
    assert_eq!(value(&winter.coil_setpoints, "__oa_fraction__"), Some(1.0));
    let summer = build_doas_signals(&li, &zones, f(30.0));
    assert_eq!(value(&summer.coil_setpoints, "Preheat Coil"), Some(-99.0));
    assert_eq!(value(&summer.coil_setpoints, "CC_Main"), Some(21.0));
    // Without zones the fan keeps its least flow.
    let empty = make_loop(AirLoopSystemType::Doas, &["Fan"], &[]);
    let s = build_doas_signals(&empty, &no_zones(), f(10.0));
    assert_eq!(value(&s.air_mass_flows, "Fan"), Some(0.05));
}

#[test]
fn fan_coil_modulates_with_the_error() {
    let li = make_loop(AirLoopSystemType::Fcu, &["HW Coil", "CHW dx Coil"], &["Zone1"]);
    let none = Table::new();
    let zones = one_zone(19.0, 21.0, 24.0, 1.0, 0.0, 0.0);
    let s = build_fcu_signals(&li, &zones, &none, f(0.0));
    assert_eq!(value(&s.coil_setpoints, "HW Coil"), Some(23.0));
    assert!(near(value(&s.air_mass_flows, "HW Coil").unwrap(), 0.3 + 0.7 * 0.4, 1e-12, 0.0));
    assert_eq!(value(&s.coil_setpoints, "__oa_fraction__"), Some(0.0));
    assert_eq!(value(&s.coil_setpoints, "__fcu_recirculation_temp__"), Some(19.0));
    let zones = one_zone(27.0, 21.0, 24.0, 1.0, 0.0, 0.0);
    let s = build_fcu_signals(&li, &zones, &none, f(0.0));
    // A name that fits both kinds of coil is a cooling coil while cooling.
    assert_eq!(value(&s.coil_setpoints, "CHW dx Coil"), Some(21.0));
    assert_eq!(value(&s.coil_setpoints, "HW Coil"), Some(-99.0));
    let zones = one_zone(22.0, 21.0, 24.0, 1.0, 0.0, 0.0);
    let s = build_fcu_signals(&li, &zones, &none, f(0.0));
    assert_eq!(value(&s.air_mass_flows, "HW Coil"), Some(0.2));
    // In the deadband the same name is a heating coil.
    assert_eq!(value(&s.coil_setpoints, "CHW dx Coil"), Some(-99.0));
}

#[test]
fn fan_coil_dehumidifies_in_the_deadband() {
    let li = make_loop(AirLoopSystemType::Ptac, &["Cooling Coil"], &["Zone1"]);
    let none = Table::new();
    let mut zones = one_zone(22.0, 21.0, 24.0, 1.0, 0.0, 0.0);
    let s = build_fcu_signals(&li, &zones, &none, f(0.0));
    assert_eq!(value(&s.air_mass_flows, "Cooling Coil"), Some(0.0));
    // 22 * 0.85 + 0 * 0.15
    assert!(near(
        value(&s.coil_setpoints, "__fcu_recirculation_temp__").unwrap(),
        18.7,
        1e-12,
        0.0
    ));
    zones.rel_humidity = table(&[("Zone1", 75.0)]);
    zones.max_rh = table(&[("Zone1", 60.0)]);
    let s = build_fcu_signals(&li, &zones, &none, f(0.0));
    assert_eq!(value(&s.coil_setpoints, "Cooling Coil"), Some(21.5));
    assert_eq!(value(&s.air_mass_flows, "Cooling Coil"), Some(1.0));
}

#[test]
fn names_are_compared_in_lower_case() {
    let rule = CoilRule {
        cooling_first: false,
        furnaces: true,
        heat_pump: None,
        heating: f(30.0),
        cooling: f(12.0),
        humidifier: None,
    };
    let all = names(&["GAS FURNACE", "hc_1", "CC 2", "Fan", "DX-COOL"]);
    let t = apply_coil_rule(&all, &rule);
    assert_eq!(value(&t, "GAS FURNACE"), Some(30.0));
    assert_eq!(value(&t, "hc_1"), Some(30.0));
    assert_eq!(value(&t, "CC 2"), Some(12.0));
    assert_eq!(value(&t, "DX-COOL"), Some(12.0));
    assert_eq!(value(&t, "Fan"), None);
    assert_eq!(coil_setpoint(&rule, "GAS FURNACE").map(|v| v.0), None);
    assert_eq!(coil_setpoint(&rule, "gas furnace").map(|v| v.0), Some(30.0));
}
