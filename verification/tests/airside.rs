//! Air loops over a timestep: variable-air-volume and dual-duct control, part load, heat
//! recovery and the air that reaches the zones.
use openbse::air_loop::{
    AirLoopSystemType, ControlSignals, CyclingMethod, FanOperatingMode, LoopInfo, ZoneOaData,
};
use openbse::air_side::{
    build_signals, chain_components, economizer_return, effective_min_oa, exhaust_temp,
    inputs_are_fit, is_switched_off, off_outputs, predict_modes, reset_supply_temps, AirStream,
    LoopInputs, Supply,
};
use openbse::chain::{
    ambient_temp, inlet_humidity, inlet_temp, ChainRun, Energy, GraphRun, WaterStream,
};
use openbse::control::{AirReading, Economizer, EconomizerType, HvacMode, SatResetConfig};
use openbse::dual_duct::{box_request, build_dual_duct_signals, BoxSupply};
use openbse::loop_results::{
    continuous_fan_heat_rise, credit_outputs, delivered_air, heat_recovery_credit, loop_part_load,
    mix_supplies, part_load_has_range, scale_results, supply_zones, terminal_outputs,
    terminal_request, RecoveryCredit, ScalingRule,
};
use openbse::loop_step::{begin_loop, settle_loop, LoopRun, LoopStart, Recovered};
use openbse::scalar::Scalar;
use openbse::table::Table;
use openbse::vav::{build_vav_signals, return_air, OutdoorAir};
use openbse::zones::{unknown_air, ZoneData};

/// A double-precision number as the number type of the library.
#[derive(Clone, Copy, Debug, PartialEq)]
struct Double(f64);

impl Scalar for Double {
    fn add(self, other: Self) -> Self {
        Double(self.0 + other.0)
    }
    fn sub(self, other: Self) -> Self {
        Double(self.0 - other.0)
    }
    fn mul(self, other: Self) -> Self {
        Double(self.0 * other.0)
    }
    fn div(self, other: Self) -> Self {
        Double(self.0 / other.0)
    }
    fn neg(self) -> Self {
        Double(-self.0)
    }
    fn abs(self) -> Self {
        Double(self.0.abs())
    }
    fn sqrt(self) -> Self {
        Double(self.0.sqrt())
    }
    fn cos(self) -> Self {
        Double(self.0.cos())
    }
    fn sin(self) -> Self {
        Double(self.0.sin())
    }
    fn exp(self) -> Self {
        Double(self.0.exp())
    }
    fn lt(self, other: Self) -> bool {
        self.0 < other.0
    }
    fn le(self, other: Self) -> bool {
        self.0 <= other.0
    }
    fn eq(self, other: Self) -> bool {
        self.0 == other.0
    }
    fn min(self, other: Self) -> Self {
        Double(self.0.min(other.0))
    }
    fn max(self, other: Self) -> Self {
        Double(self.0.max(other.0))
    }
    fn ratio(numerator: i64, denominator: i64) -> Self {
        Double(numerator as f64 / denominator as f64)
    }
    fn count(n: usize) -> Self {
        Double(n as f64)
    }
    fn max_value() -> Self {
        Double(f64::MAX)
    }
    fn infinity() -> Self {
        Double(f64::INFINITY)
    }
    fn is_finite(self) -> bool {
        self.0.is_finite()
    }
}

/// `a` and `b` differ by at most `epsilon`, or by at most `max_relative` of the larger.
fn near(a: f64, b: f64, epsilon: f64, max_relative: f64) -> bool {
    let difference = (a - b).abs();
    difference <= epsilon || difference <= max_relative * a.abs().max(b.abs())
}

fn f(x: f64) -> Double {
    Double(x)
}

fn table(entries: &[(&str, f64)]) -> Table<Double> {
    let mut t = Table::new();
    for (name, value) in entries {
        t.insert(name, f(*value));
    }
    t
}

fn names(list: &[&str]) -> Vec<String> {
    list.iter().map(|s| s.to_string()).collect()
}

fn value(t: &Table<Double>, key: &str) -> Option<f64> {
    t.get(key).map(|v| v.0)
}

/// Zones of which nothing is known.
fn no_zones() -> ZoneData<Double> {
    ZoneData {
        temps: Table::new(),
        heat_sp: Table::new(),
        cool_sp: Table::new(),
        design_flows: Table::new(),
        cooling_loads: Table::new(),
        heating_loads: Table::new(),
        initial_temps: Table::new(),
        thermal_caps: Table::new(),
        predicted_temps: Table::new(),
        multipliers: Table::new(),
        humidity_ratios: Table::new(),
        rel_humidity: Table::new(),
        default_rel_humidity: f(50.0),
        max_rh: Table::new(),
        min_rh: Table::new(),
    }
}

/// A loop with the given components that serves the given zones.
fn make_loop(
    system_type: AirLoopSystemType,
    components: &[&str],
    zones: &[&str],
) -> LoopInfo<Double> {
    LoopInfo {
        name: "loop".to_string(),
        system_type,
        component_names: names(components),
        fan_names: Vec::new(),
        served_zones: names(zones),
        min_oa_fraction: f(0.15),
        min_vav_fraction: f(0.3),
        availability_schedule: None,
        heating_supply_temp: f(40.0),
        cooling_supply_temp: f(13.0),
        cycling: CyclingMethod::OnOff,
        fan_operating_mode: FanOperatingMode::Cycling,
        terminal_boxes: Table::new(),
        dd_boxes: Table::new(),
        explicit_min_oa: false,
        heat_recovery_name: None,
        hhw_boiler_efficiency: f(0.8),
        dcv: false,
        cooling_sat_reset: None,
        heating_sat_reset: None,
        zone_oa_data: Vec::new(),
        design_supply_flow: f(0.5),
        economizer: Economizer {
            economizer_type: EconomizerType::NoEconomizer,
            high_limit: None,
            high_limit_enthalpy: None,
        },
    }
}

fn close(a: f64, b: f64) -> bool {
    near(a, b, 1e-9, 1e-9)
}

fn outside(t: f64) -> AirReading<Double> {
    AirReading { temp: f(t), enthalpy: f(1006.0 * t) }
}

fn weather(t: f64, inlet: f64) -> OutdoorAir<Double> {
    OutdoorAir { reading: outside(t), inlet_temp: f(inlet), economizer_lockout: false }
}

fn stream(t: f64, flow: f64) -> AirStream<Double> {
    AirStream { t_db: f(t), w: f(0.008), h: f(1006.0 * t), mass_flow: f(flow) }
}

/// Zone A is too warm and zone B is too cold.
fn two_zones() -> ZoneData<Double> {
    let mut z = no_zones();
    z.temps = table(&[("A", 26.0), ("B", 20.0)]);
    z.heat_sp = table(&[("A", 21.0), ("B", 21.0)]);
    z.cool_sp = table(&[("A", 24.0), ("B", 24.0)]);
    z.design_flows = table(&[("A", 1.0), ("B", 2.0)]);
    z.cooling_loads = table(&[("A", 5000.0)]);
    z
}

fn vav_loop() -> LoopInfo<Double> {
    let mut li = make_loop(
        AirLoopSystemType::Vav,
        &["Fan", "Cooling Coil", "Preheat Coil"],
        &["A", "B"],
    );
    li.economizer.economizer_type = EconomizerType::DifferentialDryBulb;
    li
}

fn ventilation(zone: &str) -> ZoneOaData<Double> {
    ZoneOaData {
        zone_name: zone.to_string(),
        design_people: f(10.0),
        per_person_oa: f(0.01),
        per_area_oa: f(0.0003),
        floor_area: f(100.0),
        people_schedule: None,
    }
}

#[test]
fn vav_boxes_follow_their_zones() {
    let li = vav_loop();
    let none = Vec::new();
    let s = build_vav_signals(&li, &two_zones(), &weather(10.0, 11.0), f(0.0), &none, f(0.2));
    // Full flow would do with warmer air than the limit.
    assert_eq!(s.sat_setpoint.0, 18.0);
    let a = 5000.0 / (1005.0 * (26.0 - 18.0));
    let b = 2.0 * (0.3 + 0.2 * 0.2);
    assert!(close(value(&s.zone_air_flows, "A").unwrap(), a));
    assert!(close(value(&s.zone_air_flows, "B").unwrap(), b));
    assert!(close(value(&s.air_mass_flows, "Fan").unwrap(), a + b));
    assert_eq!(value(&s.coil_setpoints, "Cooling Coil"), Some(18.0));
    assert_eq!(value(&s.coil_setpoints, "Preheat Coil"), Some(-99.0));
    assert_eq!(value(&s.coil_setpoints, "__return_air_temp__"), Some(23.0));
    let free = (23.0 - 18.0) / 13.0;
    assert!(close(value(&s.coil_setpoints, "__oa_fraction__").unwrap(), free));
    let mixed = 23.0 * (1.0 - free) + 11.0 * free;
    assert!(close(value(&s.coil_setpoints, "__vav_mixed_air_temp__").unwrap(), mixed));
}

#[test]
fn vav_supply_drops_for_the_zone_with_the_largest_load() {
    let li = vav_loop();
    let mut zones = two_zones();
    zones.cooling_loads = table(&[("A", 12060.0)]);
    let none = Vec::new();
    let s = build_vav_signals(&li, &zones, &weather(30.0, 30.0), f(0.0), &none, f(0.2));
    // 26 - 12060 / 1005
    assert!(close(s.sat_setpoint.0, 14.0));
    assert!(close(value(&s.zone_air_flows, "A").unwrap(), 1.0));
    zones.cooling_loads = table(&[("A", 50000.0)]);
    let s = build_vav_signals(&li, &zones, &weather(30.0, 30.0), f(0.0), &none, f(0.2));
    assert_eq!(s.sat_setpoint.0, 13.0);
}

#[test]
fn vav_economizer_does_not_cause_heating() {
    let li = vav_loop();
    let none = Vec::new();
    let zones = two_zones();
    // Air that enters colder than the economizer thinks would have to be heated.
    let s = build_vav_signals(&li, &zones, &weather(10.0, 5.0), f(0.0), &none, f(0.2));
    assert_eq!(value(&s.coil_setpoints, "__oa_fraction__"), Some(0.2));
    let mut out = weather(10.0, 11.0);
    out.economizer_lockout = true;
    let s = build_vav_signals(&li, &zones, &out, f(0.0), &none, f(0.2));
    assert_eq!(value(&s.coil_setpoints, "__oa_fraction__"), Some(0.2));
    // Frost protection.
    let s = build_vav_signals(&li, &zones, &weather(-90.0, -90.0), f(0.0), &none, f(0.2));
    assert_eq!(value(&s.coil_setpoints, "Preheat Coil"), Some(4.0));
    // Mixed air at 3 C is warmed to 4 C, and at 5 C it is left alone.
    let s = build_vav_signals(&li, &zones, &weather(-77.0, -77.0), f(0.0), &none, f(0.2));
    assert_eq!(value(&s.coil_setpoints, "Preheat Coil"), Some(4.0));
    let s = build_vav_signals(&li, &zones, &weather(-67.0, -67.0), f(0.0), &none, f(0.2));
    assert_eq!(value(&s.coil_setpoints, "Preheat Coil"), Some(-99.0));
}

#[test]
fn vav_box_without_a_load_follows_the_error() {
    let li = vav_loop();
    let none = Vec::new();
    let flow_at = |temp: f64| {
        let mut zones = two_zones();
        zones.temps = table(&[("A", temp), ("B", 22.0)]);
        zones.cooling_loads = table(&[("A", 100.0)]);
        let s = build_vav_signals(&li, &zones, &weather(30.0, 30.0), f(0.0), &none, f(0.2));
        value(&s.zone_air_flows, "A").unwrap()
    };
    assert!(close(flow_at(24.0), 0.3));
    assert!(close(flow_at(26.0), 0.3 + 0.7 * 2.0 / 5.0));
    assert!(close(flow_at(29.0), 1.0));
    assert!(close(flow_at(35.0), 1.0));
}

#[test]
fn drying_alone_keeps_the_least_flow() {
    let li = vav_loop();
    let none = Vec::new();
    let mut zones = two_zones();
    zones.temps = table(&[("A", 22.0), ("B", 22.0)]);
    zones.max_rh = table(&[("A", 60.0)]);
    zones.rel_humidity = table(&[("A", 70.0)]);
    zones.cooling_loads = table(&[]);
    let s = build_vav_signals(&li, &zones, &weather(30.0, 30.0), f(0.0), &none, f(0.2));
    assert_eq!(value(&s.zone_air_flows, "A"), Some(0.3));
}

#[test]
fn vav_heating_zones_stop_the_cooling_coil() {
    let li = vav_loop();
    let mut zones = two_zones();
    zones.heating_loads = table(&[("B", 3000.0)]);
    let none = Vec::new();
    let s = build_vav_signals(&li, &zones, &weather(10.0, 11.0), f(0.0), &none, f(0.2));
    assert_eq!(value(&s.coil_setpoints, "Cooling Coil"), Some(99.0));
    assert_eq!(value(&s.coil_setpoints, "__oa_fraction__"), Some(0.2));
}

#[test]
fn vav_ventilation_is_raised_for_the_critical_zone() {
    let mut li = vav_loop();
    li.zone_oa_data = vec![ventilation("A")];
    let zones = two_zones();
    let half = vec![f(0.5)];
    let s = build_vav_signals(&li, &zones, &weather(30.0, 30.0), f(0.0), &half, f(0.05));
    let a = 5000.0 / (1005.0 * (26.0 - 18.0));
    let supply = (a + 0.68) / 1.204;
    let need = 0.01 * 10.0 * 0.5 + 0.0003 * 100.0;
    let efficiency = 1.0 + need / supply - need / (a / 1.204);
    let expected = need / efficiency / supply;
    assert!(close(value(&s.coil_setpoints, "__oa_fraction__").unwrap(), expected));
    // The design minimum holds where it is larger.
    let s = build_vav_signals(&li, &zones, &weather(30.0, 30.0), f(0.0), &half, f(0.2));
    assert_eq!(value(&s.coil_setpoints, "__oa_fraction__"), Some(0.2));
}

#[test]
fn vav_return_air_is_the_mean_of_the_zones() {
    let li = vav_loop();
    let mut zones = two_zones();
    zones.humidity_ratios = table(&[("A", 0.010)]);
    let (t, w) = return_air(&li, &zones);
    assert_eq!(t.0, 23.0);
    assert!(close(w.0, 0.009));
    let lonely = make_loop(AirLoopSystemType::Vav, &[], &[]);
    let (t, w) = return_air(&lonely, &zones);
    assert_eq!((t.0, w.0), (21.0, 0.008));
}

#[test]
fn humid_zone_opens_its_box() {
    let li = vav_loop();
    let mut zones = two_zones();
    zones.temps = table(&[("A", 22.0), ("B", 22.0)]);
    zones.max_rh = table(&[("A", 60.0)]);
    zones.rel_humidity = table(&[("A", 70.0)]);
    zones.cooling_loads = table(&[("A", 4000.0)]);
    let none = Vec::new();
    let s = build_vav_signals(&li, &zones, &weather(30.0, 30.0), f(0.0), &none, f(0.2));
    let a = 4000.0 / (1005.0 * (22.0 - 18.0));
    assert!(close(value(&s.zone_air_flows, "A").unwrap(), a));
    assert!(close(value(&s.zone_air_flows, "B").unwrap(), 0.6));
}

fn dual_duct_loop() -> LoopInfo<Double> {
    make_loop(AirLoopSystemType::DualDuct, &["Fan", "Hot HW", "Cold DX"], &["A", "B"])
}

#[test]
fn dual_duct_blends_the_decks_at_constant_flow() {
    let li = dual_duct_loop();
    let mut zones = two_zones();
    zones.heating_loads = table(&[("B", 5000.0)]);
    let request = box_request(&li, &zones, "B");
    assert!(request.heating && !request.cooling);
    let plr = 5000.0 / (2.0 * 1005.0 * 19.0);
    assert!(close(request.plr.0, plr));
    let request = box_request(&li, &zones, "A");
    assert!(request.cooling);
    assert!(close(request.plr.0, 5000.0 / (1005.0 * 11.0)));
    let boxes = vec![Some(BoxSupply { temp: f(17.0), flow: f(0.9) }), None];
    let s = build_dual_duct_signals(&li, &zones, &boxes, f(0.0), f(0.25));
    assert_eq!(value(&s.zone_supply_temps, "A"), Some(17.0));
    let hot = 0.4 + plr * 1.6;
    let blended = (hot * 40.0 + (2.0 - hot) * 13.0) / 2.0;
    assert!(close(value(&s.zone_supply_temps, "B").unwrap(), blended));
    assert_eq!(value(&s.zone_air_flows, "B"), Some(2.0));
    assert!(close(value(&s.air_mass_flows, "Fan").unwrap(), 2.9));
    assert_eq!(value(&s.coil_setpoints, "Hot HW"), Some(40.0));
    assert_eq!(value(&s.coil_setpoints, "Cold DX"), Some(13.0));
    // 23 * 0.75 + 0 * 0.25
    assert!(close(value(&s.coil_setpoints, "__vav_mixed_air_temp__").unwrap(), 17.25));
    assert_eq!(value(&s.coil_setpoints, "__oa_fraction__"), Some(0.25));
}

#[test]
fn dual_duct_in_the_deadband_takes_half_from_each_deck() {
    let li = dual_duct_loop();
    let mut zones = two_zones();
    zones.temps = table(&[("A", 22.0), ("B", 22.0)]);
    let boxes = vec![None, None];
    let s = build_dual_duct_signals(&li, &zones, &boxes, f(0.0), f(0.25));
    assert_eq!(value(&s.zone_supply_temps, "A"), Some(26.5));
    assert_eq!(value(&s.coil_setpoints, "Hot HW"), Some(-99.0));
    assert_eq!(value(&s.coil_setpoints, "Cold DX"), Some(99.0));
}

#[test]
fn availability_below_one_half_is_off() {
    assert!(is_switched_off(Some(f(0.49))));
    assert!(!is_switched_off(Some(f(0.5))));
    assert!(!is_switched_off::<Double>(None));
    let t = off_outputs(&stream(7.0, 1.0));
    assert_eq!(value(&t, "outlet_temp"), Some(7.0));
    assert_eq!(value(&t, "inlet_enthalpy"), Some(7042.0));
    assert_eq!(value(&t, "outlet_w"), Some(0.008));
    assert_eq!(value(&t, "mass_flow"), Some(0.0));
    assert_eq!(t.len(), 12);
}

#[test]
fn demand_control_lowers_the_outdoor_air() {
    let mut li = vav_loop();
    li.zone_oa_data = vec![ventilation("A")];
    li.min_oa_fraction = f(0.3);
    let share = |li: &LoopInfo<Double>, occupancy: f64| {
        effective_min_oa(li, &vec![f(occupancy)]).0
    };
    assert_eq!(share(&li, 0.5), 0.3);
    li.dcv = true;
    assert!(close(share(&li, 0.5), 0.16));
    assert!(close(share(&li, 0.0), 0.06));
    li.min_oa_fraction = f(0.1);
    assert_eq!(share(&li, 1.0), 0.1);
    li.design_supply_flow = f(0.0);
    assert_eq!(share(&li, 0.5), 0.1);
}

#[test]
fn modes_come_from_the_prediction_then_the_loads_then_the_thermostat() {
    let mut zones = two_zones();
    let served = names(&["A", "B"]);
    let m = predict_modes(&served, &zones);
    assert_eq!(m.get("A"), Some(&HvacMode::Cooling));
    assert_eq!(m.get("B"), Some(&HvacMode::Heating));
    zones.heating_loads = table(&[("A", 6000.0)]);
    let m = predict_modes(&served, &zones);
    assert_eq!(m.get("A"), Some(&HvacMode::Heating));
    zones.predicted_temps = table(&[("A", 22.0), ("B", 30.0)]);
    let m = predict_modes(&served, &zones);
    assert_eq!(m.get("A"), Some(&HvacMode::Deadband));
    assert_eq!(m.get("B"), Some(&HvacMode::Cooling));
}

#[test]
fn supply_temperatures_are_reset_by_demand() {
    let mut li = vav_loop();
    li.cooling_supply_temp = f(14.0);
    let reset = SatResetConfig::DemandReset { sat_min: f(12.0), sat_max: f(16.0), step: f(0.5) };
    li.cooling_sat_reset = Some(reset);
    let mut zones = two_zones();
    zones.thermal_caps = table(&[("A", 1000.0), ("B", 1000.0)]);
    // 5000 W of 5 * 1000 W/K
    reset_supply_temps(&mut li, &zones, f(0.0));
    assert_eq!(li.cooling_supply_temp.0, 13.5);
    zones.cooling_loads = table(&[("A", 1000.0)]);
    reset_supply_temps(&mut li, &zones, f(0.0));
    assert_eq!(li.cooling_supply_temp.0, 14.0);
    assert_eq!(li.heating_supply_temp.0, 40.0);
}

#[test]
fn exhaust_leaves_at_the_heating_setpoints() {
    let li = vav_loop();
    let mut zones = two_zones();
    zones.heat_sp = table(&[("A", 19.0)]);
    assert_eq!(exhaust_temp(&li, &zones).0, 20.0);
    let lonely = make_loop(AirLoopSystemType::Vav, &[], &[]);
    assert_eq!(exhaust_temp(&lonely, &zones).0, 22.0);
}

#[test]
fn each_kind_of_loop_has_its_own_control() {
    let inputs = LoopInputs {
        outdoor: outside(0.0),
        return_enthalpy: f(20_000.0),
        occupancy: Vec::new(),
        boxes: Vec::new(),
    };
    let modes = Table::new();
    let zones = no_zones();
    let key = |kind, name: &str| {
        let li = make_loop(kind, &["Fan"], &[]);
        build_signals(&li, &zones, &modes, &inputs, f(0.2)).coil_setpoints.contains_key(name)
    };
    assert!(key(AirLoopSystemType::PszAc, "__pszac_mixed_air_temp__"));
    assert!(key(AirLoopSystemType::Fcu, "__fcu_recirculation_temp__"));
    assert!(key(AirLoopSystemType::Ptac, "__fcu_recirculation_temp__"));
    assert!(key(AirLoopSystemType::Pthp, "__fcu_recirculation_temp__"));
    assert!(key(AirLoopSystemType::Vav, "__vav_mixed_air_temp__"));
    assert!(key(AirLoopSystemType::DualDuct, "__vav_mixed_air_temp__"));
    assert!(!key(AirLoopSystemType::Doas, "__vav_mixed_air_temp__"));
    assert!(key(AirLoopSystemType::Doas, "__oa_fraction__"));
}

#[test]
fn limits_out_of_order_are_noticed() {
    let none = Table::new();
    let inputs = |boxes: usize| LoopInputs {
        outdoor: outside(10.0),
        return_enthalpy: f(0.0),
        occupancy: Vec::new(),
        boxes: (0..boxes).map(|_| None).collect(),
    };
    let fit = |li: &LoopInfo<Double>, zones: &ZoneData<Double>, boxes: usize, min_oa: f64| {
        inputs_are_fit(li, zones, &none, &inputs(boxes), f(min_oa))
    };
    let zones = two_zones();
    let mut li = vav_loop();
    assert!(fit(&li, &zones, 0, 0.2));
    // The economizer would have to stay between 1.2 and 1.
    assert!(!fit(&li, &zones, 0, 1.2));
    li.cooling_supply_temp = f(19.0);
    assert!(!fit(&li, &zones, 0, 0.2));
    li.cooling_supply_temp = f(13.0);
    li.min_vav_fraction = f(1.1);
    assert!(!fit(&li, &zones, 0, 0.2));
    li.min_vav_fraction = f(0.3);
    li.zone_oa_data = vec![ventilation("A")];
    assert!(!fit(&li, &zones, 0, 0.2));
    assert!(fit(&dual_duct_loop(), &zones, 2, 0.2));
    assert!(!fit(&dual_duct_loop(), &zones, 1, 0.2));
    let mut unit = psz(&["B"]);
    assert!(fit(&unit, &zones, 0, 1.2));
    unit.cycling = CyclingMethod::Proportional;
    assert!(fit(&unit, &zones, 0, 0.2));
    unit.heating_supply_temp = f(20.0);
    assert!(!fit(&unit, &zones, 0, 0.2));
    let fcu = make_loop(AirLoopSystemType::Fcu, &[], &["A"]);
    assert!(fit(&fcu, &zones, 0, 0.2));
    let mut cold = two_zones();
    cold.cool_sp = table(&[("A", 11.0)]);
    // Without components no setpoint is set.
    assert!(fit(&fcu, &cold, 0, 0.2));
    let fcu = make_loop(AirLoopSystemType::Fcu, &["Coil"], &["A"]);
    assert!(fit(&fcu, &zones, 0, 0.2));
    assert!(!fit(&fcu, &cold, 0, 0.2));
    assert!(fit(&make_loop(AirLoopSystemType::Ptac, &[], &["A"]), &cold, 0, 0.2));

    let heating = modes("B", HvacMode::Heating);
    let supply = Some(stream(40.0, 0.5));
    let unit = psz(&["B"]);
    assert!(part_load_has_range(&unit, &zones, &heating, &supply, f(1.0)));
    assert!(!part_load_has_range(&unit, &zones, &heating, &supply, f(1.1)));
    assert!(part_load_has_range(&unit, &zones, &heating, &None, f(1.1)));
    assert!(part_load_has_range(&vav_loop(), &zones, &heating, &supply, f(1.1)));
}

#[test]
fn terminal_boxes_report_their_air() {
    let t = terminal_outputs(&stream(25.0, 0.4), f(10.0), f(900.0));
    assert_eq!(value(&t, "outlet_temp"), Some(25.0));
    assert_eq!(value(&t, "outlet_w"), Some(0.008));
    assert_eq!(value(&t, "mass_flow"), Some(0.4));
    assert_eq!(value(&t, "electric_power"), Some(10.0));
    assert_eq!(value(&t, "thermal_output"), Some(900.0));
    assert_eq!(t.len(), 5);
}

#[test]
fn heat_recovery_is_not_in_the_chain() {
    let mut li = vav_loop();
    li.component_names = names(&["HR", "Fan", "HR"]);
    assert_eq!(chain_components(&li), names(&["HR", "Fan", "HR"]));
    li.heat_recovery_name = Some("HR".to_string());
    assert_eq!(chain_components(&li), names(&["Fan"]));
}

fn psz(zones: &[&str]) -> LoopInfo<Double> {
    let mut li = make_loop(AirLoopSystemType::PszAc, &["Fan", "Coil"], zones);
    li.fan_names = names(&["Fan"]);
    li
}

fn modes(zone: &str, mode: HvacMode) -> Table<HvacMode> {
    let mut t = Table::new();
    t.insert(zone, mode);
    t
}

#[test]
fn part_load_meets_the_heating_load() {
    let li = psz(&["B"]);
    let mut zones = two_zones();
    zones.heating_loads = table(&[("B", 5000.0)]);
    zones.thermal_caps = table(&[("B", 100.0)]);
    zones.initial_temps = table(&[("B", 20.0)]);
    let heating = modes("B", HvacMode::Heating);
    let no_signals = ControlSignals::new();
    let plr = |zones: &ZoneData<Double>, supply: Option<AirStream<Double>>, rise: f64| {
        loop_part_load(&li, zones, &heating, &no_signals, &supply, f(rise), f(0.1)).0
    };
    let supply = Some(stream(40.0, 0.5));
    let capacity = 0.5 * 1006.0 * 19.0;
    assert!(close(plr(&zones, supply, 0.0), 5000.0 / capacity));
    // The fan gives part of the heat.
    let fan = 0.5 * 1006.0 * 2.0;
    assert!(close(plr(&zones, supply, 2.0), (5000.0 - fan) / (capacity - fan)));
    // The zone has cooled down since.
    zones.initial_temps = table(&[("B", 20.5)]);
    assert!(close(plr(&zones, supply, 0.0), 5050.0 / capacity));
    // Twice the zone is more than the unit can do.
    zones.multipliers.insert("B", 2);
    assert_eq!(plr(&zones, supply, 0.0), 1.0);
    assert_eq!(plr(&zones, None, 0.0), 0.1);
    assert_eq!(plr(&zones, Some(stream(21.1, 0.5)), 0.0), 0.1);
    // Without a load the error of the zone counts.
    zones.heating_loads = Table::new();
    zones.thermal_caps = Table::new();
    zones.temps = table(&[("B", 15.0)]);
    assert!(close(plr(&zones, supply, 0.0), 6.0 / 19.0));
    // A zone that is warm already is not heated.
    zones.temps = table(&[("B", 22.6)]);
    assert_eq!(plr(&zones, supply, 0.0), 0.1);
}

#[test]
fn part_load_meets_the_cooling_load() {
    let li = psz(&["A"]);
    let mut zones = two_zones();
    zones.temps = table(&[("A", 25.0)]);
    zones.cooling_loads = table(&[("A", 2000.0)]);
    let cooling = modes("A", HvacMode::Cooling);
    let no_signals = ControlSignals::new();
    let supply = Some(stream(14.0, 0.5));
    let plr = loop_part_load(&li, &zones, &cooling, &no_signals, &supply, f(1.0), f(0.1));
    assert!(close(plr.0, 2503.0 / 5533.0));
    let rest = modes("A", HvacMode::Deadband);
    let plr = loop_part_load(&li, &zones, &rest, &no_signals, &supply, f(1.0), f(0.1));
    assert_eq!(plr.0, 0.1);
    // Other loops modulate by themselves.
    let mut signals = ControlSignals::new();
    let vav = vav_loop();
    let plr = loop_part_load(&vav, &zones, &cooling, &signals, &supply, f(0.0), f(0.1));
    assert_eq!(plr.0, 1.0);
    signals.coil_setpoints.insert("__plr__", f(0.4));
    let plr = loop_part_load(&vav, &zones, &cooling, &signals, &supply, f(0.0), f(0.1));
    assert_eq!(plr.0, 0.4);
}

fn results() -> Table<Table<Double>> {
    let mut all = Table::new();
    all.insert(
        "Fan",
        table(&[("electric_power", 100.0), ("fuel_power", 0.0), ("mass_flow", 0.5)]),
    );
    all.insert(
        "Coil",
        table(&[
            ("electric_power", 1000.0),
            ("fuel_power", 0.0),
            ("thermal_output", -3000.0),
            ("ground_heat_rate", 4000.0),
            ("mass_flow", 0.5),
            ("outlet_temp", 14.0),
        ]),
    );
    all.insert("Furnace", table(&[("electric_power", 10.0), ("fuel_power", 5000.0)]));
    all
}

fn at(all: &Table<Table<Double>>, name: &str, key: &str) -> f64 {
    value(all.get(name).unwrap(), key).unwrap()
}

#[test]
fn part_load_scales_what_cycles() {
    let fans = names(&["Fan"]);
    let mut rule = ScalingRule { fan_mode: FanOperatingMode::Cycling, plr: f(0.5), min_oa: f(0.1) };
    let mut all = results();
    scale_results(&rule, &mut all, &fans);
    let run_time = 0.5 / (1.0 - 0.15 * 0.5);
    assert_eq!(at(&all, "Fan", "electric_power"), 50.0);
    assert!(close(at(&all, "Coil", "electric_power"), 1000.0 * run_time));
    assert_eq!(at(&all, "Coil", "thermal_output"), -1500.0);
    assert_eq!(at(&all, "Coil", "ground_heat_rate"), 2000.0);
    assert_eq!(at(&all, "Coil", "mass_flow"), 0.25);
    assert_eq!(at(&all, "Coil", "outlet_temp"), 14.0);
    assert_eq!(at(&all, "Furnace", "electric_power"), 5.0);
    assert_eq!(at(&all, "Furnace", "fuel_power"), 2500.0);

    rule.fan_mode = FanOperatingMode::Continuous;
    let mut all = results();
    scale_results(&rule, &mut all, &fans);
    assert_eq!(at(&all, "Fan", "electric_power"), 100.0);

    rule.fan_mode = FanOperatingMode::ContinuousNoLoadOff;
    let mut all = results();
    scale_results(&rule, &mut all, &fans);
    assert_eq!(at(&all, "Fan", "electric_power"), 100.0);
    rule.plr = f(0.1);
    let mut all = results();
    scale_results(&rule, &mut all, &fans);
    assert_eq!(at(&all, "Fan", "electric_power"), 0.0);
    assert_eq!(at(&all, "Fan", "mass_flow"), 0.0);

    rule.plr = f(1.0);
    let mut all = results();
    scale_results(&rule, &mut all, &fans);
    assert_eq!(at(&all, "Coil", "electric_power"), 1000.0);
}

#[test]
fn compressor_starts_cost_at_most_three_tenths() {
    let rule = ScalingRule { fan_mode: FanOperatingMode::Cycling, plr: f(-2.0), min_oa: f(0.1) };
    let mut all = results();
    scale_results(&rule, &mut all, &Vec::new());
    assert!(close(at(&all, "Coil", "electric_power"), 1000.0 * (-2.0 / 0.7)));
}

#[test]
fn continuous_fan_warms_the_air() {
    let mut li = psz(&["A"]);
    let supply = Some(stream(14.0, 0.5));
    assert_eq!(continuous_fan_heat_rise(&li, &results(), &supply).0, 0.0);
    li.fan_operating_mode = FanOperatingMode::Continuous;
    let rise = continuous_fan_heat_rise(&li, &results(), &supply).0;
    assert!(close(rise, 100.0 / 503.0));
    assert_eq!(continuous_fan_heat_rise(&li, &results(), &None).0, 0.0);

    let zones = two_zones();
    let air = delivered_air(&li, &zones, &stream(14.0, 0.5), f(0.25), f(2.0));
    assert_eq!(air.flow.0, 0.5);
    // A quarter at 14 C and the rest at 26 + 2 C.
    assert!(close(air.temp.0, 24.5));
    li.fan_operating_mode = FanOperatingMode::Cycling;
    let air = delivered_air(&li, &zones, &stream(14.0, 0.5), f(0.25), f(2.0));
    assert_eq!((air.flow.0, air.temp.0), (0.125, 14.0));
}

#[test]
fn recovered_heat_is_credited_up_to_the_coil_load() {
    let li = vav_loop();
    let zones = two_zones();
    let mut signals = ControlSignals::new();
    signals.coil_setpoints.insert("__oa_fraction__", f(0.5));
    signals.sat_setpoint = f(15.0);
    let supply = Some(stream(15.0, 2.0));
    let credit = |recovered: f64, t_out: f64| {
        heat_recovery_credit(&li, &zones, &signals, &supply, f(0.2), f(t_out), f(recovered))
    };
    // Mixed air at 11.5 C: the coil would have to give 2 * 1005 * 3.5 W.
    match credit(5000.0, 0.0) {
        RecoveryCredit::Heating(saved) => assert!(close(saved.0, 5000.0 / 0.8)),
        _ => panic!("no heating credit"),
    }
    match credit(9000.0, 0.0) {
        RecoveryCredit::Heating(saved) => assert!(close(saved.0, 7035.0 / 0.8)),
        _ => panic!("no heating credit"),
    }
    match credit(-3500.0, 33.0) {
        RecoveryCredit::Cooling(saved) => {
            assert!(close(saved.0, 1000.0));
            let (name, t) = credit_outputs("AHU", &RecoveryCredit::Cooling(saved)).unwrap();
            assert_eq!(name, "AHU HR Cool Savings");
            assert!(close(value(&t, "electric_power").unwrap(), -1000.0));
        },
        _ => panic!("no cooling credit"),
    }
    assert!(matches!(credit(0.0, 0.0), RecoveryCredit::Nothing));
    assert!(credit_outputs::<Double>("AHU", &RecoveryCredit::Nothing).is_none());
    let (name, t) = credit_outputs("AHU", &RecoveryCredit::Heating(f(7.0))).unwrap();
    assert_eq!(name, "AHU HR Heat Savings");
    assert_eq!(value(&t, "fuel_power"), Some(-7.0));
    assert_eq!(value(&t, "electric_power"), Some(0.0));
}

#[test]
fn terminal_boxes_are_asked_for_their_share() {
    let li = vav_loop();
    let mut zones = two_zones();
    zones.initial_temps = table(&[("A", 26.0), ("B", 19.0)]);
    zones.heating_loads = table(&[("B", 2000.0)]);
    let mut signals = ControlSignals::new();
    signals.zone_air_flows = table(&[("A", 0.65)]);
    let r = terminal_request(&li, &zones, "B", &signals, Some(f(4000.0)), f(3.0));
    assert_eq!((r.signal.0, r.inlet_flow.0), (0.5, 2.0));
    let r = terminal_request(&li, &zones, "B", &signals, None, f(3.0));
    assert!(close(r.signal.0, 0.2));
    let r = terminal_request(&li, &zones, "B", &signals, Some(f(1.0)), f(3.0));
    assert_eq!(r.signal.0, 1.0);
    let r = terminal_request(&li, &zones, "A", &signals, Some(f(4000.0)), f(3.0));
    assert!(close(r.signal.0, -0.5));
    // An unknown zone is at rest and gets its share of the air.
    let r = terminal_request(&li, &zones, "C", &signals, None, f(3.0));
    assert!(close(r.inlet_flow.0, 1.5));
}

#[test]
fn zones_share_and_mix_the_air() {
    let air = Supply { temp: f(14.0), flow: f(1.0), w: f(0.008) };
    let mut list = Vec::new();
    let none = vec![None, None];
    supply_zones(&psz(&["A", "B"]), &ControlSignals::new(), &air, f(1.0), &none, &mut list);
    assert_eq!(list.len(), 2);
    assert_eq!(list[0].1.flow.0, 0.5);
    // A fan coil adds air to zone A.
    let warm = Supply { temp: f(30.0), flow: f(1.5), w: f(0.004) };
    let fcu = make_loop(AirLoopSystemType::Fcu, &["Fan"], &["A"]);
    supply_zones(&fcu, &ControlSignals::new(), &warm, f(1.0), &vec![None], &mut list);
    let mixed = mix_supplies(&list);
    let a = mixed.get("A").unwrap();
    assert!(close(a.flow.0, 2.0));
    assert!(close(a.temp.0, (0.5 * 14.0 + 1.5 * 30.0) / 2.0));
    assert!(close(a.w.0, 0.005));
    let b = mixed.get("B").unwrap();
    assert_eq!((b.flow.0, b.temp.0), (0.5, 14.0));
    // Air that does not flow does not count.
    let still = vec![("C".to_string(), Supply { temp: f(1.0), flow: f(0.0), w: f(0.0) })];
    assert!(mix_supplies(&still).get("C").is_none());
}

#[test]
fn vav_and_dual_duct_zones_get_what_control_gave_them() {
    let air = Supply { temp: f(14.0), flow: f(3.0), w: f(0.008) };
    let mut signals = ControlSignals::new();
    signals.zone_air_flows = table(&[("A", 0.7)]);
    signals.zone_supply_temps = table(&[("A", 19.0)]);
    let mut list = Vec::new();
    let none = vec![None, None];
    supply_zones(&vav_loop(), &signals, &air, f(0.5), &none, &mut list);
    assert!(close(list[0].1.flow.0, 0.35));
    assert_eq!(list[0].1.temp.0, 14.0);
    assert!(close(list[1].1.flow.0, 0.75));
    supply_zones(&dual_duct_loop(), &signals, &air, f(0.5), &none, &mut list);
    assert_eq!((list[2].1.flow.0, list[2].1.temp.0), (0.7, 19.0));
    assert_eq!((list[3].1.flow.0, list[3].1.temp.0), (1.5, 14.0));
    // A zone with a box gets what the box lets through, or nothing where the box did not run.
    let mut boxed = vav_loop();
    boxed.terminal_boxes.insert("A", "Box A".to_string());
    boxed.terminal_boxes.insert("B", "Box B".to_string());
    let through = vec![Some(Supply { temp: f(25.0), flow: f(0.4), w: f(0.007) }), None];
    let mut list = Vec::new();
    supply_zones(&boxed, &signals, &air, f(0.5), &through, &mut list);
    assert_eq!(list.len(), 1);
    assert_eq!((list[0].1.flow.0, list[0].1.temp.0), (0.4, 25.0));
}

#[test]
fn loop_begins_and_settles() {
    let mut li = psz(&["A"]);
    li.heat_recovery_name = Some("HR".to_string());
    let mut zones = two_zones();
    zones.temps = table(&[("A", 25.0)]);
    zones.cooling_loads = table(&[("A", 2000.0)]);
    let none = Vec::new();
    let mut timers = table(&[("Other", 60.0)]);
    timers.insert(&li.name, f(900.0));
    let name = li.name.clone();
    let start = begin_loop(&mut li, &zones, None, &none, f(30.0), &mut timers);
    assert!(start.is_some());
    assert_eq!(value(&timers, &name), Some(900.0));
    let off = begin_loop(&mut li, &zones, Some(f(0.0)), &none, f(30.0), &mut timers);
    assert!(off.is_none());
    assert_eq!(value(&timers, &name), Some(0.0));
    timers.insert(&name, f(900.0));
    let start =
        begin_loop(&mut li, &zones, Some(f(1.0)), &none, f(30.0), &mut timers).unwrap();
    assert_eq!(value(&timers, &name), Some(0.0));
    assert_eq!(value(&timers, "Other"), Some(60.0));
    assert_eq!(start.min_oa.0, 0.15);
    assert_eq!(start.modes.get("A"), Some(&HvacMode::Cooling));

    let mut signals = ControlSignals::new();
    signals.coil_setpoints.insert("__oa_fraction__", f(0.4));
    let run = LoopRun {
        signals,
        supply: Some(stream(14.0, 0.5)),
        outdoor: stream(30.0, 1.0),
        recovered: Some(Recovered {
            outlet: stream(27.0, 9.0),
            electric: f(40.0),
            thermal: f(-700.0),
        }),
    };
    let mut all = results();
    let outcome = settle_loop(&mut all, &li, &zones, &start, &run);
    let plr = 2000.0 / 5030.0;
    assert!(close(outcome.plr.0, plr));
    let air = outcome.air.unwrap();
    assert!(close(air.flow.0, 0.5 * plr));
    // The recovery unit saw the outdoor air only, and is averaged like the coils.
    assert!(close(at(&all, "HR", "mass_flow"), 0.5 * 0.4 * plr));
    assert_eq!(at(&all, "HR", "outlet_temp"), 27.0);
    assert!(close(at(&all, "HR", "thermal_output"), -700.0 * plr));
    let run_time = plr / (1.0 - 0.15 * (1.0 - plr));
    assert!(close(
        at(&all, "loop HR Cool Savings", "electric_power"),
        -200.0 * run_time
    ));
    assert!(close(at(&all, "Coil", "thermal_output"), -3000.0 * plr));
}

#[test]
fn recovery_without_outdoor_air_rests() {
    let mut li = psz(&["A"]);
    li.heat_recovery_name = Some("HR".to_string());
    let zones = two_zones();
    let start = LoopStart { min_oa: f(0.0), modes: Table::new() };
    let run = LoopRun {
        signals: ControlSignals::new(),
        supply: None,
        outdoor: stream(30.0, 1.0),
        recovered: None,
    };
    let mut all = Table::new();
    let outcome = settle_loop(&mut all, &li, &zones, &start, &run);
    assert_eq!(outcome.plr.0, 0.0);
    assert!(outcome.air.is_none());
    assert_eq!(at(&all, "HR", "outlet_temp"), 30.0);
    assert_eq!(at(&all, "HR", "electric_power"), 0.0);
    assert_eq!(all.len(), 1);
}

#[test]
fn air_passes_the_components_in_turn() {
    let mut signals = ControlSignals::new();
    signals.coil_setpoints.insert("Coil", f(13.0));
    signals.air_mass_flows.insert("Fan", f(0.5));
    let mut run = ChainRun::start(stream(20.0, 1.0));
    let c = run.next(&signals, "Fan");
    assert!(c.setpoint.is_none());
    assert_eq!((c.inlet.t_db.0, c.inlet.mass_flow.0), (20.0, 0.5));
    let energy = Energy { electric: f(100.0), fuel: f(0.0), thermal: f(90.0) };
    let details = table(&[("speed", 0.9), ("electric_power", 101.0)]);
    run.record("Fan", &c.inlet, &stream(21.0, 0.5), &energy, &details);
    let c = run.next(&signals, "Coil");
    assert_eq!(c.setpoint.map(|v| v.0), Some(13.0));
    assert_eq!((c.inlet.t_db.0, c.inlet.mass_flow.0), (21.0, 0.5));
    assert_eq!(at(&run.outputs, "Fan", "inlet_temperature"), 20.0);
    assert_eq!(at(&run.outputs, "Fan", "outlet_temp"), 21.0);
    assert_eq!(at(&run.outputs, "Fan", "thermal_output"), 90.0);
    // What a component reports itself comes last.
    assert_eq!(at(&run.outputs, "Fan", "electric_power"), 101.0);
    assert_eq!(at(&run.outputs, "Fan", "speed"), 0.9);
}

#[test]
fn loop_inlet_is_mixed() {
    let mut signals = ControlSignals::new();
    assert!(inlet_temp(&signals).is_none());
    // Without a fraction the loop takes outdoor air only.
    assert_eq!(inlet_humidity(&signals, f(0.01), f(0.005)).0, 0.01);
    signals.coil_setpoints.insert("__vav_mixed_air_temp__", f(18.0));
    signals.coil_setpoints.insert("__oa_fraction__", f(0.25));
    assert_eq!(inlet_temp(&signals).map(|v| v.0), Some(18.0));
    assert!(close(inlet_humidity(&signals, f(0.01), f(0.006)).0, 0.007));
    signals.coil_setpoints.insert("__effective_oa_w__", f(0.02));
    assert!(close(inlet_humidity(&signals, f(0.01), f(0.006)).0, 0.0095));
    let zones = table(&[("Attic", 40.0)]);
    assert_eq!(ambient_temp("outdoor", &zones, f(3.0)).0, 3.0);
    assert_eq!(ambient_temp("ground", &zones, f(3.0)).0, 18.0);
    assert_eq!(ambient_temp("Attic", &zones, f(3.0)).0, 40.0);
    assert_eq!(ambient_temp("Cellar", &zones, f(3.0)).0, 3.0);
}

#[test]
fn graph_takes_the_state_of_the_first_predecessor() {
    let mut signals = ControlSignals::new();
    signals.plant_loads.insert("Boiler", f(900.0));
    let water = WaterStream { temp: f(60.0), mass_flow: f(0.2) };
    let mut run = GraphRun::start(stream(10.0, 1.0), water);
    let energy = Energy { electric: f(1.0), fuel: f(2.0), thermal: f(3.0) };
    let none = Table::new();
    let c = run.next_air(&signals, "Fan", &Vec::new());
    assert_eq!(c.inlet.t_db.0, 10.0);
    run.record_air(4, "Fan", &c.inlet, &stream(12.0, 1.0), &energy, &none);
    let c = run.next_air(&signals, "Coil", &vec![4, 7]);
    assert_eq!(c.inlet.t_db.0, 12.0);
    // A predecessor that has not run gives the default.
    let c = run.next_air(&signals, "Coil", &vec![7, 4]);
    assert_eq!(c.inlet.t_db.0, 10.0);
    let (inlet, load) = run.next_plant(&signals, "Boiler", &Vec::new());
    assert_eq!((inlet.temp.0, load.0), (60.0, 900.0));
    let hot = WaterStream { temp: f(80.0), mass_flow: f(0.2) };
    run.record_plant(5, "Boiler", &hot, &energy, &none);
    let (inlet, load) = run.next_plant(&signals, "Pump", &vec![5]);
    assert_eq!((inlet.temp.0, load.0), (80.0, 0.0));
    assert_eq!(at(&run.outputs, "Boiler", "fuel_power"), 2.0);
    assert_eq!(run.last_air_outlet.map(|s| s.t_db.0), Some(12.0));
}

#[test]
fn economizer_compares_the_air_of_its_system() {
    let mut zones = two_zones();
    zones.humidity_ratios = table(&[("A", 0.010), ("B", 0.012)]);
    let unit = psz(&["A", "B"]);
    let (t, w) = economizer_return(&unit, &zones);
    assert_eq!((t.0, w.0), (26.0, 0.010));
    let (t, w) = economizer_return(&vav_loop(), &zones);
    assert_eq!(t.0, 23.0);
    assert!(close(w.0, 0.011));
    let (t, w) = economizer_return(&psz(&["C"]), &zones);
    assert_eq!((t.0, w.0), (21.0, 0.008));
    let (t, w) = zones.air_state("B");
    assert_eq!((t.0, w.0), (20.0, 0.012));
    assert_eq!(unknown_air::<Double>(), (f(21.0), f(0.008)));
}
