//! The model, plant loops, sizing and energy accounts.
use openbse::air_loop::{AirLoopSystemType, CyclingMethod, FanOperatingMode, LoopInfo};
use openbse::control::{Economizer, EconomizerType, PlantResetConfig};
use openbse::energy::{
    equipment_kind, gain_power, index_accounts, loop_accounts, multiply_components, plant_kind,
    terminal_kind, Account, ComponentKind, EnergySnapshot, Submeters,
};
use openbse::model::{
    build_loop_infos, find_zone, AirLoopInput, EquipmentInput, EquipmentKind, ModelInput,
    OutdoorAirRate, PeopleInput, PlantEquipmentInput, PlantEquipmentKind, PlantLoopInput,
    StagingMode, TerminalInput, TerminalKind, ZoneConnection, ZoneInput,
};
use openbse::plant::{
    loop_return_water, panel_water_temp, plant_loop_load, size_pump, size_tower, source_water,
    unit_outputs, LoopLoad, PanelLoad, PeakLoads, ReturnWater, Staging,
};
use openbse::plant_order::plant_loop_order;
use openbse::scalar::Scalar;
use openbse::services::{
    add_power, circulation_design_flow, circulation_share, exterior_meter_name, exterior_power,
    exterior_use, exterior_use_of, hot_water_draw, metered_as_lighting, metered_as_lighting_of,
    panel_outputs, panel_part_load, peak_draw, pump_is_constant_speed, size_vrf_cooling,
    size_vrf_heating, size_vrf_indoor, water_heater_fuel, water_heater_modulates, ExteriorUse,
    HotWaterLoad, PanelSource, PanelState, VrfIndoorInput, WaterHeaterFuel,
};
use openbse::sizing::{
    add_design_day, apply_sized_flows, autosize_capacity, capacity_for, find_site_design,
    raise_for_own_supply, revise_oa_fraction, size_components, size_dual_duct_box, size_loop,
    size_terminal, sizing_supply_temps, CapacitySize, DesignDay, DesignTemps, LoopSize,
    SizingFactors, ZonePeaks,
};
use openbse::table::Table;
use openbse::zones::ZoneData;

/// A double-precision number as the number type of the library.
#[derive(Clone, Copy, Debug, PartialEq)]
struct Double(f64);

impl Scalar for Double {
    fn add(self, other: Self) -> Self {
        Double(self.0 + other.0)
    }
    fn sub(self, other: Self) -> Self {
        Double(self.0 - other.0)
    }
    fn mul(self, other: Self) -> Self {
        Double(self.0 * other.0)
    }
    fn div(self, other: Self) -> Self {
        Double(self.0 / other.0)
    }
    fn neg(self) -> Self {
        Double(-self.0)
    }
    fn abs(self) -> Self {
        Double(self.0.abs())
    }
    fn sqrt(self) -> Self {
        Double(self.0.sqrt())
    }
    fn cos(self) -> Self {
        Double(self.0.cos())
    }
    fn sin(self) -> Self {
        Double(self.0.sin())
    }
    fn exp(self) -> Self {
        Double(self.0.exp())
    }
    fn lt(self, other: Self) -> bool {
        self.0 < other.0
    }
    fn le(self, other: Self) -> bool {
        self.0 <= other.0
    }
    fn eq(self, other: Self) -> bool {
        self.0 == other.0
    }
    fn min(self, other: Self) -> Self {
        Double(self.0.min(other.0))
    }
    fn max(self, other: Self) -> Self {
        Double(self.0.max(other.0))
    }
    fn ratio(numerator: i64, denominator: i64) -> Self {
        Double(numerator as f64 / denominator as f64)
    }
    fn count(n: usize) -> Self {
        Double(n as f64)
    }
    fn max_value() -> Self {
        Double(f64::MAX)
    }
    fn infinity() -> Self {
        Double(f64::INFINITY)
    }
    fn is_finite(self) -> bool {
        self.0.is_finite()
    }
}

/// `a` and `b` differ by at most `epsilon`, or by at most `max_relative` of the larger.
fn near(a: f64, b: f64, epsilon: f64, max_relative: f64) -> bool {
    let difference = (a - b).abs();
    difference <= epsilon || difference <= max_relative * a.abs().max(b.abs())
}

fn f(x: f64) -> Double {
    Double(x)
}

fn table(entries: &[(&str, f64)]) -> Table<Double> {
    let mut t = Table::new();
    for (name, value) in entries {
        t.insert(name, f(*value));
    }
    t
}

fn names(list: &[&str]) -> Vec<String> {
    list.iter().map(|s| s.to_string()).collect()
}

fn value(t: &Table<Double>, key: &str) -> Option<f64> {
    t.get(key).map(|v| v.0)
}

/// Zones of which nothing is known.
fn no_zones() -> ZoneData<Double> {
    ZoneData {
        temps: Table::new(),
        heat_sp: Table::new(),
        cool_sp: Table::new(),
        design_flows: Table::new(),
        cooling_loads: Table::new(),
        heating_loads: Table::new(),
        initial_temps: Table::new(),
        thermal_caps: Table::new(),
        predicted_temps: Table::new(),
        multipliers: Table::new(),
        humidity_ratios: Table::new(),
        rel_humidity: Table::new(),
        default_rel_humidity: f(50.0),
        max_rh: Table::new(),
        min_rh: Table::new(),
    }
}

/// A loop with the given components that serves the given zones.
fn make_loop(
    system_type: AirLoopSystemType,
    components: &[&str],
    zones: &[&str],
) -> LoopInfo<Double> {
    LoopInfo {
        name: "loop".to_string(),
        system_type,
        component_names: names(components),
        fan_names: Vec::new(),
        served_zones: names(zones),
        min_oa_fraction: f(0.15),
        min_vav_fraction: f(0.3),
        availability_schedule: None,
        heating_supply_temp: f(40.0),
        cooling_supply_temp: f(13.0),
        cycling: CyclingMethod::OnOff,
        fan_operating_mode: FanOperatingMode::Cycling,
        terminal_boxes: Table::new(),
        dd_boxes: Table::new(),
        explicit_min_oa: false,
        heat_recovery_name: None,
        hhw_boiler_efficiency: f(0.8),
        dcv: false,
        cooling_sat_reset: None,
        heating_sat_reset: None,
        zone_oa_data: Vec::new(),
        design_supply_flow: f(0.5),
        economizer: Economizer {
            economizer_type: EconomizerType::NoEconomizer,
            high_limit: None,
            high_limit_enthalpy: None,
        },
    }
}

fn close(a: f64, b: f64) -> bool {
    near(a, b, 1e-9, 1e-9)
}

fn text(s: &str) -> Option<String> {
    Some(s.to_string())
}

fn equipment(kind: EquipmentKind, name: &str) -> EquipmentInput<Double> {
    EquipmentInput {
        kind,
        name: name.to_string(),
        submeter: format!("{} meter", name),
        design_flow_rate: f(-99999.0),
        source: String::new(),
        plant_loop: None,
    }
}

fn connection(zone: &str) -> ZoneConnection<Double> {
    ZoneConnection { zone: zone.to_string(), terminal: None, per_person_oa: None, per_area_oa: None }
}

fn terminal(kind: TerminalKind, name: &str, flow: f64) -> Option<TerminalInput<Double>> {
    Some(TerminalInput {
        kind,
        name: name.to_string(),
        submeter: format!("{} meter", name),
        design_flow: f(flow),
        plant_loop: text("HHW"),
    })
}

fn air_loop(
    name: &str,
    system_type: AirLoopSystemType,
    equipment: Vec<EquipmentInput<Double>>,
    zone_terminals: Vec<ZoneConnection<Double>>,
) -> AirLoopInput<Double> {
    AirLoopInput {
        name: name.to_string(),
        system_type,
        equipment,
        zone_terminals,
        minimum_damper_position: None,
        required_oa_fraction: f(0.2),
        min_vav_fraction: f(0.3),
        availability_schedule: text("hours"),
        heating_supply_temp: f(40.0),
        cooling_supply_temp: f(13.0),
        cycling: CyclingMethod::OnOff,
        fan_operating_mode: FanOperatingMode::Cycling,
        cooling_sat_reset: None,
        heating_sat_reset: None,
        economizer: None,
        dcv: false,
        design_zone_flow: f(0.7),
    }
}

fn unit(kind: PlantEquipmentKind, name: &str) -> PlantEquipmentInput<Double> {
    PlantEquipmentInput {
        kind,
        name: name.to_string(),
        submeter: format!("{} meter", name),
        efficiency: f(0.9),
        capacity: f(100_000.0),
        cop: f(4.0),
        source_loop: String::new(),
        condenser_plant_loop: None,
    }
}

fn plant(name: &str, units: Vec<PlantEquipmentInput<Double>>) -> PlantLoopInput<Double> {
    PlantLoopInput {
        name: name.to_string(),
        design_delta_t: f(5.0),
        design_supply_temp: f(7.0),
        setpoint_reset: None,
        staging_mode: StagingMode::Sequential,
        staging_threshold: f(0.9),
        supply_equipment: units,
    }
}

/// A chilled-water loop with its condenser loop, a hot-water loop and one behind a heat
/// exchanger.
fn four_loops() -> Vec<PlantLoopInput<Double>> {
    let mut exchanger = unit(PlantEquipmentKind::HeatExchanger, "HX");
    exchanger.source_loop = "HHW".to_string();
    let mut chiller = unit(PlantEquipmentKind::Chiller, "Chiller");
    chiller.condenser_plant_loop = text("CW");
    vec![
        plant("Radiant", vec![exchanger]),
        plant("CW", vec![unit(PlantEquipmentKind::CoolingTower, "Tower")]),
        plant("CHW", vec![chiller, unit(PlantEquipmentKind::Pump, "Pump")]),
        plant("HHW", vec![unit(PlantEquipmentKind::Boiler, "Boiler")]),
    ]
}

#[test]
fn loops_are_described_for_their_control() {
    let mut fan = equipment(EquipmentKind::Fan, "Fan");
    fan.design_flow_rate = f(1.5);
    let mut coil = equipment(EquipmentKind::HeatingCoil, "Coil");
    coil.source = "hot_water".to_string();
    coil.plant_loop = text("HHW");
    let wheel = equipment(EquipmentKind::HeatRecovery, "Wheel");
    let mut first = connection("A");
    first.terminal = terminal(TerminalKind::VavBox, "Box A", 0.0);
    first.per_person_oa = Some(f(0.01));
    let mut second = connection("B");
    second.terminal = terminal(TerminalKind::DualDuctBox, "Box B", 0.8);
    let mut third = connection("C");
    third.terminal = terminal(TerminalKind::DualDuctBox, "Box C", -1.0);
    third.per_area_oa = Some(f(0.001));
    let mut al = air_loop(
        "AHU",
        AirLoopSystemType::Vav,
        vec![fan, coil, wheel],
        vec![first, second, third],
    );
    al.economizer = Some(Economizer {
        economizer_type: EconomizerType::FixedDryBulb,
        high_limit: Some(f(20.0)),
        high_limit_enthalpy: None,
    });
    let mut boiler = unit(PlantEquipmentKind::Boiler, "Boiler");
    boiler.efficiency = f(0.92);
    let model = ModelInput {
        air_loops: vec![al, air_loop("OA", AirLoopSystemType::Doas, vec![], vec![])],
        plant_loops: vec![plant("HHW", vec![unit(PlantEquipmentKind::Pump, "P"), boiler])],
    };
    let zones = vec![ZoneInput {
        name: "A".to_string(),
        outdoor_air: None,
        floor_area: f(50.0),
        people: vec![
            PeopleInput { count: f(4.0), schedule: text("office") },
            PeopleInput { count: f(9.0), schedule: None },
        ],
    }];
    let infos = build_loop_infos(&model, &zones);
    assert_eq!(infos.len(), 2);
    let li = &infos[0];
    assert_eq!(li.component_names, names(&["Fan", "Coil", "Wheel"]));
    assert_eq!(li.fan_names, names(&["Fan"]));
    assert_eq!(li.served_zones, names(&["A", "B", "C"]));
    assert_eq!(li.heat_recovery_name, text("Wheel"));
    assert_eq!(li.min_oa_fraction.0, 0.2);
    assert!(!li.explicit_min_oa);
    assert_eq!(li.hhw_boiler_efficiency.0, 0.92);
    assert_eq!(li.design_supply_flow.0, 1.5);
    assert_eq!(li.terminal_boxes.get("A").map(|s| s.as_str()), Some("Box A"));
    assert!(li.terminal_boxes.get("B").is_none());
    assert_eq!(value(&li.dd_boxes, "B"), Some(0.8));
    assert_eq!(value(&li.dd_boxes, "C"), Some(0.5));
    assert_eq!(li.economizer.economizer_type, EconomizerType::FixedDryBulb);
    assert_eq!(li.economizer.high_limit.map(|v| v.0), Some(20.0));
    // Zone B gives no rates and zone C is not known.
    assert_eq!(li.zone_oa_data.len(), 1);
    let oa = &li.zone_oa_data[0];
    assert_eq!(oa.zone_name, "A");
    assert_eq!((oa.design_people.0, oa.per_person_oa.0, oa.per_area_oa.0), (4.0, 0.01, 0.0));
    assert_eq!(oa.people_schedule, text("office"));
    let doas = &infos[1];
    assert_eq!(doas.min_oa_fraction.0, 1.0);
    assert_eq!(doas.design_supply_flow.0, 1.0);
    assert_eq!(doas.hhw_boiler_efficiency.0, 0.8);
    assert_eq!(doas.economizer.economizer_type, EconomizerType::NoEconomizer);
    assert_eq!(find_zone(&zones, &"A".to_string()), Some(0));
    assert_eq!(find_zone(&zones, &"B".to_string()), None);
}

#[test]
fn given_damper_position_counts() {
    let mut al = air_loop("AHU", AirLoopSystemType::PszAc, vec![], vec![]);
    al.minimum_damper_position = Some(f(0.35));
    let mut doas = air_loop("OA", AirLoopSystemType::Doas, vec![], vec![]);
    doas.minimum_damper_position = Some(f(0.35));
    let model = ModelInput { air_loops: vec![al, doas], plant_loops: vec![] };
    let infos = build_loop_infos(&model, &vec![]);
    assert_eq!(infos[0].min_oa_fraction.0, 0.35);
    assert!(infos[0].explicit_min_oa);
    assert_eq!(infos[1].min_oa_fraction.0, 1.0);
    assert!(!infos[1].explicit_min_oa);
}

#[test]
fn plant_loops_run_after_those_they_depend_on() {
    // First those that depend on nothing, in their order, then what they set free.
    assert_eq!(plant_loop_order(&four_loops()), vec![2, 3, 1, 0]);
    assert_eq!(plant_loop_order::<Double>(&vec![]), Vec::<usize>::new());
}

#[test]
fn loops_in_a_cycle_come_last() {
    let mut loops = four_loops();
    let mut back = unit(PlantEquipmentKind::HeatExchanger, "Economizer");
    back.source_loop = "CW".to_string();
    loops[2].supply_equipment.push(back);
    assert_eq!(plant_loop_order(&loops), vec![3, 0, 1, 2]);
}

#[test]
fn plant_load_is_what_its_coils_take() {
    let mut coil = equipment(EquipmentKind::CoolingCoil, "Coil");
    coil.plant_loop = text("CHW");
    let mut heater = equipment(EquipmentKind::HeatingCoil, "Heater");
    heater.plant_loop = text("HHW");
    let mut c = connection("A");
    c.terminal = terminal(TerminalKind::VavBox, "Box A", 0.0);
    let loops = vec![air_loop("AHU", AirLoopSystemType::Vav, vec![coil, heater], vec![c])];
    let plants = four_loops();
    let mut outputs = Table::new();
    outputs.insert("Coil", table(&[("thermal_output", -5000.0)]));
    outputs.insert("Heater", table(&[("thermal_output", 3000.0)]));
    outputs.insert("Box A", table(&[("thermal_output", 400.0)]));
    let multipliers = table(&[("Coil", 2.0)]);
    let panels = vec![PanelLoad { plant_loop: text("HHW"), thermal_output: f(150.0) }];
    let load = |name: &str, outputs: &Table<Table<Double>>| {
        plant_loop_load(&loops, &plants, &panels, &name.to_string(), outputs, &multipliers)
    };
    let chw = load("CHW", &outputs);
    assert_eq!((chw.total.0, chw.is_condenser), (-10000.0, false));
    let hhw = load("HHW", &outputs);
    assert_eq!((hhw.total.0, hhw.is_condenser), (3550.0, false));
    // The condenser takes the heat and the power of the chiller, once it has run.
    assert_eq!(load("CW", &outputs).total.0, 0.0);
    outputs.insert("Chiller", table(&[("thermal_output", 10000.0), ("electric_power", 2500.0)]));
    let cw = load("CW", &outputs);
    assert_eq!((cw.total.0, cw.is_condenser), (12500.0, true));
}

#[test]
fn return_water_follows_the_load() {
    let mut p = plant("CHW", vec![]);
    let load = |total: f64, is_condenser: bool| LoopLoad { total: f(total), is_condenser };
    assert!(loop_return_water(&p, &load(0.0, false), f(0.0)).is_none());
    let r = loop_return_water(&p, &load(-41860.0, false), f(0.0)).unwrap();
    assert!(close(r.temp.0, 12.0));
    assert!(close(r.flow.0, 2.0));
    let r = loop_return_water(&p, &load(41860.0, false), f(0.0)).unwrap();
    assert!(close(r.temp.0, 2.0));
    let r = loop_return_water(&p, &load(41860.0, true), f(0.0)).unwrap();
    assert!(close(r.temp.0, 12.0));
    p.design_delta_t = f(0.0);
    p.setpoint_reset = Some(PlantResetConfig::OaReset {
        sp_min: f(6.0),
        sp_max: f(10.0),
        oa_low: f(0.0),
        oa_high: f(20.0),
    });
    let r = loop_return_water(&p, &load(-4186.0, false), f(10.0)).unwrap();
    assert!(close(r.temp.0, 9.0));
    assert!(close(r.flow.0, 1.0));
}

#[test]
fn source_and_panel_water_have_defaults() {
    let mut supplied = Table::new();
    let p = plant("CHW", vec![]);
    assert_eq!(source_water::<Double>(&supplied, "HHW").temp.0, 20.0);
    assert_eq!(source_water::<Double>(&supplied, "HHW").flow.0, 0.0);
    assert_eq!(panel_water_temp(&supplied, &p).0, 7.0);
    supplied.insert("CHW", ReturnWater { temp: f(8.5), flow: f(1.0) });
    assert_eq!(source_water(&supplied, "CHW").flow.0, 1.0);
    assert_eq!(panel_water_temp(&supplied, &p).0, 8.5);
}

#[test]
fn pumps_and_towers_are_sized() {
    let plants = four_loops();
    let peaks = PeakLoads { heating: f(50_000.0), cooling: f(80_000.0) };
    let per_watt = 1.0 / (998.0 * 4186.0 * 5.0);
    assert!(close(size_pump(&plants[3], &plants, false, &peaks).0, 50_000.0 * per_watt));
    assert!(close(size_pump(&plants[2], &plants, false, &peaks).0, 80_000.0 * per_watt));
    // A chiller of 100 kW and COP 4 rejects 125 kW.
    assert!(close(size_pump(&plants[1], &plants, true, &peaks).0, 125_000.0 * per_watt));
    assert!(close(size_tower(&plants[1], &plants).0, 125_000.0 * per_watt));
    assert_eq!(size_tower(&plants[0], &plants).0, 0.0);
    let mut small = unit(PlantEquipmentKind::Boiler, "B");
    small.capacity = f(-99999.0);
    let mixed = plant(
        "Mixed",
        vec![
            unit(PlantEquipmentKind::Boiler, "A"),
            small,
            unit(PlantEquipmentKind::Chiller, "C"),
        ],
    );
    assert!(close(size_pump(&mixed, &plants, false, &peaks).0, 200_000.0 * per_watt));
}

#[test]
fn pumps_run_with_the_whole_load() {
    let p = plant(
        "HHW",
        vec![unit(PlantEquipmentKind::Pump, "Pump"), unit(PlantEquipmentKind::Boiler, "Boiler")],
    );
    let mut staging = Staging::start(&p, f(30_000.0));
    assert_eq!(staging.next(&p, PlantEquipmentKind::Pump).unwrap().0, 30_000.0);
    staging.record(PlantEquipmentKind::Pump, f(0.0), f(0.0));
    assert_eq!(staging.next(&p, PlantEquipmentKind::Boiler).unwrap().0, 30_000.0);
    staging.record(PlantEquipmentKind::Boiler, f(29_999.5), f(100_000.0));
    // Less than a watt is left.
    assert!(staging.next(&p, PlantEquipmentKind::Boiler).is_none());
    assert_eq!(staging.next(&p, PlantEquipmentKind::Pump).unwrap().0, 30_000.0);
    // Without a capacity the part load is what was delivered of what was asked.
    let mut staging = Staging::start(&p, f(30_000.0));
    staging.record(PlantEquipmentKind::Boiler, f(15_000.0), f(0.0));
    assert_eq!(staging.last_part_load.0, 0.5);
    let mut staging = Staging::start(&p, f(30_000.0));
    staging.record(PlantEquipmentKind::Boiler, f(15_000.0), f(f64::INFINITY));
    assert_eq!(staging.last_part_load.0, 0.5);
    let out = unit_outputs(f(1.0), f(2.0), f(3.0));
    assert_eq!(value(&out, "electric_power"), Some(1.0));
    assert_eq!(value(&out, "fuel_power"), Some(2.0));
    assert_eq!(value(&out, "thermal_output"), Some(3.0));
}

// Sizing

fn peaks() -> ZonePeaks<Double> {
    ZonePeaks {
        airflow: table(&[("A", 1.0), ("B", 2.0)]),
        heating: table(&[("A", 3000.0), ("B", 4000.0)]),
        cooling: table(&[("A", 5000.0), ("B", 6000.0)]),
    }
}

fn factors() -> SizingFactors<Double> {
    SizingFactors { heating: f(1.25), cooling: f(1.15) }
}

fn day(day_type: &str, temp: f64) -> DesignDay<Double> {
    DesignDay { day_type: day_type.to_string(), design_temp: f(temp), pressure: f(84146.3) }
}

const DENSITY: f64 = 84146.3 / (287.042 * 293.15);

#[test]
fn design_days_are_told_apart_by_their_types() {
    let none = DesignTemps { winter: f(f64::INFINITY), summer: f(f64::NEG_INFINITY) };
    let t = add_design_day(&none, "winter", f(-12.0));
    assert_eq!((t.winter.0, t.summer.0), (-12.0, f64::NEG_INFINITY));
    let t = add_design_day(&t, "heating", f(-8.0));
    assert_eq!(t.winter.0, -12.0);
    let t = add_design_day(&t, "summer", f(31.0));
    let t = add_design_day(&t, "cooling", f(33.0));
    assert_eq!((t.winter.0, t.summer.0), (-12.0, 33.0));
    // Types are lowered before they are compared.
    let days = vec![day("HEATING 99.6%", -15.0), day("Summer", 34.0), day("Spring", 50.0)];
    let site = find_site_design(&days);
    assert_eq!((site.winter.0, site.summer.0), (-15.0, 34.0));
    assert!(close(site.density.0, DENSITY));
    let site = find_site_design::<Double>(&vec![]);
    assert_eq!((site.winter.0, site.summer.0), (-20.0, 35.0));
    assert!(close(site.density.0, 101325.0 / (287.042 * 293.15)));
}

#[test]
fn loops_are_sized_by_their_kind() {
    let days = vec![day("heating", -10.0), day("cooling", 33.0)];
    let size = |kind| {
        let li = make_loop(kind, &["Fan"], &["A", "B"]);
        size_loop(&li, &peaks(), &days, &factors())
    };
    for kind in [AirLoopSystemType::PszAc, AirLoopSystemType::Vav, AirLoopSystemType::DualDuct] {
        let s = size(kind);
        assert!(close(s.flow.0, 3.0 / DENSITY));
        assert!(close(s.heating.0, 7000.0 * 1.25));
        assert!(close(s.cooling.0, 11000.0 * 1.15));
    }
    let s = size(AirLoopSystemType::Doas);
    assert!(close(s.flow.0, 0.9 / DENSITY));
    assert!(close(s.heating.0, 0.9 * 1005.0 * 30.0 * 1.25));
    assert!(close(s.cooling.0, 0.9 * 1005.0 * 15.0 * 1.15));
    let s = size(AirLoopSystemType::Ptac);
    // Mixed air at 21 * 0.85 - 10 * 0.15 and 24 * 0.85 + 33 * 0.15.
    assert!(close(s.heating.0, 3.0 * 1005.0 * (40.0 - 16.35)));
    assert!(close(s.cooling.0, 3.0 * 1005.0 * (25.35 - 13.0)));
}

#[test]
fn components_take_the_size_of_their_last_loop() {
    let days = vec![day("heating", -10.0)];
    let loops = vec![
        make_loop(AirLoopSystemType::PszAc, &["Fan", "Coil"], &["A"]),
        make_loop(AirLoopSystemType::PszAc, &["Coil"], &["B"]),
    ];
    let sizes = size_components(&loops, &peaks(), &days, &factors());
    assert!(close(sizes.get("Fan").unwrap().heating.0, 3750.0));
    assert!(close(sizes.get("Coil").unwrap().heating.0, 5000.0));
    assert!(sizes.get("Box").is_none());
}

#[test]
fn capacities_go_by_name() {
    let size = LoopSize { flow: f(1.0), heating: f(10.0), cooling: f(20.0) };
    let single = |name: &str| match capacity_for(name, &size) {
        CapacitySize::Single(v) => v.0,
        _ => 0.0,
    };
    assert_eq!(single("gas furnace"), 10.0);
    assert_eq!(single("hw coil"), 10.0);
    assert_eq!(single("chw cc coil"), 0.0);
    assert_eq!(single("cc_main"), 20.0);
    assert_eq!(single("dx heat pump"), 10.0);
    match autosize_capacity("GSHP-1", &size) {
        CapacitySize::Both { cooling, heating } => assert_eq!((cooling.0, heating.0), (20.0, 10.0)),
        _ => panic!("one capacity"),
    }
    assert!(matches!(autosize_capacity("Fan", &size), CapacitySize::Nothing));
    assert!(matches!(capacity_for("GSHP-1", &size), CapacitySize::Nothing));
    assert!(matches!(autosize_capacity("DX COOLING", &size), CapacitySize::Single(_)));
}

#[test]
fn zone_flows_are_sized() {
    let mut loops = vec![
        make_loop(AirLoopSystemType::Vav, &[], &["A"]),
        make_loop(AirLoopSystemType::PszAc, &[], &["B"]),
    ];
    let mut flows = table(&[("B", 9.0), ("C", 7.0)]);
    apply_sized_flows(&mut flows, &peaks().airflow, &loops, f(1.15));
    assert!(close(value(&flows, "A").unwrap(), 1.15));
    assert_eq!(value(&flows, "B"), Some(2.0));
    assert_eq!(value(&flows, "C"), Some(7.0));
    // A loop with warmer supply air needs more of it.
    loops[1].cooling_supply_temp = f(16.0);
    let cool_sp = table(&[("B", 24.0)]);
    let loads = table(&[("A", 50_000.0), ("B", 30_000.0)]);
    raise_for_own_supply(&mut flows, &loops, f(13.0), &cool_sp, &loads, f(1.15));
    assert!(close(value(&flows, "A").unwrap(), 1.15));
    assert!(close(value(&flows, "B").unwrap(), 30_000.0 * 1.15 / (1005.0 * 8.0)));
    // Less than what it has is not taken.
    let small = table(&[("B", 10.0)]);
    let before = value(&flows, "B");
    raise_for_own_supply(&mut flows, &loops, f(13.0), &cool_sp, &small, f(1.15));
    assert_eq!(value(&flows, "B"), before);
}

#[test]
fn supply_temperatures_for_sizing_are_the_extremes() {
    assert!(sizing_supply_temps::<Double>(&vec![]).is_none());
    let mut second = air_loop("2", AirLoopSystemType::Vav, vec![], vec![]);
    second.heating_supply_temp = f(45.0);
    second.cooling_supply_temp = f(16.0);
    let first = air_loop("1", AirLoopSystemType::Vav, vec![], vec![]);
    let (hot, cold) = sizing_supply_temps(&vec![first, second]).unwrap();
    assert_eq!((hot.0, cold.0), (45.0, 13.0));
}

#[test]
fn boxes_are_sized_for_their_zones() {
    let (flow, reheat) = size_terminal("A", &peaks(), &factors());
    assert_eq!((flow.0, reheat.0), (1.0, 3750.0));
    let (flow, reheat) = size_terminal("C", &peaks(), &factors());
    assert_eq!((flow.0, reheat.0), (0.1, 0.0));
    assert_eq!(size_dual_duct_box("A", f(0.4), &peaks(), &factors()).0, 0.4);
    assert!(close(size_dual_duct_box("A", f(0.0), &peaks(), &factors()).0, 1.15));
    let tiny = ZonePeaks { airflow: table(&[("A", 0.001)]), heating: Table::new(), cooling: Table::new() };
    assert_eq!(size_dual_duct_box("A", f(0.0), &tiny, &factors()).0, 0.01);
}

#[test]
fn outdoor_air_is_revised_for_the_sized_fan() {
    let mut li = make_loop(AirLoopSystemType::PszAc, &["Fan"], &["A", "B"]);
    let zone = |name: &str, rate: Option<OutdoorAirRate<Double>>| ZoneInput {
        name: name.to_string(),
        outdoor_air: rate,
        floor_area: f(100.0),
        people: vec![
            PeopleInput { count: f(3.0), schedule: None },
            PeopleInput { count: f(2.0), schedule: None },
        ],
    };
    let rate = OutdoorAirRate { per_person: f(0.01), per_area: f(0.0005) };
    let all = vec![zone("A", Some(rate)), zone("B", None)];
    // 5 people and 100 m2 need 0.1 m3/s.
    assert!(close(revise_oa_fraction(&li, Some(f(0.4)), &all).0, 0.25));
    assert_eq!(revise_oa_fraction(&li, Some(f(0.01)), &all).0, 1.0);
    assert_eq!(revise_oa_fraction(&li, None, &all).0, 0.15);
    assert_eq!(revise_oa_fraction(&li, Some(f(0.0)), &all).0, 0.15);
    // A small change is not worth it.
    assert_eq!(revise_oa_fraction(&li, Some(f(0.6664)), &all).0, 0.15);
    let bare = vec![zone("A", None)];
    assert_eq!(revise_oa_fraction(&li, Some(f(0.4)), &bare).0, 0.15);
    li.explicit_min_oa = true;
    assert_eq!(revise_oa_fraction(&li, Some(f(0.4)), &all).0, 0.15);
}

// Energy accounts

#[test]
fn components_have_accounts() {
    assert_eq!(equipment_kind(EquipmentKind::Wshp), ComponentKind::CoolingCoil);
    assert_eq!(equipment_kind(EquipmentKind::Gshp), ComponentKind::Gshp);
    assert_eq!(terminal_kind(TerminalKind::PfpBox), ComponentKind::HeatingCoil);
    assert_eq!(terminal_kind(TerminalKind::DualDuctBox), ComponentKind::DualDuctBox);
    assert_eq!(plant_kind(PlantEquipmentKind::CoolingTower), ComponentKind::CoolingTower);
    let mut c = connection("A");
    c.terminal = terminal(TerminalKind::VavBox, "Box", 0.0);
    let fan = equipment(EquipmentKind::Fan, "Fan");
    let loops = vec![air_loop("AHU", AirLoopSystemType::Vav, vec![fan], vec![c])];
    let accounts = loop_accounts(&loops, &four_loops());
    let listed: Vec<&str> = accounts.iter().map(|a| a.name.as_str()).collect();
    assert_eq!(listed, vec!["Fan", "Box", "HX", "Tower", "Chiller", "Pump", "Boiler"]);
    let (kinds, meters) = index_accounts(&accounts);
    assert_eq!(kinds.get("Box"), Some(&ComponentKind::HeatingCoil));
    assert_eq!(meters.get("Fan").map(|s| s.as_str()), Some("Fan meter"));
    // Heat exchangers have no meter.
    assert_eq!(kinds.get("HX"), Some(&ComponentKind::HeatExchanger));
    assert!(meters.get("HX").is_none());
}

#[test]
fn copies_of_a_zone_multiply_its_components() {
    let mut li = make_loop(AirLoopSystemType::Vav, &["Fan"], &["A", "B"]);
    li.terminal_boxes.insert("A", "Box".to_string());
    let other = make_loop(AirLoopSystemType::Vav, &["Other"], &["C"]);
    let mut copies = Table::new();
    copies.insert("A", 3u32);
    copies.insert("B", 5u32);
    copies.insert("C", 1u32);
    let m = multiply_components::<Double>(&vec![li, other], &copies);
    assert_eq!(value(&m, "Fan"), Some(5.0));
    assert_eq!(value(&m, "Box"), Some(5.0));
    assert_eq!(value(&m, "Other"), None);
}

fn account(name: &str, kind: ComponentKind) -> Account {
    Account { name: name.to_string(), kind, submeter: Some("East".to_string()) }
}

#[test]
fn energy_is_booked_by_kind() {
    let accounts = vec![
        account("Fan", ComponentKind::Fan),
        account("Pump", ComponentKind::Pump),
        account("Steam", ComponentKind::Humidifier),
        account("Wheel", ComponentKind::HeatRecovery),
        account("Tower", ComponentKind::CoolingTower),
        account("GSHP-1", ComponentKind::Gshp),
        account("Boiler", ComponentKind::Boiler),
    ];
    let (kinds, meters) = index_accounts(&accounts);
    let mut results = Table::new();
    for (name, power) in [("Fan", 1.0), ("Pump", 2.0), ("Steam", 3.0), ("Wheel", 4.0), ("Tower", 5.0)] {
        results.insert(name, table(&[("electric_power", power)]));
    }
    results.insert("GSHP-1", table(&[("electric_power", 6.0), ("thermal_output", 20.0)]));
    results.insert("Boiler", table(&[("electric_power", 7.0), ("fuel_power", 70.0)]));
    results.insert("Stranger", table(&[("electric_power", 8.0)]));
    results.insert("Weather", table(&[("electric_power", 1000.0)]));
    let mut s = EnergySnapshot::new();
    s.book_components(&results, &table(&[("Fan", 2.0), ("Boiler", 3.0)]), &kinds);
    assert_eq!(value(&s.component_electric, "Fan"), Some(2.0));
    assert_eq!(value(&s.pump_electric, "Pump"), Some(2.0));
    assert_eq!(value(&s.humidification, "Steam"), Some(3.0));
    assert_eq!(value(&s.heat_recovery, "Wheel"), Some(4.0));
    assert_eq!(value(&s.heat_rejection, "Tower"), Some(5.0));
    assert_eq!(value(&s.component_electric, "GSHP-1 [gshp heating]"), Some(6.0));
    assert_eq!(value(&s.component_electric, "GSHP-1"), None);
    assert_eq!(value(&s.component_fuel, "Boiler"), Some(210.0));
    assert_eq!(value(&s.component_electric, "Stranger"), Some(8.0));
    assert_eq!(value(&s.component_electric, "Weather"), None);
    s.book_exhaust_fan("A", f(10.0), 3);
    s.book_exhaust_fan("B", f(0.0), 3);
    assert_eq!(value(&s.component_electric, "Exhaust Fan A"), Some(30.0));
    assert_eq!(value(&s.component_electric, "Exhaust Fan B"), None);
    s.book_panel("Panel", f(9.0));
    assert_eq!(value(&s.component_electric, "Panel"), Some(9.0));

    let mut m = Submeters::new();
    m.add_snapshot(&s, &kinds, &meters);
    let read = |m: &Submeters<Double>, meter: &str, end_use: &str| {
        m.power.get(meter).and_then(|t| value(t, end_use))
    };
    assert_eq!(read(&m, "East", "fan_electric"), Some(2.0));
    // The boiler is booked with three copies, the heat pump in the mode that it ran in.
    assert_eq!(read(&m, "East", "heating_electric"), Some(27.0));
    assert_eq!(read(&m, "East", "heating_gas"), Some(210.0));
    assert_eq!(read(&m, "East", "pump_electric"), Some(2.0));
    assert_eq!(read(&m, "East", "heat_rejection"), Some(5.0));
    assert_eq!(read(&m, "East", "humidification"), Some(3.0));
    assert_eq!(read(&m, "East", "heat_recovery"), Some(4.0));
    // The rest has no meter of its own.
    assert_eq!(read(&m, "General", "misc_electric"), Some(47.0));
    m.add("East", "lighting", f(5.0));
    m.add("East", "lighting", f(6.0));
    assert_eq!(read(&m, "East", "lighting"), Some(11.0));
}

#[test]
fn cooling_heat_pump_goes_to_cooling() {
    let accounts = vec![account("GSHP-1", ComponentKind::Gshp)];
    let (kinds, meters) = index_accounts(&accounts);
    let mut results = Table::new();
    results.insert("GSHP-1", table(&[("electric_power", 6.0), ("thermal_output", -20.0)]));
    let mut s = EnergySnapshot::new();
    s.book_components(&results, &Table::new(), &kinds);
    assert_eq!(value(&s.component_electric, "GSHP-1 [gshp cooling]"), Some(6.0));
    let mut m = Submeters::new();
    m.add_snapshot(&s, &kinds, &meters);
    assert_eq!(m.power.get("East").and_then(|t| value(t, "cooling_electric")), Some(6.0));
}

// Services

#[test]
fn service_equipment_is_named() {
    assert_eq!(water_heater_fuel("electric"), WaterHeaterFuel::Electric);
    assert_eq!(water_heater_fuel("Electric"), WaterHeaterFuel::Electric);
    assert_eq!(water_heater_fuel("ELECTRIC"), WaterHeaterFuel::Gas);
    assert_eq!(water_heater_fuel("hpwh"), WaterHeaterFuel::HeatPump);
    assert_eq!(water_heater_fuel("gas"), WaterHeaterFuel::Gas);
    assert!(water_heater_modulates("Modulate"));
    assert!(!water_heater_modulates("on_off"));
    assert!(pump_is_constant_speed("constant_speed"));
    assert!(!pump_is_constant_speed("variable_speed"));
}

#[test]
fn fixtures_mix_hot_and_cold_water() {
    let load = |peak: f64, fraction: f64| HotWaterLoad {
        peak_flow_rate: f(peak),
        fraction: f(fraction),
        use_temperature: f(40.0),
    };
    let loads = vec![load(0.1, 0.5), load(0.2, 1.0)];
    assert!(close(hot_water_draw(&loads, f(60.0), f(10.0)).0, 0.25 * 0.6));
    assert!(close(hot_water_draw(&loads, f(30.0), f(10.0)).0, 0.25));
    assert!(close(hot_water_draw(&loads, f(10.0), f(10.0)).0, 0.25));
    assert!(close(hot_water_draw(&loads, f(60.0), f(45.0)).0, 0.0));
    assert!(close(peak_draw(&loads).0, 0.3));
    assert!(close(circulation_share(&loads, f(0.15)).unwrap().0, 0.5));
    assert_eq!(circulation_share(&loads, f(9.0)).unwrap().0, 1.0);
    assert!(circulation_share(&loads, f(0.0)).is_none());
    assert_eq!(circulation_design_flow(Some(f(0.7)), &loads).0, 0.7);
    assert!(close(circulation_design_flow(None, &loads).0, 0.0003));
}

#[test]
fn exterior_equipment_is_sorted() {
    assert_eq!(exterior_power(f(100.0), f(0.5), false, true).0, 50.0);
    assert_eq!(exterior_power(f(100.0), f(0.5), true, false).0, 50.0);
    assert_eq!(exterior_power(f(100.0), f(0.5), true, true).0, 0.0);
    assert_eq!(exterior_use(&text("Exterior Lights"), "natural_gas"), ExteriorUse::Lighting);
    assert_eq!(exterior_use_of(&text("Exterior Lights"), "electric"), ExteriorUse::Equipment);
    assert_eq!(exterior_use_of(&text("exterior lights"), "electric"), ExteriorUse::Lighting);
    assert_eq!(exterior_use(&text("Elevator"), "natural_gas"), ExteriorUse::Fuel);
    assert_eq!(exterior_use(&None, "electric"), ExteriorUse::Equipment);
    assert!(metered_as_lighting(&text("LIGHTS")));
    assert!(!metered_as_lighting_of(&text("LIGHTS")));
    assert!(!metered_as_lighting(&None));
    assert_eq!(exterior_meter_name("East", &text("Lights")), "East");
    assert_eq!(exterior_meter_name("General", &text("Lights")), "Lights");
    assert_eq!(exterior_meter_name("General", &None), "General");
    let mut powers = Table::new();
    add_power(&mut powers, "Sign", f(5.0));
    add_power(&mut powers, "Sign", f(6.0));
    assert_eq!(value(&powers, "Sign"), Some(11.0));
}

#[test]
fn panels_follow_the_zone() {
    let plr = |source, t: f64| panel_part_load(source, f(t), f(21.0), f(24.0)).0;
    assert_eq!(plr(PanelSource::Electric, 20.0), 1.0);
    assert!(close(plr(PanelSource::Electric, 20.75), 0.5));
    assert_eq!(plr(PanelSource::HotWater, 21.0), 0.0);
    assert_eq!(plr(PanelSource::ChilledWater, 25.0), 1.0);
    assert!(close(plr(PanelSource::ChilledWater, 24.25), 0.5));
    assert_eq!(plr(PanelSource::ChilledWater, 20.0), 0.0);
    let out = panel_outputs(&PanelState {
        thermal_output: f(-100.0),
        power: f(3.0),
        plr: f(0.5),
        radiant_output: f(-60.0),
        convective_output: f(-40.0),
    });
    assert_eq!(value(&out, "radiant_panel_heating_rate"), Some(0.0));
    assert_eq!(value(&out, "radiant_panel_cooling_rate"), Some(100.0));
    assert_eq!(value(&out, "radiant_output"), Some(60.0));
    assert_eq!(value(&out, "convective_output"), Some(40.0));
    assert_eq!(value(&out, "radiant_panel_electric_power"), Some(3.0));
    assert_eq!(value(&out, "radiant_panel_plr"), Some(0.5));
}

#[test]
fn refrigerant_systems_are_sized() {
    let unit = |zone: &str, cooling: Option<f64>| VrfIndoorInput {
        zone: zone.to_string(),
        cooling_capacity: cooling.map(f),
        heating_capacity: None,
        airflow: None,
    };
    let peaks = table(&[("A", 4000.0), ("B", 100.0)]);
    let a = size_vrf_indoor(&unit("A", None), &peaks, &peaks, f(1.5), f(1.25));
    assert_eq!((a.cooling.0, a.heating.0), (6000.0, 5000.0));
    assert!(close(a.airflow.0, 0.3));
    let b = size_vrf_indoor(&unit("B", None), &peaks, &peaks, f(1.5), f(1.25));
    assert_eq!(b.cooling.0, 500.0);
    let c = size_vrf_indoor(&unit("C", Some(2500.0)), &peaks, &peaks, f(1.5), f(1.25));
    assert_eq!((c.cooling.0, c.heating.0), (2500.0, 3750.0));
    let units = vec![unit("A", None), unit("B", None), unit("C", Some(2500.0))];
    assert_eq!(size_vrf_cooling(None, &units, &peaks, f(1.5)).0, 6000.0 + 150.0 + 2500.0);
    assert_eq!(size_vrf_heating(None, &units, &peaks, f(1.0)).0, 4000.0 + 100.0 + 3000.0);
    assert_eq!(size_vrf_cooling(Some(f(7.0)), &units, &peaks, f(1.5)).0, 7.0);
    assert_eq!(size_vrf_heating(None, &vec![unit("B", None)], &peaks, f(1.0)).0, 1000.0);
}

#[test]
fn gains_are_metered_for_all_copies() {
    assert_eq!(gain_power(f(200.0), Some(f(0.25)), 3).0, 150.0);
    assert_eq!(gain_power(f(200.0), None, 3).0, 600.0);
}

#[test]
fn a_repeated_name_is_metered_once() {
    let mut s = EnergySnapshot::new();
    s.component_fuel.insert("Boiler", f(100.0));
    s.component_fuel.entries.push(("Boiler".to_string(), f(900.0)));
    let mut m = Submeters::new();
    m.add_snapshot(&s, &Table::new(), &Table::new());
    let own = m.power.get("General").unwrap();
    assert_eq!(own.get("heating_gas").map(|v| v.0), Some(100.0));
}
