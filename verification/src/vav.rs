//! Control signals of variable-air-volume systems.
//!
//! Each zone box modulates its flow: up to the design flow in cooling, up to half of it
//! in heating, and at its minimum in between. The air handler supplies the warmest air
//! that still satisfies every cooling zone, and brings in outdoor air for ventilation
//! and free cooling.
use crate::air_loop::{ControlSignals, LoopInfo, ZoneOaData};
use crate::control;
use crate::control::{
    apply_coil_rule, cooling_off, economizer_available, fill_table, free_cooling_fraction,
    heating_off, hvac_mode, mixed_temp, AirReading, CoilRule, HvacMode,
};
use crate::scalar;
use crate::scalar::{
    clamp, gt, in_order, least, lit, lt, minus, most, num, over, plus, times, Scalar,
};
use crate::signals;
use crate::table;
use crate::table::Table;
use crate::zones;
use crate::zones::{count_zones_above, mean_over_zones, ZoneData};
use vstd::prelude::*;
use vstd::string::*;

verus! {

/// The heat capacity of air [J/(kg K)].
#[verifier::allow_in_spec]
pub fn air_cp<T: Scalar>() -> T
    returns
        num::<T>(1005),
{
    num(1005)
}

/// The warmest supply temperature of a VAV system [C].
#[verifier::allow_in_spec]
pub fn warmest_supply<T: Scalar>() -> T
    returns
        num::<T>(18),
{
    num(18)
}

pub open spec fn design_flow_of<T: Scalar>(zones: ZoneData<T>, zone: Seq<char>) -> T {
    table::value_or(zones.design_flows@, zone, lit(5, 10))
}

/// The supply temperature that the first `n` zones need: the lowest of those at which
/// a zone that is too warm gets its load at full flow.
pub open spec fn supply_needed<T: Scalar>(
    served: Seq<String>,
    zones: ZoneData<T>,
    n: nat,
) -> T
    decreases n,
{
    if n == 0 {
        warmest_supply()
    } else {
        let rest = supply_needed(served, zones, (n - 1) as nat);
        let zone = served[n - 1]@;
        let temp = signals::temp_of(zones, zone);
        let load = signals::cool_load_of(zones, zone);
        if gt(temp, signals::cool_sp_of(zones, zone)) && gt(load, num(100)) {
            least(rest, minus(temp, over(load, times(design_flow_of(zones, zone), air_cp()))))
        } else {
            rest
        }
    }
}

/// The supply temperature setpoint of the system.
pub open spec fn supply_setpoint<T: Scalar>(li: LoopInfo<T>, zones: ZoneData<T>) -> T {
    clamp(
        supply_needed(li.served_zones@, zones, li.served_zones@.len()),
        li.cooling_supply_temp,
        warmest_supply(),
    )
}

fn pick_supply_setpoint<T: Scalar>(li: &LoopInfo<T>, zones: &ZoneData<T>) -> (r: T)
    ensures
        r == supply_setpoint(*li, *zones),
{
    let mut needed: T = warmest_supply();
    let served = &li.served_zones;
    for i in 0..served.len()
        invariant
            served@ == li.served_zones@,
            needed == supply_needed(served@, *zones, i as nat),
    {
        let zone = served[i].as_str();
        let temp = zones.temps.get_or(zone, num(21));
        let cool_sp = zones.cool_sp.get_or(zone, lit(239, 10));
        let design = zones.design_flows.get_or(zone, lit(5, 10));
        let load = zones.cooling_loads.get_or(zone, num(0));
        if gt(temp, cool_sp) && gt(load, num(100)) {
            needed = least(needed, minus(temp, over(load, times(design, air_cp()))));
        }
    }
    clamp(needed, li.cooling_supply_temp, warmest_supply())
}

/// The mode of one zone box: the thermostat, with cooling in place of the deadband
/// where the zone is too humid.
pub open spec fn box_mode<T: Scalar>(zones: ZoneData<T>, zone: Seq<char>) -> HvacMode {
    let mode = hvac_mode(
        signals::temp_of(zones, zone),
        signals::heat_sp_of(zones, zone),
        signals::cool_sp_of(zones, zone),
    );
    if mode == HvacMode::Deadband && zones::too_humid(zones, zone) {
        HvacMode::Cooling
    } else {
        mode
    }
}

pub fn pick_box_mode<T: Scalar>(zones: &ZoneData<T>, zone: &str) -> (r: HvacMode)
    ensures
        r == box_mode(*zones, zone@),
{
    let temp = zones.temps.get_or(zone, num(21));
    let heat_sp = zones.heat_sp.get_or(zone, lit(211, 10));
    let cool_sp = zones.cool_sp.get_or(zone, lit(239, 10));
    let mode = hvac_mode(temp, heat_sp, cool_sp);
    if mode == HvacMode::Deadband && zones.is_too_humid(zone) {
        HvacMode::Cooling
    } else {
        mode
    }
}

/// A box that opens from its least flow to the share `top` of its design flow as the
/// zone goes from its setpoint to 5 K beyond it.
#[verifier::allow_in_spec]
pub fn ramped_flow<T: Scalar>(design: T, min_fraction: T, top: T, error: T) -> T
    returns
        design.product(
            min_fraction.sum(
                top.difference(min_fraction).product(
                    clamp(error, num(0), num(5)).quotient(num(5)),
                ),
            ),
        ),
{
    let share = over(clamp(error, num(0), num(5)), num(5));
    times(design, plus(min_fraction, times(minus(top, min_fraction), share)))
}

/// The air flow of one zone box.
///
/// Cooling, it ramps from the least flow up to the design flow. Where the load of the zone is
/// known, the load says how far: the flow is the one that carries it at the supply temperature,
/// so that the fan moves what the zones need. A load of no more than 100 W says nothing of the
/// air that a zone needs to come back to its setpoint, so there the flow goes by how far the zone
/// is above it, over the same 5 K as in heating; a zone that only needs drying gets the least
/// flow. Heating, it ramps by how far the zone is below its setpoint, up to half the design flow.
pub open spec fn box_flow<T: Scalar>(
    zones: ZoneData<T>,
    zone: Seq<char>,
    min_fraction: T,
    supply: T,
) -> T {
    let temp = signals::temp_of(zones, zone);
    let load = signals::cool_load_of(zones, zone);
    let design = design_flow_of(zones, zone);
    let least_flow = times(design, min_fraction);
    match box_mode(zones, zone) {
        HvacMode::Cooling => if gt(load, num(100)) {
            clamp(
                over(load, times(air_cp(), most(minus(temp, supply), num(1)))),
                least_flow,
                design,
            )
        } else if gt(temp, signals::cool_sp_of(zones, zone)) {
            ramped_flow(
                design,
                min_fraction,
                num(1),
                minus(temp, signals::cool_sp_of(zones, zone)),
            )
        } else {
            least_flow
        },
        HvacMode::Heating => ramped_flow(
            design,
            min_fraction,
            lit(5, 10),
            minus(signals::heat_sp_of(zones, zone), temp),
        ),
        HvacMode::Deadband => least_flow,
    }
}

fn pick_box_flow<T: Scalar>(zones: &ZoneData<T>, zone: &str, min_fraction: T, supply: T) -> (r: T)
    ensures
        r == box_flow(*zones, zone@, min_fraction, supply),
{
    let temp = zones.temps.get_or(zone, num(21));
    let heat_sp = zones.heat_sp.get_or(zone, lit(211, 10));
    let cool_sp = zones.cool_sp.get_or(zone, lit(239, 10));
    let design = zones.design_flows.get_or(zone, lit(5, 10));
    let load = zones.cooling_loads.get_or(zone, num(0));
    let least_flow = times(design, min_fraction);
    match pick_box_mode(zones, zone) {
        HvacMode::Cooling => if gt(load, num(100)) {
            let dt = most(minus(temp, supply), num(1));
            clamp(over(load, times(air_cp(), dt)), least_flow, design)
        } else if gt(temp, cool_sp) {
            ramped_flow(design, min_fraction, num(1), minus(temp, cool_sp))
        } else {
            least_flow
        },
        HvacMode::Heating => {
            ramped_flow(design, min_fraction, lit(5, 10), minus(heat_sp, temp))
        },
        HvacMode::Deadband => least_flow,
    }
}

/// The flows of the first `n` zone boxes, added up.
pub open spec fn box_flow_total<T: Scalar>(
    served: Seq<String>,
    zones: ZoneData<T>,
    min_fraction: T,
    supply: T,
    n: nat,
) -> T
    decreases n,
{
    if n == 0 {
        num(0)
    } else {
        plus(
            box_flow_total(served, zones, min_fraction, supply, (n - 1) as nat),
            box_flow(zones, served[n - 1]@, min_fraction, supply),
        )
    }
}

/// The flow of each zone box by its zone.
pub open spec fn box_flows<T: Scalar>(
    served: Seq<String>,
    zones: ZoneData<T>,
    min_fraction: T,
    supply: T,
) -> Map<Seq<char>, T> {
    control::given_to(
        served,
        |zone: Seq<char>| Some(box_flow(zones, zone, min_fraction, supply)),
    )
}

fn pick_box_flows<T: Scalar>(li: &LoopInfo<T>, zones: &ZoneData<T>, supply: T) -> (r: (
    Table<T>,
    T,
))
    ensures
        r.0@ == box_flows(li.served_zones@, *zones, li.min_vav_fraction, supply),
        r.1 == box_flow_total(
            li.served_zones@,
            *zones,
            li.min_vav_fraction,
            supply,
            li.served_zones@.len(),
        ),
{
    let mut flows: Table<T> = Table::new();
    let mut total: T = num(0);
    let served = &li.served_zones;
    let min_fraction = li.min_vav_fraction;
    let ghost f = |zone: Seq<char>| Some(box_flow(*zones, zone, min_fraction, supply));
    assert(flows@ =~= control::given_to(served@.take(0), f));
    for i in 0..served.len()
        invariant
            f == (|zone: Seq<char>| Some(box_flow(*zones, zone, min_fraction, supply))),
            flows@ == control::given_to(served@.take(i as int), f),
            total == box_flow_total(served@, *zones, min_fraction, supply, i as nat),
    {
        proof {
            control::given_to_one_more(served@, f, i as int);
        }
        let flow = pick_box_flow(zones, served[i].as_str(), min_fraction, supply);
        flows.insert(served[i].as_str(), flow);
        total = plus(total, flow);
    }
    assert(served@.take(served@.len() as int) =~= served@);
    (flows, total)
}

// ---------------------------------------------------------------------------
// Ventilation

/// The outdoor air that one zone needs at an occupancy [m3/s].
pub open spec fn zone_ventilation<T: Scalar>(oa: ZoneOaData<T>, occupancy: T) -> T {
    plus(
        times(times(oa.per_person_oa, oa.design_people), occupancy),
        times(oa.per_area_oa, oa.floor_area),
    )
}

/// The density of air [kg/m3].
#[verifier::allow_in_spec]
pub fn air_density<T: Scalar>() -> T
    returns
        lit::<T>(1204, 1000),
{
    lit(1204, 1000)
}

/// The outdoor air of the first `n` zones added up, and the largest fraction of outdoor
/// air that any of them needs in its supply.
pub open spec fn ventilation_sums<T: Scalar>(
    oa_data: Seq<ZoneOaData<T>>,
    occupancy: Seq<T>,
    flows: Map<Seq<char>, T>,
    n: nat,
) -> (T, T)
    decreases n,
{
    if n == 0 {
        (num(0), num(0))
    } else {
        let (outdoor, critical) = ventilation_sums(oa_data, occupancy, flows, (n - 1) as nat);
        let oa = oa_data[n - 1];
        let need = zone_ventilation(oa, occupancy[n - 1]);
        let supply = over(
            table::value_or(flows, oa.zone_name@, lit(1, 10)),
            air_density(),
        );
        (
            plus(outdoor, need),
            if gt(supply, lit(1, 1000)) {
                most(critical, over(need, supply))
            } else {
                critical
            },
        )
    }
}

/// The least outdoor air fraction by the multiple-zone ventilation rate procedure. All
/// zones share the same mixed air, so the fraction is raised for the critical zone; it
/// never falls below the design minimum.
pub open spec fn ventilation_fraction<T: Scalar>(
    oa_data: Seq<ZoneOaData<T>>,
    occupancy: Seq<T>,
    flows: Map<Seq<char>, T>,
    total_flow: T,
    min_oa: T,
) -> T {
    let (outdoor, critical) = ventilation_sums(oa_data, occupancy, flows, oa_data.len());
    let supply = over(total_flow, air_density());
    let measurable = gt(supply, lit(1, 100));
    let mean = if measurable {
        over(outdoor, supply)
    } else {
        num(0)
    };
    let efficiency = clamp(minus(plus(num(1), mean), critical), lit(15, 100), num(1));
    if oa_data.len() == 0 {
        min_oa
    } else {
        clamp(
            if measurable {
                over(over(outdoor, efficiency), supply)
            } else {
                min_oa
            },
            min_oa,
            num(1),
        )
    }
}

fn pick_ventilation_fraction<T: Scalar>(
    oa_data: &Vec<ZoneOaData<T>>,
    occupancy: &Vec<T>,
    flows: &Table<T>,
    total_flow: T,
    min_oa: T,
) -> (r: T)
    requires
        occupancy@.len() == oa_data@.len(),
    ensures
        r == ventilation_fraction(oa_data@, occupancy@, flows@, total_flow, min_oa),
{
    if oa_data.len() == 0 {
        return min_oa;
    }
    let mut outdoor: T = num(0);
    let mut critical: T = num(0);
    for i in 0..oa_data.len()
        invariant
            occupancy@.len() == oa_data@.len(),
            (outdoor, critical) == ventilation_sums(oa_data@, occupancy@, flows@, i as nat),
    {
        let oa = &oa_data[i];
        let need = plus(
            times(times(oa.per_person_oa, oa.design_people), occupancy[i]),
            times(oa.per_area_oa, oa.floor_area),
        );
        outdoor = plus(outdoor, need);
        let supply = over(flows.get_or(oa.zone_name.as_str(), lit(1, 10)), air_density());
        if gt(supply, lit(1, 1000)) {
            critical = most(critical, over(need, supply));
        }
    }
    let supply = over(total_flow, air_density());
    let measurable = gt(supply, lit(1, 100));
    let mean = if measurable {
        over(outdoor, supply)
    } else {
        num(0)
    };
    let efficiency = clamp(minus(plus(num(1), mean), critical), lit(15, 100), num(1));
    let fraction = if measurable {
        over(over(outdoor, efficiency), supply)
    } else {
        min_oa
    };
    clamp(fraction, min_oa, num(1))
}

// ---------------------------------------------------------------------------
// Air handler

/// More zones need cooling than heating.
pub open spec fn cooling_dominates<T: Scalar>(served: Seq<String>, zones: ZoneData<T>) -> bool {
    zones::zones_above(served, zones.cooling_loads@, num(100), served.len()) > zones::zones_above(
        served,
        zones.heating_loads@,
        num(100),
        served.len(),
    )
}

/// The mean temperature of the zones of a loop.
pub open spec fn mean_temp<T: Scalar>(served: Seq<String>, zones: ZoneData<T>) -> T {
    zones::zone_mean(served, zones.temps@, num(21), num(21))
}

/// The mean humidity ratio of the zones of a loop.
pub open spec fn mean_humidity<T: Scalar>(served: Seq<String>, zones: ZoneData<T>) -> T {
    zones::zone_mean(served, zones.humidity_ratios@, lit(8, 1000), lit(8, 1000))
}

/// The state `(temperature, humidity ratio)` of the return air of a loop, at which its
/// enthalpy is to be taken.
pub fn return_air<T: Scalar>(li: &LoopInfo<T>, zones: &ZoneData<T>) -> (r: (T, T))
    ensures
        r.0 == mean_temp(li.served_zones@, *zones),
        r.1 == mean_humidity(li.served_zones@, *zones),
{
    (
        mean_over_zones(&li.served_zones, &zones.temps, num(21), num(21)),
        mean_over_zones(&li.served_zones, &zones.humidity_ratios, lit(8, 1000), lit(8, 1000)),
    )
}

/// The weather as a VAV system sees it.
#[derive(Clone, Copy, Debug)]
pub struct OutdoorAir<T> {
    /// Outdoor air as the economizer sees it.
    pub reading: AirReading<T>,
    /// Temperature with which outdoor air enters the mixing box [C].
    pub inlet_temp: T,
    /// The economizer is held at minimum outdoor air.
    pub economizer_lockout: bool,
}

/// The outdoor air fraction of the air handler. The economizer works where cooling
/// dominates and outdoor air helps, but not so far that the mixed air would have to be
/// heated.
pub open spec fn vav_oa_fraction<T: Scalar>(
    li: LoopInfo<T>,
    zones: ZoneData<T>,
    outdoor: OutdoorAir<T>,
    return_enthalpy: T,
    supply: T,
    ventilation: T,
) -> T {
    let temp = mean_temp(li.served_zones@, zones);
    let return_air = AirReading { temp, enthalpy: return_enthalpy };
    let free = free_cooling_fraction(temp, outdoor.reading.temp, supply, ventilation);
    if outdoor.economizer_lockout {
        ventilation
    } else if cooling_dominates(li.served_zones@, zones) && control::outdoor_air_helps(
        li.economizer,
        outdoor.reading,
        return_air,
    ) {
        if lt(mixed_temp(temp, outdoor.inlet_temp, free), supply) {
            ventilation
        } else {
            free
        }
    } else {
        ventilation
    }
}

/// The coil setpoints of the air handler: the cooling coil aims at the supply
/// temperature while cooling dominates, and the heating coil only protects from frost: it
/// keeps the mixed air at 4 C.
pub open spec fn vav_rule<T: Scalar>(
    li: LoopInfo<T>,
    zones: ZoneData<T>,
    supply: T,
    mixed: T,
) -> CoilRule<T> {
    CoilRule {
        cooling_first: true,
        furnaces: false,
        heat_pump: None,
        heating: if lt(mixed, num(4)) {
            num(4)
        } else {
            heating_off()
        },
        cooling: if cooling_dominates(li.served_zones@, zones) {
            supply
        } else {
            cooling_off()
        },
        humidifier: zones::first_dry_zone(zones, li.served_zones@, 0),
    }
}

/// The system flow: the flows of the zone boxes added up, though not less than 0.05 kg/s.
pub open spec fn vav_flow<T: Scalar>(li: LoopInfo<T>, zones: ZoneData<T>) -> T {
    most(
        box_flow_total(
            li.served_zones@,
            zones,
            li.min_vav_fraction,
            supply_setpoint(li, zones),
            li.served_zones@.len(),
        ),
        lit(5, 100),
    )
}

/// The least outdoor air fraction of the system.
pub open spec fn vav_ventilation<T: Scalar>(
    li: LoopInfo<T>,
    zones: ZoneData<T>,
    occupancy: Seq<T>,
    min_oa: T,
) -> T {
    ventilation_fraction(
        li.zone_oa_data@,
        occupancy,
        box_flows(li.served_zones@, zones, li.min_vav_fraction, supply_setpoint(li, zones)),
        vav_flow(li, zones),
        min_oa,
    )
}

/// Every zone box that modulates its flow has a range for it.
pub open spec fn boxes_in_order<T: Scalar>(li: LoopInfo<T>, zones: ZoneData<T>) -> bool {
    forall|i: int|
        0 <= i < li.served_zones@.len() ==> {
            let zone = (#[trigger] li.served_zones@[i])@;
            let design = design_flow_of(zones, zone);
            box_mode(zones, zone) == HvacMode::Cooling && gt(
                signals::cool_load_of(zones, zone),
                num(100),
            ) ==> in_order(times(design, li.min_vav_fraction), design)
        }
}

/// The economizer of the air handler sets the outdoor air fraction.
pub open spec fn economizer_modulates<T: Scalar>(
    li: LoopInfo<T>,
    zones: ZoneData<T>,
    outdoor: OutdoorAir<T>,
    return_enthalpy: T,
) -> bool {
    let temp = mean_temp(li.served_zones@, zones);
    let return_air = AirReading { temp, enthalpy: return_enthalpy };
    &&& !outdoor.economizer_lockout
    &&& cooling_dominates(li.served_zones@, zones)
    &&& control::outdoor_air_helps(li.economizer, outdoor.reading, return_air)
    &&& gt(minus(temp, outdoor.reading.temp), lit(1, 10))
}

/// A VAV system has a range for each value that it sets.
pub open spec fn vav_in_order<T: Scalar>(
    li: LoopInfo<T>,
    zones: ZoneData<T>,
    outdoor: OutdoorAir<T>,
    return_enthalpy: T,
    occupancy: Seq<T>,
    min_oa: T,
) -> bool {
    &&& li.zone_oa_data@.len() > 0 ==> in_order(min_oa, num(1))
    &&& economizer_modulates(li, zones, outdoor, return_enthalpy) ==> in_order(
        vav_ventilation(li, zones, occupancy, min_oa),
        num(1),
    )
    &&& in_order(li.cooling_supply_temp, warmest_supply())
    &&& boxes_in_order(li, zones)
}

/// Whether a VAV system has a range for each value that it sets.
pub fn vav_has_ranges<T: Scalar>(
    li: &LoopInfo<T>,
    zones: &ZoneData<T>,
    outdoor: &OutdoorAir<T>,
    return_enthalpy: T,
    occupancy: &Vec<T>,
    min_oa: T,
) -> (r: bool)
    requires
        occupancy@.len() == li.zone_oa_data@.len(),
    ensures
        r == vav_in_order(*li, *zones, *outdoor, return_enthalpy, occupancy@, min_oa),
{
    let served = &li.served_zones;
    for i in 0..served.len()
        invariant
            served@ == li.served_zones@,
            forall|k: int|
                0 <= k < i ==> {
                    let zone = (#[trigger] served@[k])@;
                    let design = design_flow_of(*zones, zone);
                    box_mode(*zones, zone) == HvacMode::Cooling && gt(
                        signals::cool_load_of(*zones, zone),
                        num(100),
                    ) ==> in_order(times(design, li.min_vav_fraction), design)
                },
    {
        let zone = served[i].as_str();
        let design = zones.design_flows.get_or(zone, lit(5, 10));
        let load = zones.cooling_loads.get_or(zone, num(0));
        if pick_box_mode(zones, zone) == HvacMode::Cooling && gt(load, num(100)) && !in_order(
            times(design, li.min_vav_fraction),
            design,
        ) {
            assert(!boxes_in_order(*li, *zones)) by {
                assert(li.served_zones@[i as int]@ == zone@);
            }
            return false;
        }
    }
    if (li.zone_oa_data.len() > 0 && !in_order(min_oa, num(1))) || !in_order(
        li.cooling_supply_temp,
        warmest_supply(),
    ) {
        return false;
    }
    let temp = mean_over_zones(served, &zones.temps, num(21), num(21));
    let n_cool: usize = count_zones_above(served, &zones.cooling_loads, num(100));
    let n_heat: usize = count_zones_above(served, &zones.heating_loads, num(100));
    let return_reading = AirReading { temp, enthalpy: return_enthalpy };
    let modulates = !outdoor.economizer_lockout && n_cool > n_heat && economizer_available(
        &li.economizer,
        &outdoor.reading,
        &return_reading,
    ) && gt(minus(temp, outdoor.reading.temp), lit(1, 10));
    if !modulates {
        return true;
    }
    let supply = pick_supply_setpoint(li, zones);
    let (flows, total) = pick_box_flows(li, zones, supply);
    let ventilation = pick_ventilation_fraction(
        &li.zone_oa_data,
        occupancy,
        &flows,
        most(total, lit(5, 100)),
        min_oa,
    );
    in_order(ventilation, num(1))
}

/// `r` are the signals of a VAV system.
pub open spec fn vav_signals<T: Scalar>(
    r: ControlSignals<T>,
    li: LoopInfo<T>,
    zones: ZoneData<T>,
    outdoor: OutdoorAir<T>,
    return_enthalpy: T,
    occupancy: Seq<T>,
    min_oa: T,
) -> bool {
    let supply = supply_setpoint(li, zones);
    let ventilation = vav_ventilation(li, zones, occupancy, min_oa);
    let temp = mean_temp(li.served_zones@, zones);
    let oa = vav_oa_fraction(li, zones, outdoor, return_enthalpy, supply, ventilation);
    let mixed = mixed_temp(temp, outdoor.inlet_temp, oa);
    &&& r.coil_setpoints@ == control::coil_setpoints(
        li.component_names@,
        vav_rule(li, zones, supply, mixed),
    ).insert("__vav_mixed_air_temp__"@, mixed).insert("__oa_fraction__"@, oa).insert(
        "__return_air_temp__"@,
        temp,
    )
    &&& r.air_mass_flows@ == control::same_for_all(li.component_names@, vav_flow(li, zones))
    &&& r.zone_air_flows@ == box_flows(li.served_zones@, zones, li.min_vav_fraction, supply)
    &&& r.zone_supply_temps@ == Map::<Seq<char>, T>::empty()
    &&& r.plant_loads@ == Map::<Seq<char>, T>::empty()
    &&& r.plant_loop_setpoints@ == Map::<Seq<char>, T>::empty()
    &&& r.sat_setpoint == supply
}

/// Control of a VAV system.
///
/// `return_enthalpy` is the enthalpy of the return air, and `occupancy` gives the share
/// of people present for each entry of the ventilation data of the loop.
pub fn build_vav_signals<T: Scalar>(
    li: &LoopInfo<T>,
    zones: &ZoneData<T>,
    outdoor: &OutdoorAir<T>,
    return_enthalpy: T,
    occupancy: &Vec<T>,
    effective_min_oa: T,
) -> (r: ControlSignals<T>)
    requires
        occupancy@.len() == li.zone_oa_data@.len(),
        vav_in_order(*li, *zones, *outdoor, return_enthalpy, occupancy@, effective_min_oa),
    ensures
        vav_signals(r, *li, *zones, *outdoor, return_enthalpy, occupancy@, effective_min_oa),
{
    let served = &li.served_zones;
    let supply = pick_supply_setpoint(li, zones);
    let (flows, total) = pick_box_flows(li, zones, supply);
    let total_flow = most(total, lit(5, 100));
    let ventilation = pick_ventilation_fraction(
        &li.zone_oa_data,
        occupancy,
        &flows,
        total_flow,
        effective_min_oa,
    );
    let temp = mean_over_zones(served, &zones.temps, num(21), num(21));
    let n_cool: usize = count_zones_above(served, &zones.cooling_loads, num(100));
    let n_heat: usize = count_zones_above(served, &zones.heating_loads, num(100));
    let cooling = n_cool > n_heat;
    let return_reading = AirReading { temp, enthalpy: return_enthalpy };
    let oa_frac = if outdoor.economizer_lockout {
        ventilation
    } else if cooling && economizer_available(
        &li.economizer,
        &outdoor.reading,
        &return_reading,
    ) {
        let free = free_cooling_fraction(temp, outdoor.reading.temp, supply, ventilation);
        if lt(mixed_temp(temp, outdoor.inlet_temp, free), supply) {
            ventilation
        } else {
            free
        }
    } else {
        ventilation
    };
    let mixed = mixed_temp(temp, outdoor.inlet_temp, oa_frac);
    let rule = CoilRule {
        cooling_first: true,
        furnaces: false,
        heat_pump: None,
        heating: if lt(mixed, num(4)) {
            num(4)
        } else {
            heating_off()
        },
        cooling: if cooling {
            supply
        } else {
            cooling_off()
        },
        humidifier: zones.humidify_any(served),
    };
    let mut coil_setpoints = apply_coil_rule(&li.component_names, &rule);
    coil_setpoints.insert("__vav_mixed_air_temp__", mixed);
    coil_setpoints.insert("__oa_fraction__", oa_frac);
    coil_setpoints.insert("__return_air_temp__", temp);
    let empty = ControlSignals::new();
    ControlSignals {
        coil_setpoints,
        air_mass_flows: fill_table(&li.component_names, total_flow),
        zone_air_flows: flows,
        sat_setpoint: supply,
        ..empty
    }
}

} // verus!
