//! Control signals of constant-volume dual-duct systems.
//!
//! Each zone has a mixing box that blends air of a hot deck and a cold deck at constant
//! total flow.
use crate::air_loop::{ControlSignals, LoopInfo};
use crate::control;
use crate::control::{
    apply_coil_rule, cooling_off, fill_table, heating_off, mixed_temp, CoilRule, HvacMode,
};
use crate::scalar;
use crate::scalar::{clamp, gt, lit, minus, most, num, over, plus, times, Scalar};
use crate::signals;
use crate::table;
use crate::table::Table;
use crate::vav;
use crate::vav::{air_cp, pick_box_mode};
use crate::zones;
use crate::zones::{mean_over_zones, ZoneData};
use vstd::prelude::*;
use vstd::string::*;

verus! {

/// What the control of a loop asks of one mixing box.
#[derive(Clone, Copy, Debug)]
pub struct BoxRequest<T> {
    pub heating: bool,
    pub cooling: bool,
    /// The share of the available temperature difference that is needed.
    pub plr: T,
}

/// What a mixing box delivers.
#[derive(Clone, Copy, Debug)]
pub struct BoxSupply<T> {
    /// Supply temperature [C].
    pub temp: T,
    /// Air flow [kg/s].
    pub flow: T,
}

/// The flow by which the part load of a box is measured.
pub open spec fn box_design_flow<T: Scalar>(
    li: LoopInfo<T>,
    zones: ZoneData<T>,
    zone: Seq<char>,
) -> T {
    table::value_or(zones.design_flows@, zone, table::value_or(li.dd_boxes@, zone, lit(5, 10)))
}

/// What is asked of the mixing box of a zone: its mode, and its load as a share of what
/// the deck could give at design flow.
pub open spec fn requested<T: Scalar>(
    li: LoopInfo<T>,
    zones: ZoneData<T>,
    zone: Seq<char>,
) -> BoxRequest<T> {
    let mode = vav::box_mode(zones, zone);
    let heat_load = signals::heat_load_of(zones, zone);
    let cool_load = signals::cool_load_of(zones, zone);
    let capacity = times(box_design_flow(li, zones, zone), air_cp());
    let hot_lift = most(
        minus(li.heating_supply_temp, signals::heat_sp_of(zones, zone)),
        num(1),
    );
    let cold_lift = most(
        minus(signals::cool_sp_of(zones, zone), li.cooling_supply_temp),
        num(1),
    );
    BoxRequest {
        heating: mode == HvacMode::Heating,
        cooling: mode == HvacMode::Cooling,
        plr: if mode == HvacMode::Heating && gt(heat_load, num(0)) {
            clamp(over(heat_load, times(capacity, hot_lift)), num(0), num(1))
        } else if mode == HvacMode::Cooling && gt(cool_load, num(0)) {
            clamp(over(cool_load, times(capacity, cold_lift)), num(0), num(1))
        } else {
            num(0)
        },
    }
}

/// What is asked of the mixing box of a zone.
pub fn box_request<T: Scalar>(
    li: &LoopInfo<T>,
    zones: &ZoneData<T>,
    zone: &str,
) -> (r: BoxRequest<T>)
    ensures
        r == requested(*li, *zones, zone@),
{
    let mode = pick_box_mode(zones, zone);
    let heat_load = zones.heating_loads.get_or(zone, num(0));
    let cool_load = zones.cooling_loads.get_or(zone, num(0));
    let own_flow = li.dd_boxes.get_or(zone, lit(5, 10));
    let capacity = times(zones.design_flows.get_or(zone, own_flow), air_cp());
    let plr = if mode == HvacMode::Heating && gt(heat_load, num(0)) {
        let heat_sp = zones.heat_sp.get_or(zone, lit(211, 10));
        let lift = most(minus(li.heating_supply_temp, heat_sp), num(1));
        clamp(over(heat_load, times(capacity, lift)), num(0), num(1))
    } else if mode == HvacMode::Cooling && gt(cool_load, num(0)) {
        let cool_sp = zones.cool_sp.get_or(zone, lit(239, 10));
        let lift = most(minus(cool_sp, li.cooling_supply_temp), num(1));
        clamp(over(cool_load, times(capacity, lift)), num(0), num(1))
    } else {
        num(0)
    };
    BoxRequest {
        heating: mode == HvacMode::Heating,
        cooling: mode == HvacMode::Cooling,
        plr,
    }
}

/// The supply of a zone without a box of its own: at least 20 % from the deck in demand,
/// and half from each deck where there is none.
pub open spec fn unboxed_supply<T: Scalar>(
    request: BoxRequest<T>,
    flow: T,
    hot: T,
    cold: T,
) -> BoxSupply<T> {
    let low = times(flow, lit(20, 100));
    let active = plus(low, times(request.plr, minus(flow, low)));
    let (hot_flow, cold_flow) = if request.heating {
        (active, minus(flow, active))
    } else if request.cooling {
        (minus(flow, active), active)
    } else {
        (over(flow, num(2)), over(flow, num(2)))
    };
    BoxSupply { temp: over(plus(times(hot_flow, hot), times(cold_flow, cold)), flow), flow }
}

fn mix_unboxed<T: Scalar>(request: &BoxRequest<T>, flow: T, hot: T, cold: T) -> (r: BoxSupply<T>)
    ensures
        r == unboxed_supply(*request, flow, hot, cold),
{
    let low = times(flow, lit(20, 100));
    let active = plus(low, times(request.plr, minus(flow, low)));
    let (hot_flow, cold_flow) = if request.heating {
        (active, minus(flow, active))
    } else if request.cooling {
        (minus(flow, active), active)
    } else {
        (over(flow, num(2)), over(flow, num(2)))
    };
    BoxSupply { temp: over(plus(times(hot_flow, hot), times(cold_flow, cold)), flow), flow }
}

/// What zone number `i` of the loop is supplied with: what its box delivers, or a plain
/// blend where it has none.
pub open spec fn zone_supply<T: Scalar>(
    li: LoopInfo<T>,
    zones: ZoneData<T>,
    boxes: Seq<Option<BoxSupply<T>>>,
    i: int,
) -> BoxSupply<T> {
    let zone = li.served_zones@[i]@;
    match boxes[i] {
        Some(supply) => supply,
        None => unboxed_supply(
            requested(li, zones, zone),
            table::value_or(zones.design_flows@, zone, lit(5, 10)),
            li.heating_supply_temp,
            li.cooling_supply_temp,
        ),
    }
}

/// The supply temperatures, by zone, of the first `n` zones; a zone listed twice keeps
/// the later entry.
pub open spec fn supply_temps<T: Scalar>(
    li: LoopInfo<T>,
    zones: ZoneData<T>,
    boxes: Seq<Option<BoxSupply<T>>>,
    n: nat,
) -> Map<Seq<char>, T>
    decreases n,
{
    if n == 0 {
        Map::empty()
    } else {
        supply_temps(li, zones, boxes, (n - 1) as nat).insert(
            li.served_zones@[n - 1]@,
            zone_supply(li, zones, boxes, n - 1).temp,
        )
    }
}

/// The supply flows, by zone, of the first `n` zones.
pub open spec fn supply_flows<T: Scalar>(
    li: LoopInfo<T>,
    zones: ZoneData<T>,
    boxes: Seq<Option<BoxSupply<T>>>,
    n: nat,
) -> Map<Seq<char>, T>
    decreases n,
{
    if n == 0 {
        Map::empty()
    } else {
        supply_flows(li, zones, boxes, (n - 1) as nat).insert(
            li.served_zones@[n - 1]@,
            zone_supply(li, zones, boxes, n - 1).flow,
        )
    }
}

/// The supply flows of the first `n` zones, added up.
pub open spec fn supply_total<T: Scalar>(
    li: LoopInfo<T>,
    zones: ZoneData<T>,
    boxes: Seq<Option<BoxSupply<T>>>,
    n: nat,
) -> T
    decreases n,
{
    if n == 0 {
        num(0)
    } else {
        plus(
            supply_total(li, zones, boxes, (n - 1) as nat),
            zone_supply(li, zones, boxes, n - 1).flow,
        )
    }
}

/// Some zone of the list is in a mode.
pub open spec fn any_in_mode<T: Scalar>(
    served: Seq<String>,
    zones: ZoneData<T>,
    mode: HvacMode,
) -> bool {
    exists|i: int| 0 <= i < served.len() && vav::box_mode(zones, (#[trigger] served[i])@) == mode
}

/// The coil setpoints: each deck runs at its supply temperature while any zone calls for
/// it, both at once where zones differ.
pub open spec fn deck_rule<T: Scalar>(li: LoopInfo<T>, zones: ZoneData<T>) -> CoilRule<T> {
    CoilRule {
        cooling_first: true,
        furnaces: false,
        heat_pump: None,
        heating: if any_in_mode(li.served_zones@, zones, HvacMode::Heating) {
            li.heating_supply_temp
        } else {
            heating_off()
        },
        cooling: if any_in_mode(li.served_zones@, zones, HvacMode::Cooling) {
            li.cooling_supply_temp
        } else {
            cooling_off()
        },
        humidifier: zones::first_dry_zone(zones, li.served_zones@, 0),
    }
}

/// `r` are the signals of a dual-duct system.
pub open spec fn dual_duct_signals<T: Scalar>(
    r: ControlSignals<T>,
    li: LoopInfo<T>,
    zones: ZoneData<T>,
    boxes: Seq<Option<BoxSupply<T>>>,
    t_outdoor: T,
    min_oa: T,
) -> bool {
    let n = li.served_zones@.len();
    let temp = vav::mean_temp(li.served_zones@, zones);
    &&& r.coil_setpoints@ == control::coil_setpoints(
        li.component_names@,
        deck_rule(li, zones),
    ).insert("__vav_mixed_air_temp__"@, mixed_temp(temp, t_outdoor, min_oa)).insert(
        "__oa_fraction__"@,
        min_oa,
    ).insert("__return_air_temp__"@, temp)
    &&& r.air_mass_flows@ == control::same_for_all(
        li.component_names@,
        most(supply_total(li, zones, boxes, n), lit(5, 100)),
    )
    &&& r.zone_air_flows@ == supply_flows(li, zones, boxes, n)
    &&& r.zone_supply_temps@ == supply_temps(li, zones, boxes, n)
    &&& r.plant_loads@ == Map::<Seq<char>, T>::empty()
    &&& r.plant_loop_setpoints@ == Map::<Seq<char>, T>::empty()
    &&& r.sat_setpoint == num::<T>(0)
}

/// Control of a dual-duct system.
///
/// `boxes` holds, for each zone served, what its mixing box delivers for the request of
/// [`box_request`], or nothing where the zone has no box.
pub fn build_dual_duct_signals<T: Scalar>(
    li: &LoopInfo<T>,
    zones: &ZoneData<T>,
    boxes: &Vec<Option<BoxSupply<T>>>,
    t_outdoor: T,
    effective_min_oa: T,
) -> (r: ControlSignals<T>)
    requires
        boxes@.len() == li.served_zones@.len(),
    ensures
        dual_duct_signals(r, *li, *zones, boxes@, t_outdoor, effective_min_oa),
{
    let served = &li.served_zones;
    let mut temps: Table<T> = Table::new();
    let mut flows: Table<T> = Table::new();
    let mut total: T = num(0);
    let mut any_heating = false;
    let mut any_cooling = false;
    for i in 0..served.len()
        invariant
            served@ == li.served_zones@,
            boxes@.len() == served@.len(),
            temps@ == supply_temps(*li, *zones, boxes@, i as nat),
            flows@ == supply_flows(*li, *zones, boxes@, i as nat),
            total == supply_total(*li, *zones, boxes@, i as nat),
            any_heating == exists|k: int|
                0 <= k < i && vav::box_mode(*zones, (#[trigger] served@[k])@)
                    == HvacMode::Heating,
            any_cooling == exists|k: int|
                0 <= k < i && vav::box_mode(*zones, (#[trigger] served@[k])@)
                    == HvacMode::Cooling,
    {
        let zone = served[i].as_str();
        let request = box_request(li, zones, zone);
        if request.heating {
            any_heating = true;
        }
        if request.cooling {
            any_cooling = true;
        }
        let supply = match boxes[i] {
            Some(supply) => supply,
            None => mix_unboxed(
                &request,
                zones.design_flows.get_or(zone, lit(5, 10)),
                li.heating_supply_temp,
                li.cooling_supply_temp,
            ),
        };
        assert(supply == zone_supply(*li, *zones, boxes@, i as int));
        assert(served@[i as int]@ == zone@);
        temps.insert(zone, supply.temp);
        flows.insert(zone, supply.flow);
        total = plus(total, supply.flow);
    }
    let rule = CoilRule {
        cooling_first: true,
        furnaces: false,
        heat_pump: None,
        heating: if any_heating {
            li.heating_supply_temp
        } else {
            heating_off()
        },
        cooling: if any_cooling {
            li.cooling_supply_temp
        } else {
            cooling_off()
        },
        humidifier: zones.humidify_any(served),
    };
    let temp = mean_over_zones(served, &zones.temps, num(21), num(21));
    let mut coil_setpoints = apply_coil_rule(&li.component_names, &rule);
    coil_setpoints.insert("__vav_mixed_air_temp__", mixed_temp(temp, t_outdoor, effective_min_oa));
    coil_setpoints.insert("__oa_fraction__", effective_min_oa);
    coil_setpoints.insert("__return_air_temp__", temp);
    let empty = ControlSignals::new();
    ControlSignals {
        coil_setpoints,
        air_mass_flows: fill_table(&li.component_names, most(total, lit(5, 100))),
        zone_air_flows: flows,
        zone_supply_temps: temps,
        ..empty
    }
}

} // verus!
