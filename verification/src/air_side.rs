//! One timestep of all air loops: what is decided before the components of a loop run,
//! and what is made of their results.
use crate::air_loop::{AirLoopSystemType, ControlSignals, LoopInfo, ZoneOaData};
use crate::control;
use crate::control::{apply_sat_reset, apply_sat_reset_heating, hvac_mode, AirReading, HvacMode};
use crate::dual_duct;
use crate::dual_duct::{build_dual_duct_signals, BoxSupply};
use crate::scalar;
use crate::scalar::{clamp, gt, least, lit, lt, most, num, over, plus, times, Scalar};
use crate::signals;
use crate::signals::{
    build_doas_signals, build_fcu_signals, build_psz_signals, fcu_has_ranges, psz_has_ranges,
};
use crate::table;
use crate::table::Table;
use crate::text;
use crate::text::same_text;
use crate::vav;
use crate::vav::{build_vav_signals, return_air, vav_has_ranges, OutdoorAir};
use crate::zones;
use crate::zones::{control_zone, mean_over_zones, ZoneData};
use vstd::prelude::*;
use vstd::string::*;

verus! {

/// Air that leaves a component.
#[derive(Clone, Copy, Debug)]
pub struct AirStream<T> {
    /// Dry-bulb temperature [C].
    pub t_db: T,
    /// Humidity ratio [kg/kg].
    pub w: T,
    /// Specific enthalpy [J/kg].
    pub h: T,
    /// Mass flow [kg/s].
    pub mass_flow: T,
}

/// Air supplied to a zone.
#[derive(Clone, Copy, Debug)]
pub struct Supply<T> {
    /// Temperature [C].
    pub temp: T,
    /// Mass flow [kg/s].
    pub flow: T,
    /// Humidity ratio [kg/kg].
    pub w: T,
}

// ---------------------------------------------------------------------------
// Availability

/// A loop is off while its availability is below one half; without a schedule it is
/// always available.
#[verifier::allow_in_spec]
pub fn is_switched_off<T: Scalar>(availability: Option<T>) -> bool
    returns
        (match availability {
            Some(fraction) => fraction.below(T::fraction(5, 10)),
            None => false,
        }),
{
    match availability {
        Some(fraction) => lt(fraction, lit(5, 10)),
        None => false,
    }
}

/// The outputs of a component of a loop that is off: outdoor air stands in it.
pub open spec fn idle_outputs<T: Scalar>(outdoor: AirStream<T>) -> Map<Seq<char>, T> {
    Map::empty().insert("outlet_temperature"@, outdoor.t_db).insert(
        "outlet_temp"@,
        outdoor.t_db,
    ).insert("outlet_humidity_ratio"@, outdoor.w).insert("outlet_w"@, outdoor.w).insert(
        "mass_flow"@,
        num(0),
    ).insert("outlet_enthalpy"@, outdoor.h).insert("inlet_temperature"@, outdoor.t_db).insert(
        "inlet_humidity_ratio"@,
        outdoor.w,
    ).insert("inlet_enthalpy"@, outdoor.h).insert("electric_power"@, num(0)).insert(
        "fuel_power"@,
        num(0),
    ).insert("thermal_output"@, num(0))
}

/// The outputs of each component of a loop that is off.
pub fn off_outputs<T: Scalar>(outdoor: &AirStream<T>) -> (r: Table<T>)
    ensures
        r@ == idle_outputs(*outdoor),
{
    let mut outputs: Table<T> = Table::new();
    outputs.insert("outlet_temperature", outdoor.t_db);
    outputs.insert("outlet_temp", outdoor.t_db);
    outputs.insert("outlet_humidity_ratio", outdoor.w);
    outputs.insert("outlet_w", outdoor.w);
    outputs.insert("mass_flow", num(0));
    outputs.insert("outlet_enthalpy", outdoor.h);
    outputs.insert("inlet_temperature", outdoor.t_db);
    outputs.insert("inlet_humidity_ratio", outdoor.w);
    outputs.insert("inlet_enthalpy", outdoor.h);
    outputs.insert("electric_power", num(0));
    outputs.insert("fuel_power", num(0));
    outputs.insert("thermal_output", num(0));
    outputs
}

// ---------------------------------------------------------------------------
// Demand-controlled ventilation

/// The outdoor air of the first `n` zones at their occupancies, added up [m3/s].
pub open spec fn occupied_outdoor_air<T: Scalar>(
    oa_data: Seq<ZoneOaData<T>>,
    occupancy: Seq<T>,
    n: nat,
) -> T
    decreases n,
{
    if n == 0 {
        num(0)
    } else {
        plus(
            occupied_outdoor_air(oa_data, occupancy, (n - 1) as nat),
            vav::zone_ventilation(oa_data[n - 1], occupancy[n - 1]),
        )
    }
}

/// The outdoor air that the floor area of the first `n` zones needs, added up [m3/s].
pub open spec fn area_outdoor_air<T: Scalar>(oa_data: Seq<ZoneOaData<T>>, n: nat) -> T
    decreases n,
{
    if n == 0 {
        num(0)
    } else {
        plus(
            area_outdoor_air(oa_data, (n - 1) as nat),
            times(oa_data[n - 1].per_area_oa, oa_data[n - 1].floor_area),
        )
    }
}

/// The least outdoor air fraction in this timestep. Demand-controlled ventilation lowers
/// the design fraction with the occupancy, never below what the floor area needs and
/// never above the design fraction.
pub open spec fn min_oa_now<T: Scalar>(li: LoopInfo<T>, occupancy: Seq<T>) -> T {
    let oa_data = li.zone_oa_data@;
    let flow = li.design_supply_flow;
    let (wanted, floor) = if gt(flow, num(0)) {
        (
            clamp(
                over(occupied_outdoor_air(oa_data, occupancy, oa_data.len()), flow),
                num(0),
                num(1),
            ),
            clamp(over(area_outdoor_air(oa_data, oa_data.len()), flow), num(0), num(1)),
        )
    } else {
        (li.min_oa_fraction, num(0))
    };
    if li.dcv && oa_data.len() > 0 {
        least(most(wanted, floor), li.min_oa_fraction)
    } else {
        li.min_oa_fraction
    }
}

/// The least outdoor air fraction in this timestep. `occupancy` gives the share of people
/// present for each entry of the ventilation data of the loop.
pub fn effective_min_oa<T: Scalar>(li: &LoopInfo<T>, occupancy: &Vec<T>) -> (r: T)
    requires
        occupancy@.len() == li.zone_oa_data@.len(),
    ensures
        r == min_oa_now(*li, occupancy@),
{
    let oa_data = &li.zone_oa_data;
    if !li.dcv || oa_data.len() == 0 {
        return li.min_oa_fraction;
    }
    let mut outdoor: T = num(0);
    let mut area: T = num(0);
    for i in 0..oa_data.len()
        invariant
            occupancy@.len() == oa_data@.len(),
            outdoor == occupied_outdoor_air(oa_data@, occupancy@, i as nat),
            area == area_outdoor_air(oa_data@, i as nat),
    {
        let d = &oa_data[i];
        let by_area = times(d.per_area_oa, d.floor_area);
        let by_people = times(times(d.per_person_oa, d.design_people), occupancy[i]);
        outdoor = plus(outdoor, plus(by_people, by_area));
        area = plus(area, by_area);
    }
    let flow = li.design_supply_flow;
    let (wanted, floor) = if gt(flow, num(0)) {
        (clamp(over(outdoor, flow), num(0), num(1)), clamp(over(area, flow), num(0), num(1)))
    } else {
        (li.min_oa_fraction, num(0))
    };
    least(most(wanted, floor), li.min_oa_fraction)
}

// ---------------------------------------------------------------------------
// Modes and resets

/// The mode that a zone is predicted to need: by the temperature that it would reach
/// without its system, or else by its loads, or else by its thermostat.
pub open spec fn predicted_mode<T: Scalar>(zones: ZoneData<T>, zone: Seq<char>) -> HvacMode {
    let heat_load = signals::heat_load_of(zones, zone);
    let cool_load = signals::cool_load_of(zones, zone);
    let heat_sp = signals::heat_sp_of(zones, zone);
    let cool_sp = signals::cool_sp_of(zones, zone);
    if zones.predicted_temps@.contains_key(zone) {
        hvac_mode(zones.predicted_temps@[zone], heat_sp, cool_sp)
    } else if gt(heat_load, num(10)) && gt(heat_load, cool_load) {
        HvacMode::Heating
    } else if gt(cool_load, num(10)) && gt(cool_load, heat_load) {
        HvacMode::Cooling
    } else {
        hvac_mode(signals::temp_of(zones, zone), heat_sp, cool_sp)
    }
}

fn predict_mode<T: Scalar>(zones: &ZoneData<T>, zone: &str) -> (r: HvacMode)
    ensures
        r == predicted_mode(*zones, zone@),
{
    let heat_load = zones.heating_loads.get_or(zone, num(0));
    let cool_load = zones.cooling_loads.get_or(zone, num(0));
    let heat_sp = zones.heat_sp.get_or(zone, lit(211, 10));
    let cool_sp = zones.cool_sp.get_or(zone, lit(239, 10));
    match zones.predicted_temps.get(zone) {
        Some(predicted) => hvac_mode(*predicted, heat_sp, cool_sp),
        None => if gt(heat_load, num(10)) && gt(heat_load, cool_load) {
            HvacMode::Heating
        } else if gt(cool_load, num(10)) && gt(cool_load, heat_load) {
            HvacMode::Cooling
        } else {
            hvac_mode(zones.temps.get_or(zone, num(21)), heat_sp, cool_sp)
        },
    }
}

/// The predicted mode of each zone served.
pub open spec fn predicted_modes<T: Scalar>(
    served: Seq<String>,
    zones: ZoneData<T>,
) -> Map<Seq<char>, HvacMode> {
    control::given_to(served, |zone: Seq<char>| Some(predicted_mode(zones, zone)))
}

pub fn predict_modes<T: Scalar>(served: &Vec<String>, zones: &ZoneData<T>) -> (r: Table<HvacMode>)
    ensures
        r@ == predicted_modes(served@, *zones),
{
    let mut modes: Table<HvacMode> = Table::new();
    let ghost f = |zone: Seq<char>| Some(predicted_mode(*zones, zone));
    assert(modes@ =~= control::given_to(served@.take(0), f));
    for i in 0..served.len()
        invariant
            f == (|zone: Seq<char>| Some(predicted_mode(*zones, zone))),
            modes@ == control::given_to(served@.take(i as int), f),
    {
        proof {
            control::given_to_one_more(served@, f, i as int);
        }
        modes.insert(served[i].as_str(), predict_mode(zones, served[i].as_str()));
    }
    assert(served@.take(served@.len() as int) =~= served@);
    modes
}

/// How loaded a zone is, for the reset of supply temperatures: its cooling load over five
/// times its heat capacity, from 0 to 1.
pub open spec fn zone_part_load<T: Scalar>(zones: ZoneData<T>, zone: Seq<char>) -> T {
    let capacity = times(table::value_or(zones.thermal_caps@, zone, num(1)), num(5));
    clamp(
        over(signals::cool_load_of(zones, zone), most(capacity, num(1))),
        num(0),
        num(1),
    )
}

pub open spec fn zone_part_loads<T: Scalar>(served: Seq<String>, zones: ZoneData<T>) -> Seq<T> {
    Seq::new(served.len(), |i: int| zone_part_load(zones, served[i]@))
}

/// The loop after the resets of its supply temperatures.
pub open spec fn after_resets<T: Scalar>(
    li: LoopInfo<T>,
    zones: ZoneData<T>,
    t_outdoor: T,
) -> LoopInfo<T> {
    let plrs = zone_part_loads(li.served_zones@, zones);
    LoopInfo {
        cooling_supply_temp: match li.cooling_sat_reset {
            Some(reset) => control::cooling_reset(
                reset,
                t_outdoor,
                li.cooling_supply_temp,
                plrs,
            ),
            None => li.cooling_supply_temp,
        },
        heating_supply_temp: match li.heating_sat_reset {
            Some(reset) => control::heating_reset(
                reset,
                t_outdoor,
                li.heating_supply_temp,
                plrs,
            ),
            None => li.heating_supply_temp,
        },
        ..li
    }
}

/// Resets the supply temperatures of a loop. The outcome stays with the loop, so that a
/// reset by demand goes on from it in the next timestep.
pub fn reset_supply_temps<T: Scalar>(li: &mut LoopInfo<T>, zones: &ZoneData<T>, t_outdoor: T)
    ensures
        *final(li) == after_resets(*old(li), *zones, t_outdoor),
{
    let mut plrs: Vec<T> = Vec::new();
    let n: usize = li.served_zones.len();
    for i in 0..n
        invariant
            n == li.served_zones@.len(),
            *li == *old(li),
            plrs@ == zone_part_loads(li.served_zones@, *zones).take(i as int),
    {
        let zone = li.served_zones[i].as_str();
        let load = zones.cooling_loads.get_or(zone, num(0));
        let capacity = times(zones.thermal_caps.get_or(zone, num(1)), num(5));
        plrs.push(clamp(over(load, most(capacity, num(1))), num(0), num(1)));
        assert(plrs@ =~= zone_part_loads(li.served_zones@, *zones).take(i + 1));
    }
    assert(plrs@ =~= zone_part_loads(li.served_zones@, *zones));
    if let Some(reset) = li.cooling_sat_reset {
        li.cooling_supply_temp = apply_sat_reset(&reset, t_outdoor, li.cooling_supply_temp, &plrs);
    }
    if let Some(reset) = li.heating_sat_reset {
        li.heating_supply_temp = apply_sat_reset_heating(
            &reset,
            t_outdoor,
            li.heating_supply_temp,
            &plrs,
        );
    }
}

/// The temperature of the exhaust air that a heat recovery unit sees: the mean heating
/// setpoint of the zones.
pub fn exhaust_temp<T: Scalar>(li: &LoopInfo<T>, zones: &ZoneData<T>) -> (r: T)
    ensures
        r == zones::zone_mean(li.served_zones@, zones.heat_sp@, num(21), num(22)),
{
    mean_over_zones(&li.served_zones, &zones.heat_sp, num(21), num(22))
}

/// The state `(temperature, humidity ratio)` of the air that the economizer of a loop compares
/// with the outdoor air: that of the control zone for a packaged single-zone unit, and the mean
/// of the zones for any other.
pub open spec fn compared_air<T: Scalar>(li: LoopInfo<T>, zones: ZoneData<T>) -> (T, T) {
    if li.system_type == AirLoopSystemType::PszAc {
        zones::air_of(zones, zones::first_zone(li.served_zones@))
    } else {
        (vav::mean_temp(li.served_zones@, zones), vav::mean_humidity(li.served_zones@, zones))
    }
}

/// The state of the air whose enthalpy the economizer of a loop compares with that of the
/// outdoor air.
pub fn economizer_return<T: Scalar>(li: &LoopInfo<T>, zones: &ZoneData<T>) -> (r: (T, T))
    ensures
        r == compared_air(*li, *zones),
{
    if li.system_type == AirLoopSystemType::PszAc {
        let zone = control_zone(&li.served_zones);
        zones.air_state(zone.as_str())
    } else {
        return_air(li, zones)
    }
}

// ---------------------------------------------------------------------------
// Signals

/// What the control of a loop is told beside its zones.
pub struct LoopInputs<T> {
    pub outdoor: AirReading<T>,
    /// The enthalpy of the return air [J/kg].
    pub return_enthalpy: T,
    /// The share of people present for each entry of the ventilation data.
    pub occupancy: Vec<T>,
    /// What the mixing box of each zone delivers, in a dual-duct system.
    pub boxes: Vec<Option<BoxSupply<T>>>,
}

/// The outdoor air of a VAV system without heat recovery in its mixing box.
#[verifier::allow_in_spec]
pub fn plain_outdoor<T: Scalar>(outdoor: AirReading<T>) -> OutdoorAir<T>
    returns
        (OutdoorAir { reading: outdoor, inlet_temp: outdoor.temp, economizer_lockout: false }),
{
    OutdoorAir { reading: outdoor, inlet_temp: outdoor.temp, economizer_lockout: false }
}

/// `r` are the signals for a loop by its kind.
pub open spec fn loop_signals<T: Scalar>(
    r: ControlSignals<T>,
    li: LoopInfo<T>,
    zones: ZoneData<T>,
    modes: Map<Seq<char>, HvacMode>,
    inputs: LoopInputs<T>,
    min_oa: T,
) -> bool {
    match li.system_type {
        AirLoopSystemType::PszAc => signals::psz_signals(
            r,
            li,
            zones,
            modes,
            inputs.outdoor,
            inputs.return_enthalpy,
            min_oa,
        ),
        AirLoopSystemType::Doas => signals::doas_signals(r, li, zones, inputs.outdoor.temp),
        AirLoopSystemType::Fcu
        | AirLoopSystemType::Ptac
        | AirLoopSystemType::Pthp => signals::fcu_signals(
            r,
            li,
            zones,
            modes,
            inputs.outdoor.temp,
        ),
        AirLoopSystemType::Vav => vav::vav_signals(
            r,
            li,
            zones,
            plain_outdoor(inputs.outdoor),
            inputs.return_enthalpy,
            inputs.occupancy@,
            min_oa,
        ),
        AirLoopSystemType::DualDuct => dual_duct::dual_duct_signals(
            r,
            li,
            zones,
            inputs.boxes@,
            inputs.outdoor.temp,
            min_oa,
        ),
    }
}

/// The loop has a range for each value that its control sets, and the inputs fit it.
pub open spec fn inputs_fit<T: Scalar>(
    li: LoopInfo<T>,
    zones: ZoneData<T>,
    modes: Map<Seq<char>, HvacMode>,
    inputs: LoopInputs<T>,
    min_oa: T,
) -> bool {
    match li.system_type {
        AirLoopSystemType::PszAc => signals::psz_in_order(
            li,
            zones,
            modes,
            inputs.outdoor,
            inputs.return_enthalpy,
            min_oa,
        ),
        AirLoopSystemType::Doas => true,
        AirLoopSystemType::Fcu
        | AirLoopSystemType::Ptac
        | AirLoopSystemType::Pthp => signals::fcu_in_order(li, zones, modes),
        AirLoopSystemType::Vav => inputs.occupancy@.len() == li.zone_oa_data@.len()
            && vav::vav_in_order(
            li,
            zones,
            plain_outdoor(inputs.outdoor),
            inputs.return_enthalpy,
            inputs.occupancy@,
            min_oa,
        ),
        AirLoopSystemType::DualDuct => inputs.boxes@.len() == li.served_zones@.len(),
    }
}

/// Whether the loop has a range for each value that its control sets, and the inputs fit it.
pub fn inputs_are_fit<T: Scalar>(
    li: &LoopInfo<T>,
    zones: &ZoneData<T>,
    modes: &Table<HvacMode>,
    inputs: &LoopInputs<T>,
    min_oa: T,
) -> (r: bool)
    ensures
        r == inputs_fit(*li, *zones, modes@, *inputs, min_oa),
{
    match li.system_type {
        AirLoopSystemType::PszAc => psz_has_ranges(
            li,
            zones,
            modes,
            &inputs.outdoor,
            inputs.return_enthalpy,
            min_oa,
        ),
        AirLoopSystemType::Doas => true,
        AirLoopSystemType::Fcu
        | AirLoopSystemType::Ptac
        | AirLoopSystemType::Pthp => fcu_has_ranges(li, zones, modes),
        AirLoopSystemType::Vav => inputs.occupancy.len() == li.zone_oa_data.len()
            && vav_has_ranges(
            li,
            zones,
            &plain_outdoor(inputs.outdoor),
            inputs.return_enthalpy,
            &inputs.occupancy,
            min_oa,
        ),
        AirLoopSystemType::DualDuct => inputs.boxes.len() == li.served_zones.len(),
    }
}

/// The control signals of a loop by its kind.
pub fn build_signals<T: Scalar>(
    li: &LoopInfo<T>,
    zones: &ZoneData<T>,
    modes: &Table<HvacMode>,
    inputs: &LoopInputs<T>,
    min_oa: T,
) -> (r: ControlSignals<T>)
    requires
        inputs_fit(*li, *zones, modes@, *inputs, min_oa),
    ensures
        loop_signals(r, *li, *zones, modes@, *inputs, min_oa),
{
    match li.system_type {
        AirLoopSystemType::PszAc => build_psz_signals(
            li,
            zones,
            modes,
            &inputs.outdoor,
            inputs.return_enthalpy,
            min_oa,
        ),
        AirLoopSystemType::Doas => build_doas_signals(li, zones, inputs.outdoor.temp),
        AirLoopSystemType::Fcu
        | AirLoopSystemType::Ptac
        | AirLoopSystemType::Pthp => build_fcu_signals(li, zones, modes, inputs.outdoor.temp),
        AirLoopSystemType::Vav => build_vav_signals(
            li,
            zones,
            &plain_outdoor(inputs.outdoor),
            inputs.return_enthalpy,
            &inputs.occupancy,
            min_oa,
        ),
        AirLoopSystemType::DualDuct => build_dual_duct_signals(
            li,
            zones,
            &inputs.boxes,
            inputs.outdoor.temp,
            min_oa,
        ),
    }
}

/// The components that the supply air passes: all but the heat recovery unit, whose
/// effect is credited afterwards.
pub open spec fn chain_of(names: Seq<Seq<char>>, heat_recovery: Seq<char>) -> Seq<Seq<char>> {
    names.filter(|name: Seq<char>| name != heat_recovery)
}

pub open spec fn texts(names: Seq<String>) -> Seq<Seq<char>> {
    names.map_values(|s: String| s@)
}

pub fn chain_components<T: Scalar>(li: &LoopInfo<T>) -> (r: Vec<String>)
    ensures
        texts(r@) == match li.heat_recovery_name {
            Some(name) => chain_of(texts(li.component_names@), name@),
            None => texts(li.component_names@),
        },
{
    let names = &li.component_names;
    let mut chain: Vec<String> = Vec::new();
    let ghost all = texts(names@);
    match &li.heat_recovery_name {
        Some(unit) => {
            let ghost keep = |name: Seq<char>| name != unit@;
            assert(texts(chain@) =~= all.take(0).filter(keep)) by {
                reveal(Seq::filter);
            }
            for i in 0..names.len()
                invariant
                    all == texts(names@),
                    keep == (|name: Seq<char>| name != unit@),
                    texts(chain@) == all.take(i as int).filter(keep),
            {
                proof {
                    assert(all.take(i + 1).drop_last() =~= all.take(i as int));
                    assert(all.take(i + 1).last() == names@[i as int]@);
                    reveal(Seq::filter);
                }
                if !same_text(names[i].as_str(), unit.as_str()) {
                    let ghost before = chain@;
                    chain.push(names[i].clone());
                    assert(texts(chain@) =~= texts(before).push(names@[i as int]@));
                }
            }
            assert(all.take(names@.len() as int) =~= all);
        },
        None => {
            for i in 0..names.len()
                invariant
                    chain@ == names@.take(i as int),
            {
                chain.push(names[i].clone());
                assert(chain@ =~= names@.take(i + 1));
            }
            assert(chain@ =~= names@);
        },
    }
    chain
}

} // verus!
