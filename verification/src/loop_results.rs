//! What is made of the results of an air loop: heat-recovery credit, part load, scaling
//! of the component outputs, and the air that each zone is supplied with.
use crate::air_loop::{AirLoopSystemType, ControlSignals, FanOperatingMode, LoopInfo};
use crate::air_side::{AirStream, Supply};
use crate::control::{hvac_mode, mixed_temp, HvacMode};
use crate::scalar;
use crate::scalar::{
    absolute, clamp, count, gt, in_order, le, least, lit, lt, minus, most, negated, num, over, plus,
    same, times, Scalar,
};
use crate::signals;
use crate::table;
use crate::table::Table;
use crate::text;
use crate::text::{is_listed, join};
use crate::zones;
use crate::zones::{control_zone, mean_over_zones, ZoneData};
use vstd::prelude::*;
use vstd::string::*;

verus! {

/// The outputs of some components, each by its name.
pub open spec fn outputs_of<T>(results: Table<Table<T>>) -> Map<Seq<char>, Map<Seq<char>, T>> {
    results@.map_values(|outputs: Table<T>| outputs@)
}

// ---------------------------------------------------------------------------
// Heat recovery

/// The outdoor air fraction that a loop worked with.
pub open spec fn oa_fraction_of<T: Scalar>(setpoints: Map<Seq<char>, T>, min_oa: T) -> T {
    table::value_or(setpoints, "__oa_fraction__"@, min_oa)
}

pub open spec fn flow_of<T: Scalar>(supply: Option<AirStream<T>>) -> T {
    match supply {
        Some(s) => s.mass_flow,
        None => num(0),
    }
}

fn supply_flow<T: Scalar>(supply: &Option<AirStream<T>>) -> (r: T)
    ensures
        r == flow_of(*supply),
{
    match supply {
        Some(s) => s.mass_flow,
        None => num(0),
    }
}

/// The outdoor air flow that passes the heat recovery unit [kg/s].
pub fn heat_recovery_flow<T: Scalar>(
    signals: &ControlSignals<T>,
    supply: &Option<AirStream<T>>,
    min_oa: T,
) -> (r: T)
    ensures
        r == times(flow_of(*supply), oa_fraction_of(signals.coil_setpoints@, min_oa)),
{
    times(supply_flow(supply), signals.coil_setpoints.get_or("__oa_fraction__", min_oa))
}

/// The saving by heat recovery in a timestep.
#[derive(Clone, Copy, Debug)]
pub enum RecoveryCredit<T> {
    /// Fuel that the boiler saves [W].
    Heating(T),
    /// Electricity that the chiller saves [W].
    Cooling(T),
    Nothing,
}

/// The saving by recovered heat, capped at what the coil of the loop would have had to
/// provide. A boiler of the given efficiency or a chiller of COP 3.5 would have made it.
pub open spec fn recovery_credit<T: Scalar>(
    li: LoopInfo<T>,
    zones: ZoneData<T>,
    sat_setpoint: T,
    oa_frac: T,
    flow: T,
    t_outdoor: T,
    recovered: T,
) -> RecoveryCredit<T> {
    let temp = zones::zone_mean(li.served_zones@, zones.temps@, num(22), num(22));
    let mixed = mixed_temp(temp, t_outdoor, oa_frac);
    let warm = if gt(sat_setpoint, num(0)) {
        sat_setpoint
    } else {
        li.heating_supply_temp
    };
    let stream = times(flow, num(1005));
    if gt(recovered, num(0)) {
        let coil = times(stream, most(minus(warm, mixed), num(0)));
        RecoveryCredit::Heating(over(least(recovered, coil), li.hhw_boiler_efficiency))
    } else if lt(recovered, num(0)) {
        let coil = times(stream, most(minus(mixed, li.cooling_supply_temp), num(0)));
        RecoveryCredit::Cooling(over(least(absolute(recovered), coil), lit(35, 10)))
    } else {
        RecoveryCredit::Nothing
    }
}

/// The saving by recovered heat; `recovered` is positive for heat given to the air [W].
pub fn heat_recovery_credit<T: Scalar>(
    li: &LoopInfo<T>,
    zones: &ZoneData<T>,
    signals: &ControlSignals<T>,
    supply: &Option<AirStream<T>>,
    min_oa: T,
    t_outdoor: T,
    recovered: T,
) -> (r: RecoveryCredit<T>)
    ensures
        r == recovery_credit(
            *li,
            *zones,
            signals.sat_setpoint,
            oa_fraction_of(signals.coil_setpoints@, min_oa),
            flow_of(*supply),
            t_outdoor,
            recovered,
        ),
{
    let oa_frac = signals.coil_setpoints.get_or("__oa_fraction__", min_oa);
    let temp = mean_over_zones(&li.served_zones, &zones.temps, num(22), num(22));
    let mixed = mixed_temp(temp, t_outdoor, oa_frac);
    let stream = times(supply_flow(supply), num(1005));
    if gt(recovered, num(0)) {
        let warm = if gt(signals.sat_setpoint, num(0)) {
            signals.sat_setpoint
        } else {
            li.heating_supply_temp
        };
        let coil = times(stream, most(minus(warm, mixed), num(0)));
        RecoveryCredit::Heating(over(least(recovered, coil), li.hhw_boiler_efficiency))
    } else if lt(recovered, num(0)) {
        let coil = times(stream, most(minus(mixed, li.cooling_supply_temp), num(0)));
        RecoveryCredit::Cooling(over(least(absolute(recovered), coil), lit(35, 10)))
    } else {
        RecoveryCredit::Nothing
    }
}

/// The name and the outputs of the virtual component that carries a saving.
pub open spec fn credit_entry<T: Scalar>(
    loop_name: Seq<char>,
    credit: RecoveryCredit<T>,
) -> Option<(Seq<char>, Map<Seq<char>, T>)> {
    match credit {
        RecoveryCredit::Heating(saved) => Some(
            (
                loop_name + " HR Heat Savings"@,
                Map::empty().insert("fuel_power"@, negated(saved)).insert(
                    "electric_power"@,
                    num(0),
                ).insert("thermal_output"@, num(0)),
            ),
        ),
        RecoveryCredit::Cooling(saved) => Some(
            (
                loop_name + " HR Cool Savings"@,
                Map::empty().insert("fuel_power"@, num(0)).insert(
                    "electric_power"@,
                    negated(saved),
                ).insert("thermal_output"@, num(0)),
            ),
        ),
        RecoveryCredit::Nothing => None,
    }
}

/// Books a saving as negative energy of a virtual component.
pub fn credit_outputs<T: Scalar>(loop_name: &str, credit: &RecoveryCredit<T>) -> (r: Option<
    (String, Table<T>),
>)
    ensures
        match r {
            Some((name, outputs)) => credit_entry(loop_name@, *credit) == Some(
                (name@, outputs@),
            ),
            None => credit_entry(loop_name@, *credit) is None,
        },
{
    let mut outputs: Table<T> = Table::new();
    match *credit {
        RecoveryCredit::Heating(saved) => {
            outputs.insert("fuel_power", negated(saved));
            outputs.insert("electric_power", num(0));
            outputs.insert("thermal_output", num(0));
            Some((join(loop_name, " HR Heat Savings"), outputs))
        },
        RecoveryCredit::Cooling(saved) => {
            outputs.insert("fuel_power", num(0));
            outputs.insert("electric_power", negated(saved));
            outputs.insert("thermal_output", num(0));
            Some((join(loop_name, " HR Cool Savings"), outputs))
        },
        RecoveryCredit::Nothing => None,
    }
}

/// The outputs of a heat recovery unit from the air that leaves it.
pub open spec fn recovery_report<T: Scalar>(
    outlet: AirStream<T>,
    electric: T,
    thermal: T,
) -> Map<Seq<char>, T> {
    Map::empty().insert("outlet_temp"@, outlet.t_db).insert("outlet_w"@, outlet.w).insert(
        "mass_flow"@,
        outlet.mass_flow,
    ).insert("outlet_enthalpy"@, outlet.h).insert("electric_power"@, electric).insert(
        "fuel_power"@,
        num(0),
    ).insert("thermal_output"@, thermal)
}

/// The outputs of a heat recovery unit. Where no outdoor air passes it, `outlet` is
/// outdoor air without flow, and the unit has neither power nor heat.
pub fn heat_recovery_outputs<T: Scalar>(
    outlet: &AirStream<T>,
    electric: T,
    thermal: T,
) -> (r: Table<T>)
    ensures
        r@ == recovery_report(*outlet, electric, thermal),
{
    let mut outputs: Table<T> = Table::new();
    outputs.insert("outlet_temp", outlet.t_db);
    outputs.insert("outlet_w", outlet.w);
    outputs.insert("mass_flow", outlet.mass_flow);
    outputs.insert("outlet_enthalpy", outlet.h);
    outputs.insert("electric_power", electric);
    outputs.insert("fuel_power", num(0));
    outputs.insert("thermal_output", thermal);
    outputs
}

// ---------------------------------------------------------------------------
// Fan heat and part load

/// The electric power of the first `n` fans that have results, added up [W].
pub open spec fn fan_power<T: Scalar>(
    fans: Seq<String>,
    results: Map<Seq<char>, Map<Seq<char>, T>>,
    n: nat,
) -> T
    decreases n,
{
    if n == 0 {
        num(0)
    } else {
        let rest = fan_power(fans, results, (n - 1) as nat);
        let fan = fans[n - 1]@;
        if results.contains_key(fan) && results[fan].contains_key("electric_power"@) {
            plus(rest, results[fan]["electric_power"@])
        } else {
            rest
        }
    }
}

/// How much a continuous fan warms the air [K].
pub open spec fn fan_heat_rise<T: Scalar>(
    li: LoopInfo<T>,
    results: Map<Seq<char>, Map<Seq<char>, T>>,
    flow: T,
) -> T {
    if li.fan_operating_mode == FanOperatingMode::Continuous && gt(flow, lit(1, 1000)) {
        over(
            fan_power(li.fan_names@, results, li.fan_names@.len()),
            times(flow, num(1006)),
        )
    } else {
        num(0)
    }
}

/// How much the fan of a loop warms the air while its coils are off.
pub fn continuous_fan_heat_rise<T: Scalar>(
    li: &LoopInfo<T>,
    results: &Table<Table<T>>,
    supply: &Option<AirStream<T>>,
) -> (r: T)
    ensures
        r == fan_heat_rise(*li, outputs_of(*results), flow_of(*supply)),
{
    if li.fan_operating_mode != FanOperatingMode::Continuous {
        return num(0);
    }
    let fans = &li.fan_names;
    let mut power: T = num(0);
    for i in 0..fans.len()
        invariant
            power == fan_power(fans@, outputs_of(*results), i as nat),
    {
        if let Some(outputs) = results.get(fans[i].as_str()) {
            if let Some(p) = outputs.get("electric_power") {
                power = plus(power, *p);
            }
        }
    }
    let flow = supply_flow(supply);
    if gt(flow, lit(1, 1000)) {
        over(power, times(flow, num(1006)))
    } else {
        num(0)
    }
}

/// A unit that meets its load by cycling on and off.
#[verifier::allow_in_spec]
pub fn cycles_on_off(system_type: AirLoopSystemType) -> bool
    returns
        system_type == AirLoopSystemType::PszAc || system_type == AirLoopSystemType::Ptac
            || system_type == AirLoopSystemType::Pthp,
{
    system_type == AirLoopSystemType::PszAc || system_type == AirLoopSystemType::Ptac
        || system_type == AirLoopSystemType::Pthp
}

/// The control zone of a cycling unit, as its part load needs it.
#[derive(Clone, Copy, Debug)]
pub struct CyclingZone<T> {
    pub mode: HvacMode,
    pub temp: T,
    pub heat_sp: T,
    pub cool_sp: T,
    /// Loads and heat capacity for all copies of the zone.
    pub heat_load: T,
    pub cool_load: T,
    pub capacity: T,
    pub initial_temp: T,
}

/// How many times a zone counts.
pub open spec fn multiplier_of<T: Scalar>(zones: ZoneData<T>, zone: Seq<char>) -> T {
    T::whole(table::value_or(zones.multipliers@, zone, 1u32) as nat)
}

pub open spec fn cycling_zone<T: Scalar>(
    zones: ZoneData<T>,
    zone: Seq<char>,
    modes: Map<Seq<char>, HvacMode>,
) -> CyclingZone<T> {
    let copies = multiplier_of(zones, zone);
    let temp = signals::temp_of(zones, zone);
    let heat_sp = signals::heat_sp_of(zones, zone);
    let cool_sp = signals::cool_sp_of(zones, zone);
    CyclingZone {
        mode: table::value_or(modes, zone, hvac_mode(temp, heat_sp, cool_sp)),
        temp,
        heat_sp,
        cool_sp,
        heat_load: times(signals::heat_load_of(zones, zone), copies),
        cool_load: times(signals::cool_load_of(zones, zone), copies),
        capacity: times(table::value_or(zones.thermal_caps@, zone, num(0)), copies),
        initial_temp: table::value_or(zones.initial_temps@, zone, temp),
    }
}

/// What a cycling unit can deliver at the supply temperature [W], where it runs at all:
/// it does not run in the deadband, with the zone well past its setpoint, or with a
/// capacity below 100 W.
pub open spec fn running_capacity<T: Scalar>(
    z: CyclingZone<T>,
    supply: AirStream<T>,
) -> Option<T> {
    let band = times(most(minus(z.cool_sp, z.heat_sp), lit(5, 10)), lit(5, 10));
    let stream = times(supply.mass_flow, num(1006));
    let heating = times(stream, minus(supply.t_db, z.heat_sp));
    let cooling = times(stream, minus(z.cool_sp, supply.t_db));
    match z.mode {
        HvacMode::Heating => if gt(z.temp, plus(z.heat_sp, band)) || lt(heating, num(100)) {
            None
        } else {
            Some(heating)
        },
        HvacMode::Cooling => if lt(z.temp, minus(z.cool_sp, band)) || lt(cooling, num(100)) {
            None
        } else {
            Some(cooling)
        },
        HvacMode::Deadband => None,
    }
}

/// The share of the capacity that the load needs. The load is corrected for the change of
/// the zone temperature since the start of the timestep and for the heat of a continuous
/// fan; where it is small, the error of the zone counts instead.
pub open spec fn load_share<T: Scalar>(
    z: CyclingZone<T>,
    supply: AirStream<T>,
    fan_rise: T,
    capacity: T,
) -> T {
    let fan_heat = times(times(supply.mass_flow, num(1006)), fan_rise);
    if z.mode == HvacMode::Heating {
        let load = most(
            plus(z.heat_load, times(z.capacity, minus(z.initial_temp, z.temp))),
            num(0),
        );
        if gt(load, num(10)) {
            over(most(minus(load, fan_heat), num(0)), most(minus(capacity, fan_heat), num(1)))
        } else {
            over(
                most(minus(z.heat_sp, z.temp), num(0)),
                most(minus(supply.t_db, z.heat_sp), num(1)),
            )
        }
    } else {
        let load = most(
            plus(z.cool_load, times(z.capacity, minus(z.temp, z.initial_temp))),
            num(0),
        );
        if gt(load, num(10)) {
            over(plus(load, fan_heat), plus(capacity, fan_heat))
        } else {
            over(
                most(minus(z.temp, z.cool_sp), num(0)),
                most(minus(z.cool_sp, supply.t_db), num(1)),
            )
        }
    }
}

/// The part load of a cycling unit, from the least outdoor air fraction to 1.
pub open spec fn cycling_part_load<T: Scalar>(
    z: CyclingZone<T>,
    supply: Option<AirStream<T>>,
    fan_rise: T,
    min_oa: T,
) -> T {
    match supply {
        Some(s) => match running_capacity(z, s) {
            Some(capacity) => clamp(load_share(z, s, fan_rise, capacity), min_oa, num(1)),
            None => min_oa,
        },
        None => min_oa,
    }
}

/// The part load of a loop.
pub open spec fn part_load<T: Scalar>(
    li: LoopInfo<T>,
    zones: ZoneData<T>,
    modes: Map<Seq<char>, HvacMode>,
    setpoints: Map<Seq<char>, T>,
    supply: Option<AirStream<T>>,
    fan_rise: T,
    min_oa: T,
) -> T {
    if cycles_on_off(li.system_type) {
        cycling_part_load(
            cycling_zone(zones, zones::first_zone(li.served_zones@), modes),
            supply,
            fan_rise,
            min_oa,
        )
    } else {
        table::value_or(setpoints, "__plr__"@, num(1))
    }
}

/// A cycling unit that runs has a range for its part load.
pub open spec fn part_load_in_order<T: Scalar>(
    li: LoopInfo<T>,
    zones: ZoneData<T>,
    modes: Map<Seq<char>, HvacMode>,
    supply: Option<AirStream<T>>,
    min_oa: T,
) -> bool {
    let z = cycling_zone(zones, zones::first_zone(li.served_zones@), modes);
    cycles_on_off(li.system_type) && supply is Some && running_capacity(z, supply->Some_0) is Some
        ==> in_order(min_oa, num(1))
}

fn look_up_zone<T: Scalar>(zones: &ZoneData<T>, zone: &str, modes: &Table<HvacMode>) -> (r:
    CyclingZone<T>)
    ensures
        r == cycling_zone(*zones, zone@, modes@),
{
    let copies = count(zones.multipliers.get_or(zone, 1u32) as usize);
    let temp = zones.temps.get_or(zone, num(21));
    let heat_sp = zones.heat_sp.get_or(zone, lit(211, 10));
    let cool_sp = zones.cool_sp.get_or(zone, lit(239, 10));
    CyclingZone {
        mode: modes.get_or(zone, hvac_mode(temp, heat_sp, cool_sp)),
        temp,
        heat_sp,
        cool_sp,
        heat_load: times(zones.heating_loads.get_or(zone, num(0)), copies),
        cool_load: times(zones.cooling_loads.get_or(zone, num(0)), copies),
        capacity: times(zones.thermal_caps.get_or(zone, num(0)), copies),
        initial_temp: zones.initial_temps.get_or(zone, temp),
    }
}

fn find_running_capacity<T: Scalar>(z: &CyclingZone<T>, supply: &AirStream<T>) -> (r: Option<T>)
    ensures
        r == running_capacity(*z, *supply),
{
    let band = times(most(minus(z.cool_sp, z.heat_sp), lit(5, 10)), lit(5, 10));
    let stream = times(supply.mass_flow, num(1006));
    match z.mode {
        HvacMode::Heating => {
            let capacity = times(stream, minus(supply.t_db, z.heat_sp));
            if gt(z.temp, plus(z.heat_sp, band)) || lt(capacity, num(100)) {
                None
            } else {
                Some(capacity)
            }
        },
        HvacMode::Cooling => {
            let capacity = times(stream, minus(z.cool_sp, supply.t_db));
            if lt(z.temp, minus(z.cool_sp, band)) || lt(capacity, num(100)) {
                None
            } else {
                Some(capacity)
            }
        },
        HvacMode::Deadband => None,
    }
}

fn find_load_share<T: Scalar>(
    z: &CyclingZone<T>,
    supply: &AirStream<T>,
    fan_rise: T,
    capacity: T,
) -> (r: T)
    ensures
        r == load_share(*z, *supply, fan_rise, capacity),
{
    let fan_heat = times(times(supply.mass_flow, num(1006)), fan_rise);
    if z.mode == HvacMode::Heating {
        let correction = times(z.capacity, minus(z.initial_temp, z.temp));
        let load = most(plus(z.heat_load, correction), num(0));
        if gt(load, num(10)) {
            over(most(minus(load, fan_heat), num(0)), most(minus(capacity, fan_heat), num(1)))
        } else {
            over(
                most(minus(z.heat_sp, z.temp), num(0)),
                most(minus(supply.t_db, z.heat_sp), num(1)),
            )
        }
    } else {
        let correction = times(z.capacity, minus(z.temp, z.initial_temp));
        let load = most(plus(z.cool_load, correction), num(0));
        if gt(load, num(10)) {
            over(plus(load, fan_heat), plus(capacity, fan_heat))
        } else {
            over(
                most(minus(z.temp, z.cool_sp), num(0)),
                most(minus(z.cool_sp, supply.t_db), num(1)),
            )
        }
    }
}

/// Whether a cycling unit that runs has a range for its part load.
pub fn part_load_has_range<T: Scalar>(
    li: &LoopInfo<T>,
    zones: &ZoneData<T>,
    modes: &Table<HvacMode>,
    supply: &Option<AirStream<T>>,
    min_oa: T,
) -> (r: bool)
    ensures
        r == part_load_in_order(*li, *zones, modes@, *supply, min_oa),
{
    if !cycles_on_off(li.system_type) {
        return true;
    }
    let zone_name = control_zone(&li.served_zones);
    let z = look_up_zone(zones, zone_name.as_str(), modes);
    match supply {
        Some(s) => find_running_capacity(&z, s).is_none() || in_order(min_oa, num(1)),
        None => true,
    }
}

/// The part load of a loop, from the air that it delivers at full load. Only packaged
/// units cycle; other loops modulate by themselves.
pub fn loop_part_load<T: Scalar>(
    li: &LoopInfo<T>,
    zones: &ZoneData<T>,
    modes: &Table<HvacMode>,
    signals: &ControlSignals<T>,
    supply: &Option<AirStream<T>>,
    fan_rise: T,
    min_oa: T,
) -> (r: T)
    requires
        part_load_in_order(*li, *zones, modes@, *supply, min_oa),
    ensures
        r == part_load(
            *li,
            *zones,
            modes@,
            signals.coil_setpoints@,
            *supply,
            fan_rise,
            min_oa,
        ),
{
    if !cycles_on_off(li.system_type) {
        return signals.coil_setpoints.get_or("__plr__", num(1));
    }
    let zone_name = control_zone(&li.served_zones);
    let z = look_up_zone(zones, zone_name.as_str(), modes);
    match supply {
        Some(s) => match find_running_capacity(&z, s) {
            Some(capacity) => clamp(find_load_share(&z, s, fan_rise, capacity), min_oa, num(1)),
            None => min_oa,
        },
        None => min_oa,
    }
}

// ---------------------------------------------------------------------------
// Scaling of outputs

/// The outputs with the one under `key`, if there is one, multiplied by `factor`.
pub open spec fn scaled_at<T: Scalar>(
    outputs: Map<Seq<char>, T>,
    key: Seq<char>,
    factor: T,
) -> Map<Seq<char>, T> {
    if outputs.contains_key(key) {
        outputs.insert(key, times(outputs[key], factor))
    } else {
        outputs
    }
}

/// The outputs with the one under `key`, if there is one, set to zero.
pub open spec fn zeroed_at<T: Scalar>(
    outputs: Map<Seq<char>, T>,
    key: Seq<char>,
) -> Map<Seq<char>, T> {
    if outputs.contains_key(key) {
        outputs.insert(key, num(0))
    } else {
        outputs
    }
}

fn scale_at<T: Scalar>(outputs: &mut Table<T>, key: &str, factor: T)
    ensures
        final(outputs)@ == scaled_at(old(outputs)@, key@, factor),
{
    let value = match outputs.get(key) {
        Some(v) => Some(*v),
        None => None,
    };
    if let Some(v) = value {
        outputs.insert(key, times(v, factor));
    }
}

fn zero_at<T: Scalar>(outputs: &mut Table<T>, key: &str)
    ensures
        final(outputs)@ == zeroed_at(old(outputs)@, key@),
{
    if outputs.contains_key(key) {
        outputs.insert(key, num(0));
    }
}

/// How much longer a compressor runs than its part load: it loses at each start.
pub open spec fn run_time_fraction<T: Scalar>(plr: T) -> T {
    over(
        plr,
        most(minus(num(1), times(lit(15, 100), minus(num(1), plr))), lit(7, 10)),
    )
}

/// What happens to the outputs of a component at a part load below one.
#[derive(Clone, Copy, Debug)]
pub struct ScalingRule<T> {
    pub fan_mode: FanOperatingMode,
    pub plr: T,
    pub min_oa: T,
}

/// The outputs of one component, averaged over the timestep. A continuous fan keeps
/// running, unless it stops without load; everything else cycles. Compressors also pay
/// for their starts, which fans and fuel-fired coils do not.
pub open spec fn scaled_outputs<T: Scalar>(
    rule: ScalingRule<T>,
    outputs: Map<Seq<char>, T>,
    is_fan: bool,
) -> Map<Seq<char>, T> {
    let compressor = !is_fan && (!outputs.contains_key("fuel_power"@) || same(
        outputs["fuel_power"@],
        num(0),
    ));
    let power_factor = if compressor {
        run_time_fraction(rule.plr)
    } else {
        rule.plr
    };
    if is_fan && rule.fan_mode != FanOperatingMode::Cycling {
        if rule.fan_mode == FanOperatingMode::ContinuousNoLoadOff && le(
            rule.plr,
            plus(rule.min_oa, lit(1, 1000)),
        ) {
            zeroed_at(
                zeroed_at(zeroed_at(outputs, "electric_power"@), "thermal_output"@),
                "mass_flow"@,
            )
        } else {
            outputs
        }
    } else {
        scaled_at(
            scaled_at(
                scaled_at(
                    scaled_at(
                        scaled_at(outputs, "electric_power"@, power_factor),
                        "fuel_power"@,
                        rule.plr,
                    ),
                    "thermal_output"@,
                    rule.plr,
                ),
                "ground_heat_rate"@,
                rule.plr,
            ),
            "mass_flow"@,
            rule.plr,
        )
    }
}

fn scale_component<T: Scalar>(rule: &ScalingRule<T>, outputs: &mut Table<T>, is_fan: bool)
    ensures
        final(outputs)@ == scaled_outputs(*rule, old(outputs)@, is_fan),
{
    if is_fan && rule.fan_mode != FanOperatingMode::Cycling {
        if rule.fan_mode == FanOperatingMode::ContinuousNoLoadOff && le(
            rule.plr,
            plus(rule.min_oa, lit(1, 1000)),
        ) {
            zero_at(outputs, "electric_power");
            zero_at(outputs, "thermal_output");
            zero_at(outputs, "mass_flow");
        }
        return ;
    }
    let burns_nothing = match outputs.get("fuel_power") {
        Some(fuel) => same(*fuel, num(0)),
        None => true,
    };
    let power_factor = if !is_fan && burns_nothing {
        over(
            rule.plr,
            most(minus(num(1), times(lit(15, 100), minus(num(1), rule.plr))), lit(7, 10)),
        )
    } else {
        rule.plr
    };
    scale_at(outputs, "electric_power", power_factor);
    scale_at(outputs, "fuel_power", rule.plr);
    scale_at(outputs, "thermal_output", rule.plr);
    scale_at(outputs, "ground_heat_rate", rule.plr);
    scale_at(outputs, "mass_flow", rule.plr);
}

/// The outputs of all components of a loop, averaged over the timestep.
pub open spec fn scaled_results<T: Scalar>(
    rule: ScalingRule<T>,
    results: Map<Seq<char>, Map<Seq<char>, T>>,
    fans: Seq<String>,
) -> Map<Seq<char>, Map<Seq<char>, T>> {
    if lt(rule.plr, num(1)) {
        Map::new(
            |name: Seq<char>| results.contains_key(name),
            |name: Seq<char>| scaled_outputs(rule, results[name], text::listed(fans, name)),
        )
    } else {
        results
    }
}

/// Averages the outputs of the components of a loop over the timestep.
pub fn scale_results<T: Scalar>(
    rule: &ScalingRule<T>,
    results: &mut Table<Table<T>>,
    fans: &Vec<String>,
)
    ensures
        outputs_of(*final(results)) == scaled_results(*rule, outputs_of(*old(results)), fans@),
{
    if !lt(rule.plr, num(1)) {
        return ;
    }
    let ghost before = results.entries@;
    let n: usize = results.entries.len();
    for i in 0..n
        invariant
            n == before.len(),
            results.entries@.len() == before.len(),
            forall|j: int|
                0 <= j < before.len() ==> (#[trigger] before[j]).0@ == results.entries@[j].0@,
            forall|j: int|
                0 <= j < i ==> (#[trigger] results.entries@[j]).1@ == scaled_outputs(
                    *rule,
                    before[j].1@,
                    text::listed(fans@, before[j].0@),
                ),
            forall|j: int| i <= j < before.len() ==> results.entries@[j] == before[j],
    {
        let is_fan = is_listed(fans, results.entries[i].0.as_str());
        let entry = &mut results.entries[i];
        scale_component(rule, &mut entry.1, is_fan);
    }
    proof {
        let after = results.entries@;
        let scaled = scaled_results(*rule, outputs_of(*old(results)), fans@);
        assert forall|name: Seq<char>|
            #![trigger outputs_of(*results).contains_key(name)]
            outputs_of(*results).contains_key(name) == scaled.contains_key(name) && (
            scaled.contains_key(name) ==> outputs_of(*results)[name] == scaled[name]) by {
            table::lookup_same_place(before, after, name);
        }
        assert(outputs_of(*results) =~= scaled);
    }
}

// ---------------------------------------------------------------------------
// Air for the zones

/// The air that a loop delivers, averaged over the timestep. A continuous fan moves zone
/// air while the coils are off; otherwise the flow stops with them.
pub open spec fn delivered<T: Scalar>(
    li: LoopInfo<T>,
    zones: ZoneData<T>,
    supply: AirStream<T>,
    plr: T,
    fan_rise: T,
) -> Supply<T> {
    let zone = zones::first_zone(li.served_zones@);
    let rest = minus(num(1), plr);
    if li.fan_operating_mode == FanOperatingMode::Continuous {
        Supply {
            temp: plus(
                times(plr, supply.t_db),
                times(rest, plus(signals::temp_of(zones, zone), fan_rise)),
            ),
            flow: supply.mass_flow,
            w: plus(
                times(plr, supply.w),
                times(rest, table::value_or(zones.humidity_ratios@, zone, lit(8, 1000))),
            ),
        }
    } else {
        Supply { temp: supply.t_db, flow: times(supply.mass_flow, plr), w: supply.w }
    }
}

pub fn delivered_air<T: Scalar>(
    li: &LoopInfo<T>,
    zones: &ZoneData<T>,
    supply: &AirStream<T>,
    plr: T,
    fan_rise: T,
) -> (r: Supply<T>)
    ensures
        r == delivered(*li, *zones, *supply, plr, fan_rise),
{
    if li.fan_operating_mode == FanOperatingMode::Continuous {
        let zone_name = control_zone(&li.served_zones);
        let zone = zone_name.as_str();
        let t_off = plus(zones.temps.get_or(zone, num(21)), fan_rise);
        let w_off = zones.humidity_ratios.get_or(zone, lit(8, 1000));
        let rest = minus(num(1), plr);
        Supply {
            temp: plus(times(plr, supply.t_db), times(rest, t_off)),
            flow: supply.mass_flow,
            w: plus(times(plr, supply.w), times(rest, w_off)),
        }
    } else {
        Supply { temp: supply.t_db, flow: times(supply.mass_flow, plr), w: supply.w }
    }
}

/// What is asked of a terminal box.
#[derive(Clone, Copy, Debug)]
pub struct TerminalRequest<T> {
    /// From -1 (full cooling) over 0 to 1 (full reheat).
    pub signal: T,
    /// Air flow that enters the box [kg/s].
    pub inlet_flow: T,
}

/// What is asked of the terminal box of a zone. Heating asks for a share of the reheat
/// capacity, and cooling for the damper position that gives the flow of the air handler.
pub open spec fn terminal_demand<T: Scalar>(
    li: LoopInfo<T>,
    zones: ZoneData<T>,
    zone: Seq<char>,
    zone_flows: Map<Seq<char>, T>,
    reheat_capacity: Option<T>,
    delivered_flow: T,
) -> TerminalRequest<T> {
    let mode = hvac_mode(
        table::value_or(zones.initial_temps@, zone, num(21)),
        signals::heat_sp_of(zones, zone),
        signals::cool_sp_of(zones, zone),
    );
    let heat_load = signals::heat_load_of(zones, zone);
    let cool_load = times(signals::cool_load_of(zones, zone), multiplier_of(zones, zone));
    let reheat: T = match reheat_capacity {
        Some(capacity) => most(capacity, num(100)),
        None => num(10000),
    };
    let full = most(table::value_or(zones.design_flows@, zone, num(1)), lit(1, 100));
    let low = times(full, lit(3, 10));
    let wanted = table::value_or(zone_flows, zone, low);
    TerminalRequest {
        signal: if mode == HvacMode::Heating && gt(heat_load, num(0)) {
            clamp(over(heat_load, reheat), num(0), num(1))
        } else if mode == HvacMode::Cooling && gt(cool_load, num(0)) {
            negated(
                clamp(
                    over(minus(wanted, low), most(minus(full, low), lit(1, 1000))),
                    num(0),
                    num(1),
                ),
            )
        } else {
            num(0)
        },
        inlet_flow: table::value_or(
            zones.design_flows@,
            zone,
            over(delivered_flow, share_count(li.served_zones@.len())),
        ),
    }
}

/// A number of zones to share a flow among, at least one.
pub open spec fn share_count<T: Scalar>(zones: nat) -> T {
    T::whole(
        if zones == 0 {
            1
        } else {
            zones
        },
    )
}

fn sharing<T: Scalar>(served: &Vec<String>) -> (r: T)
    ensures
        r == share_count::<T>(served@.len()),
{
    let n: usize = served.len();
    count(
        if n == 0 {
            1
        } else {
            n
        },
    )
}

/// What is asked of the terminal box of a zone; `reheat_capacity` is the nominal capacity
/// of the box [W].
pub fn terminal_request<T: Scalar>(
    li: &LoopInfo<T>,
    zones: &ZoneData<T>,
    zone: &str,
    signals: &ControlSignals<T>,
    reheat_capacity: Option<T>,
    delivered_flow: T,
) -> (r: TerminalRequest<T>)
    ensures
        r == terminal_demand(
            *li,
            *zones,
            zone@,
            signals.zone_air_flows@,
            reheat_capacity,
            delivered_flow,
        ),
{
    let heat_sp = zones.heat_sp.get_or(zone, lit(211, 10));
    let cool_sp = zones.cool_sp.get_or(zone, lit(239, 10));
    let mode = hvac_mode(zones.initial_temps.get_or(zone, num(21)), heat_sp, cool_sp);
    let heat_load = zones.heating_loads.get_or(zone, num(0));
    let copies = count(zones.multipliers.get_or(zone, 1u32) as usize);
    let cool_load = times(zones.cooling_loads.get_or(zone, num(0)), copies);
    let reheat: T = match reheat_capacity {
        Some(capacity) => most(capacity, num(100)),
        None => num(10000),
    };
    let full = most(zones.design_flows.get_or(zone, num(1)), lit(1, 100));
    let low = times(full, lit(3, 10));
    let wanted = signals.zone_air_flows.get_or(zone, low);
    let signal = if mode == HvacMode::Heating && gt(heat_load, num(0)) {
        clamp(over(heat_load, reheat), num(0), num(1))
    } else if mode == HvacMode::Cooling && gt(cool_load, num(0)) {
        negated(
            clamp(
                over(minus(wanted, low), most(minus(full, low), lit(1, 1000))),
                num(0),
                num(1),
            ),
        )
    } else {
        num(0)
    };
    let share = over(delivered_flow, sharing(&li.served_zones));
    TerminalRequest { signal, inlet_flow: zones.design_flows.get_or(zone, share) }
}

/// The supply of a zone without a terminal box.
pub open spec fn direct<T: Scalar>(
    li: LoopInfo<T>,
    zone: Seq<char>,
    zone_flows: Map<Seq<char>, T>,
    zone_temps: Map<Seq<char>, T>,
    air: Supply<T>,
    plr: T,
) -> Supply<T> {
    let share = over(air.flow, share_count(li.served_zones@.len()));
    let asked = table::value_or(zone_flows, zone, share);
    let (flow, temp) = match li.system_type {
        AirLoopSystemType::PszAc | AirLoopSystemType::Doas => (share, air.temp),
        AirLoopSystemType::Fcu
        | AirLoopSystemType::Ptac
        | AirLoopSystemType::Pthp => (air.flow, air.temp),
        AirLoopSystemType::Vav => (times(asked, plr), air.temp),
        AirLoopSystemType::DualDuct => (asked, table::value_or(zone_temps, zone, air.temp)),
    };
    Supply { temp, flow, w: air.w }
}

fn direct_supply<T: Scalar>(
    li: &LoopInfo<T>,
    zone: &str,
    signals: &ControlSignals<T>,
    air: &Supply<T>,
    plr: T,
) -> (r: Supply<T>)
    ensures
        r == direct(
            *li,
            zone@,
            signals.zone_air_flows@,
            signals.zone_supply_temps@,
            *air,
            plr,
        ),
{
    let share = over(air.flow, sharing(&li.served_zones));
    let asked = signals.zone_air_flows.get_or(zone, share);
    let (flow, temp) = match li.system_type {
        AirLoopSystemType::PszAc | AirLoopSystemType::Doas => (share, air.temp),
        AirLoopSystemType::Fcu
        | AirLoopSystemType::Ptac
        | AirLoopSystemType::Pthp => (air.flow, air.temp),
        AirLoopSystemType::Vav => (times(asked, plr), air.temp),
        AirLoopSystemType::DualDuct => (
            asked,
            signals.zone_supply_temps.get_or(zone, air.temp),
        ),
    };
    Supply { temp, flow, w: air.w }
}

/// What the first `n` zones of a loop are supplied with, in order: a zone with a terminal
/// box by what the box delivers, if it runs, and another zone directly.
pub open spec fn zone_supplies<T: Scalar>(
    li: LoopInfo<T>,
    signals: ControlSignals<T>,
    air: Supply<T>,
    plr: T,
    terminals: Seq<Option<Supply<T>>>,
    n: nat,
) -> Seq<(Seq<char>, Supply<T>)>
    decreases n,
{
    if n == 0 {
        Seq::empty()
    } else {
        let rest = zone_supplies(li, signals, air, plr, terminals, (n - 1) as nat);
        let zone = li.served_zones@[n - 1]@;
        if li.terminal_boxes@.contains_key(zone) {
            match terminals[n - 1] {
                Some(supply) => rest.push((zone, supply)),
                None => rest,
            }
        } else {
            rest.push(
                (
                    zone,
                    direct(
                        li,
                        zone,
                        signals.zone_air_flows@,
                        signals.zone_supply_temps@,
                        air,
                        plr,
                    ),
                ),
            )
        }
    }
}

/// Zones with what they are supplied with.
pub open spec fn supply_list<T>(list: Seq<(String, Supply<T>)>) -> Seq<(Seq<char>, Supply<T>)> {
    list.map_values(|entry: (String, Supply<T>)| (entry.0@, entry.1))
}

/// The outputs of a terminal box from the air that leaves it.
pub fn terminal_outputs<T: Scalar>(outlet: &AirStream<T>, electric: T, thermal: T) -> (r: Table<T>)
    ensures
        r@ == Map::<Seq<char>, T>::empty().insert("outlet_temp"@, outlet.t_db).insert(
            "outlet_w"@,
            outlet.w,
        ).insert("mass_flow"@, outlet.mass_flow).insert("electric_power"@, electric).insert(
            "thermal_output"@,
            thermal,
        ),
{
    let mut outputs: Table<T> = Table::new();
    outputs.insert("outlet_temp", outlet.t_db);
    outputs.insert("outlet_w", outlet.w);
    outputs.insert("mass_flow", outlet.mass_flow);
    outputs.insert("electric_power", electric);
    outputs.insert("thermal_output", thermal);
    outputs
}

/// Adds what a loop supplies its zones with to the list of all loops. `terminals` holds,
/// for each zone served, what its terminal box delivers.
pub fn supply_zones<T: Scalar>(
    li: &LoopInfo<T>,
    signals: &ControlSignals<T>,
    air: &Supply<T>,
    plr: T,
    terminals: &Vec<Option<Supply<T>>>,
    list: &mut Vec<(String, Supply<T>)>,
)
    requires
        terminals@.len() == li.served_zones@.len(),
    ensures
        supply_list(final(list)@) == supply_list(old(list)@) + zone_supplies(
            *li,
            *signals,
            *air,
            plr,
            terminals@,
            li.served_zones@.len(),
        ),
{
    let ghost before = supply_list(list@);
    let served = &li.served_zones;
    assert(supply_list(list@) =~= before + zone_supplies(
        *li,
        *signals,
        *air,
        plr,
        terminals@,
        0,
    ));
    for i in 0..served.len()
        invariant
            served@ == li.served_zones@,
            terminals@.len() == served@.len(),
            supply_list(list@) == before + zone_supplies(
                *li,
                *signals,
                *air,
                plr,
                terminals@,
                i as nat,
            ),
    {
        let zone = served[i].as_str();
        let ghost sofar = list@;
        let supply = if li.terminal_boxes.contains_key(zone) {
            terminals[i]
        } else {
            Some(direct_supply(li, zone, signals, air, plr))
        };
        if let Some(supply) = supply {
            list.push((served[i].clone(), supply));
            assert(supply_list(list@) =~= supply_list(sofar).push((zone@, supply)));
        }
        assert(supply_list(list@) =~= before + zone_supplies(
            *li,
            *signals,
            *air,
            plr,
            terminals@,
            (i + 1) as nat,
        ));
    }
}

/// Flow, heat and moisture of the first `n` supplies of a list that go to one zone.
pub open spec fn supply_sums<T: Scalar>(
    list: Seq<(Seq<char>, Supply<T>)>,
    zone: Seq<char>,
    n: nat,
) -> (T, T, T)
    decreases n,
{
    if n == 0 {
        (num(0), num(0), num(0))
    } else {
        let (flow, heat, moisture) = supply_sums(list, zone, (n - 1) as nat);
        let s = list[n - 1].1;
        if list[n - 1].0 == zone {
            (plus(flow, s.flow), plus(heat, times(s.temp, s.flow)), plus(
                moisture,
                times(s.w, s.flow),
            ))
        } else {
            (flow, heat, moisture)
        }
    }
}

/// What reaches a zone from all loops together, weighted by flow; nothing where there is
/// no flow.
pub open spec fn mixed_supply<T: Scalar>(
    list: Seq<(Seq<char>, Supply<T>)>,
    zone: Seq<char>,
) -> Option<Supply<T>> {
    let (flow, heat, moisture) = supply_sums(list, zone, list.len());
    if gt(flow, num(0)) {
        Some(Supply { temp: over(heat, flow), flow, w: over(moisture, flow) })
    } else {
        None
    }
}

/// Some supply in the list goes to the zone.
pub open spec fn is_supplied<T>(list: Seq<(Seq<char>, Supply<T>)>, zone: Seq<char>) -> bool {
    exists|i: int| 0 <= i < list.len() && (#[trigger] list[i]).0 == zone
}

fn mix_for_zone<T: Scalar>(list: &Vec<(String, Supply<T>)>, zone: &String) -> (r: Option<
    Supply<T>,
>)
    ensures
        r == mixed_supply(supply_list(list@), zone@),
{
    let mut flow: T = num(0);
    let mut heat: T = num(0);
    let mut moisture: T = num(0);
    for i in 0..list.len()
        invariant
            (flow, heat, moisture) == supply_sums(supply_list(list@), zone@, i as nat),
    {
        let ghost k = i as int;
        assert(supply_list(list@)[k] == (list@[k].0@, list@[k].1));
        if list[i].0 == *zone {
            let s = &list[i].1;
            flow = plus(flow, s.flow);
            heat = plus(heat, times(s.temp, s.flow));
            moisture = plus(moisture, times(s.w, s.flow));
        }
    }
    if gt(flow, num(0)) {
        Some(Supply { temp: over(heat, flow), flow, w: over(moisture, flow) })
    } else {
        None
    }
}

/// What each zone is supplied with by all loops together.
pub open spec fn mixed_supplies<T: Scalar>(
    list: Seq<(Seq<char>, Supply<T>)>,
) -> Map<Seq<char>, Supply<T>> {
    Map::new(
        |zone: Seq<char>| is_supplied(list, zone) && mixed_supply(list, zone) is Some,
        |zone: Seq<char>| mixed_supply(list, zone)->Some_0,
    )
}

/// Mixes the supplies of all loops, zone by zone.
pub fn mix_supplies<T: Scalar>(list: &Vec<(String, Supply<T>)>) -> (r: Table<Supply<T>>)
    ensures
        r@ == mixed_supplies(supply_list(list@)),
        table::distinct(r.entries@),
{
    let mut mixed: Table<Supply<T>> = Table::new();
    let ghost all = supply_list(list@);
    for i in 0..list.len()
        invariant
            all == supply_list(list@),
            forall|zone: Seq<char>| #[trigger]
                mixed@.contains_key(zone) <==> is_supplied(all.take(i as int), zone)
                    && mixed_supply(all, zone) is Some,
            forall|zone: Seq<char>| #[trigger]
                mixed@.contains_key(zone) ==> mixed@[zone] == mixed_supply(all, zone)->Some_0,
            table::distinct(mixed.entries@),
    {
        let zone = &list[i].0;
        let ghost before = mixed@;
        proof {
            let here = all.take(i as int);
            let next = all.take(i + 1);
            assert(all[i as int].0 == zone@);
            assert forall|z: Seq<char>| #[trigger]
                is_supplied(next, z) <==> is_supplied(here, z) || z == zone@ by {
                if is_supplied(here, z) {
                    let k = choose|k: int| 0 <= k < here.len() && (#[trigger] here[k]).0 == z;
                    assert(next[k].0 == z);
                }
                if is_supplied(next, z) {
                    let k = choose|k: int| 0 <= k < next.len() && (#[trigger] next[k]).0 == z;
                    if k < i {
                        assert(here[k].0 == z);
                    }
                }
                assert(next[i as int].0 == zone@);
            }
        }
        if let Some(supply) = mix_for_zone(list, zone) {
            mixed.insert(zone.as_str(), supply);
        }
    }
    assert(all.take(list@.len() as int) =~= all);
    assert(mixed@ =~= mixed_supplies(all));
    mixed
}

} // verus!
