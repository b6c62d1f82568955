//! What a timestep of an air loop comes to: part load, averaged outputs, recovered heat, and what
//! reaches the zones, on fixed-point numbers where sizes matter.
use crate::air_loop::{AirLoopSystemType, ControlSignals, FanOperatingMode, LoopInfo};
use crate::air_side::{AirStream, Supply};
use crate::control;
use crate::control::HvacMode;
use crate::fixed::Fixed;
use crate::loop_results;
use crate::loop_results::{CyclingZone, RecoveryCredit, ScalingRule};
use crate::loop_step;
use crate::loop_step::{LoopRun, LoopStart, Recovered};
use crate::rounding::{product_rounds_down, quotient_rounds_down, whole_product_is_exact};
use crate::scalar::{lit, num, plus, times, Scalar};
use crate::signal_laws::{cool_to, defaults_in_units, heat_to, milli, or_else, temp_in};
use crate::text;
use crate::zones;
use crate::zones::ZoneData;
use vstd::prelude::*;

verus! {

// ---------------------------------------------------------------------------
// Recovered heat

/// Heat given to the air saves heating and heat taken from it saves cooling; nothing recovered saves
/// nothing.
pub proof fn recovery_saves_what_it_replaces(
    li: LoopInfo<Fixed>,
    z: ZoneData<Fixed>,
    sat: Fixed,
    oa: Fixed,
    flow: Fixed,
    t_outdoor: Fixed,
    recovered: Fixed,
)
    ensures
        ({
            let r = loop_results::recovery_credit(li, z, sat, oa, flow, t_outdoor, recovered);
            &&& recovered.units > 0 <==> r is Heating
            &&& recovered.units < 0 <==> r is Cooling
            &&& recovered.units == 0 <==> r is Nothing
        }),
{
    defaults_in_units();
}

/// What is saved is what was recovered, though no more than the coil would have had to give: the air
/// flow, with 1005 J/(kg K), from the mixed air to the supply air. A boiler of the efficiency of the
/// loop would have made the heat, and a chiller with a COP of 3.5 the cold; mixed air is reckoned
/// with 22 C in zones that are not known.
pub proof fn saving_is_capped_by_the_coil(
    li: LoopInfo<Fixed>,
    z: ZoneData<Fixed>,
    sat: Fixed,
    oa: Fixed,
    flow: Fixed,
    t_outdoor: Fixed,
    recovered: Fixed,
)
    requires
        0 <= flow.units <= 1_000_000_000_000,
        -1_000_000_000_000_000_000 <= recovered.units <= 1_000_000_000_000_000_000,
    ensures
        ({
            let r = loop_results::recovery_credit(li, z, sat, oa, flow, t_outdoor, recovered);
            let zone = zones::zone_mean(li.served_zones@, z.temps@, milli(22_000), milli(22_000));
            let mixed = control::mixed_temp(zone, t_outdoor, oa);
            let stream = Fixed { units: (1005 * flow.units) as i64 };
            let warm = if sat.units > 0 {
                sat
            } else {
                li.heating_supply_temp
            };
            let up = warm.difference(mixed);
            let down = mixed.difference(li.cooling_supply_temp);
            let needed = |way: Fixed|
                if way.units > 0 {
                    stream.product(way).units as int
                } else {
                    0
                };
            &&& recovered.units > 0 ==> {
                &&& recovered.units <= needed(up) ==> r->Heating_0 == recovered.quotient(
                    li.hhw_boiler_efficiency,
                )
                &&& recovered.units >= needed(up) ==> r->Heating_0 == (Fixed {
                    units: needed(up) as i64,
                }).quotient(li.hhw_boiler_efficiency)
            }
            &&& recovered.units < 0 ==> {
                &&& -recovered.units <= needed(down) ==> r->Cooling_0 == (Fixed {
                    units: (-recovered.units) as i64,
                }).quotient(milli(3_500))
                &&& -recovered.units >= needed(down) ==> r->Cooling_0 == (Fixed {
                    units: needed(down) as i64,
                }).quotient(milli(3_500))
            }
        }),
{
    defaults_in_units();
    assert(num::<Fixed>(22) == milli(22_000));
    assert(lit::<Fixed>(35, 10) == milli(3_500));
    assert(num::<Fixed>(1005).units == 1_005_000_000_000);
    whole_product_is_exact(flow, 1005, num(1005));
    let stream = flow.product(num(1005));
    assert(stream == (Fixed { units: (1005 * flow.units) as i64 }));
    assert(stream.units * 0 == 0);
    assert(stream.product(num(0)).units == 0);
}

/// Saved fuel is booked as negative fuel and saved electricity as negative electricity, under the
/// name of the loop with what was saved.
pub proof fn savings_are_booked_as_negative_use<T: Scalar>(loop_name: Seq<char>, saved: T)
    ensures
        ({
            let heat = loop_results::credit_entry(loop_name, RecoveryCredit::Heating(saved));
            let cool = loop_results::credit_entry(loop_name, RecoveryCredit::Cooling(saved));
            &&& heat is Some && cool is Some
            &&& heat->Some_0.0 == loop_name + " HR Heat Savings"@
            &&& cool->Some_0.0 == loop_name + " HR Cool Savings"@
            &&& heat->Some_0.1["fuel_power"@] == saved.opposite()
            &&& heat->Some_0.1["electric_power"@] == num::<T>(0)
            &&& heat->Some_0.1["thermal_output"@] == num::<T>(0)
            &&& cool->Some_0.1["electric_power"@] == saved.opposite()
            &&& cool->Some_0.1["fuel_power"@] == num::<T>(0)
            &&& cool->Some_0.1["thermal_output"@] == num::<T>(0)
        }),
        loop_results::credit_entry::<T>(loop_name, RecoveryCredit::Nothing) is None,
{
    names_differ();
}

proof fn names_differ()
    ensures
        "fuel_power"@.len() == 10,
        "electric_power"@.len() == 14,
        "thermal_output"@.len() == 14,
        "electric_power"@[0] == 'e',
        "thermal_output"@[0] == 't',
        "mass_flow"@.len() == 9,
        "ground_heat_rate"@.len() == 16,
        "outlet_temp"@.len() == 11,
        "outlet_w"@.len() == 8,
        "outlet_enthalpy"@.len() == 15,
{
    reveal_strlit("fuel_power");
    reveal_strlit("electric_power");
    reveal_strlit("thermal_output");
    reveal_strlit("mass_flow");
    reveal_strlit("ground_heat_rate");
    reveal_strlit("outlet_temp");
    reveal_strlit("outlet_w");
    reveal_strlit("outlet_enthalpy");
}

/// A heat recovery unit reports the air that leaves it, its electricity and its heat, and burns
/// nothing.
pub proof fn recovery_unit_reports_its_air<T: Scalar>(
    outlet: AirStream<T>,
    electric: T,
    thermal: T,
)
    ensures
        ({
            let r = loop_results::recovery_report(outlet, electric, thermal);
            &&& r["outlet_temp"@] == outlet.t_db && r["outlet_w"@] == outlet.w
            &&& r["mass_flow"@] == outlet.mass_flow && r["outlet_enthalpy"@] == outlet.h
            &&& r["electric_power"@] == electric && r["thermal_output"@] == thermal
            &&& r["fuel_power"@] == num::<T>(0)
        }),
{
    names_differ();
}

/// Of the supply air the share of outdoor air passes the heat recovery unit; without supply air
/// nothing does.
pub proof fn outdoor_share_passes_the_recovery_unit(run: LoopRun<Fixed>, min_oa: Fixed)
    ensures
        ({
            let flow = loop_step::recovery_flow(run, min_oa);
            let share = or_else(run.signals.coil_setpoints@, "__oa_fraction__"@, min_oa);
            &&& run.supply is None ==> flow.units == 0
            &&& run.supply is Some ==> flow == run.supply->Some_0.mass_flow.product(share)
        }),
{
    defaults_in_units();
    let share = or_else(run.signals.coil_setpoints@, "__oa_fraction__"@, min_oa);
    assert(0 * share.units == 0);
}

/// A recovery unit that outdoor air passed and that ran reports what it did; with none passing it
/// reports outdoor air at rest; one that did not run reports nothing.
pub proof fn recovery_unit_needs_outdoor_air(
    flow: Fixed,
    outdoor: AirStream<Fixed>,
    done: Recovered<Fixed>,
)
    ensures
        ({
            let ran = loop_step::recovery_outputs(flow, outdoor, Some(done));
            let did_not = loop_step::recovery_outputs(flow, outdoor, None);
            &&& flow.units > 0 ==> {
                &&& ran["outlet_temp"@] == done.outlet.t_db
                &&& ran["outlet_w"@] == done.outlet.w
                &&& ran["outlet_enthalpy"@] == done.outlet.h
                &&& ran["mass_flow"@] == flow
                &&& ran["electric_power"@] == done.electric
                &&& ran["thermal_output"@] == done.thermal
                &&& did_not == Map::<Seq<char>, Fixed>::empty()
                &&& loop_step::recovered_heat(flow, Some(done)) == done.thermal
            }
            &&& flow.units <= 0 ==> {
                &&& ran == did_not
                &&& ran["outlet_temp"@] == outdoor.t_db
                &&& ran["outlet_w"@] == outdoor.w
                &&& ran["mass_flow"@].units == 0
                &&& ran["electric_power"@].units == 0
                &&& ran["thermal_output"@].units == 0
                &&& loop_step::recovered_heat(flow, Some(done)).units == 0
            }
            &&& loop_step::recovered_heat::<Fixed>(flow, None).units == 0
        }),
{
    defaults_in_units();
    names_differ();
}

/// The results of a loop without a recovery unit stay as they are; with one, its outputs and the
/// saving join them, and nothing else changes.
pub proof fn recovery_joins_the_results(
    results: Map<Seq<char>, Map<Seq<char>, Fixed>>,
    li: LoopInfo<Fixed>,
    z: ZoneData<Fixed>,
    run: LoopRun<Fixed>,
    min_oa: Fixed,
    name: Seq<char>,
)
    ensures
        ({
            let r = loop_step::with_recovery(results, li, z, run, min_oa);
            let flow = loop_step::recovery_flow(run, min_oa);
            let heat = loop_step::recovered_heat(flow, run.recovered).units;
            let saved_heat = li.name@ + " HR Heat Savings"@;
            let saved_cold = li.name@ + " HR Cool Savings"@;
            &&& li.heat_recovery_name is None ==> r == results
            &&& li.heat_recovery_name is Some ==> {
                let unit = li.heat_recovery_name->Some_0@;
                let entry = if heat > 0 {
                    saved_heat
                } else {
                    saved_cold
                };
                &&& r.contains_key(unit) && r[unit] == loop_step::recovery_outputs(
                    flow,
                    run.outdoor,
                    run.recovered,
                )
                &&& heat != 0 ==> r.contains_key(entry)
                &&& name != unit && (heat == 0 || name != entry) ==> r.contains_key(name)
                    == results.contains_key(name) && (results.contains_key(name) ==> r[name]
                    == results[name])
            }
        }),
{
    defaults_in_units();
}

/// A schedule that switches a loop, on or off, puts its night-cycle timer back to zero and leaves
/// the timers of other loops; without one all timers stay.
pub proof fn schedules_reset_the_timer<T: Scalar>(
    timers: Map<Seq<char>, T>,
    name: Seq<char>,
    other: Seq<char>,
    availability: T,
)
    ensures
        ({
            let after = loop_step::timers_after(timers, name, Some(availability));
            &&& after.contains_key(name) && after[name] == num::<T>(0)
            &&& other != name ==> after.contains_key(other) == timers.contains_key(other) && (
            timers.contains_key(other) ==> after[other] == timers[other])
        }),
        loop_step::timers_after(timers, name, Option::<T>::None) == timers,
{
}

// ---------------------------------------------------------------------------
// Fans

/// Every fan with results adds its electric power.
pub proof fn fans_add_their_power(
    fans: Seq<String>,
    results: Map<Seq<char>, Map<Seq<char>, Fixed>>,
    n: nat,
)
    requires
        n < fans.len(),
    ensures
        loop_results::fan_power(fans, results, 0).units == 0,
        ({
            let fan = fans[n as int]@;
            let known = results.contains_key(fan) && results[fan].contains_key("electric_power"@);
            let before = loop_results::fan_power(fans, results, n);
            let after = loop_results::fan_power(fans, results, n + 1);
            &&& known ==> after == before.sum(results[fan]["electric_power"@])
            &&& !known ==> after == before
        }),
{
    defaults_in_units();
}

/// A continuous fan warms the air by its power: the rise times the flow, with 1006 J/(kg K), is the
/// power, but for rounding. Any other fan, or one that moves hardly any air, does not.
pub proof fn continuous_fan_warms_the_air(
    li: LoopInfo<Fixed>,
    results: Map<Seq<char>, Map<Seq<char>, Fixed>>,
    flow: Fixed,
)
    requires
        flow.units <= 1_000_000_000_000,
        -9_000_000_000_000_000 <= loop_results::fan_power(
            li.fan_names@,
            results,
            li.fan_names@.len(),
        ).units <= 9_000_000_000_000_000,
    ensures
        ({
            let rise = loop_results::fan_heat_rise(li, results, flow).units;
            let power = loop_results::fan_power(li.fan_names@, results, li.fan_names@.len()).units;
            let runs = li.fan_operating_mode == FanOperatingMode::Continuous && flow.units
                > 1_000_000;
            &&& !runs ==> rise == 0
            &&& runs ==> rise * (1006 * flow.units) <= 1_000_000_000 * power < rise * (1006
                * flow.units) + 1006 * flow.units
        }),
{
    defaults_in_units();
    assert(lit::<Fixed>(1, 1000) == milli(1));
    assert(num::<Fixed>(1006).units == 1_006_000_000_000);
    if flow.units > 1_000_000 {
        whole_product_is_exact(flow, 1006, num(1006));
        quotient_rounds_down(
            loop_results::fan_power(li.fan_names@, results, li.fan_names@.len()),
            flow.product(num(1006)),
        );
    }
}

// ---------------------------------------------------------------------------
// Part load

/// Packaged units cycle, single-zone and terminal ones, and no others; the rest have the part load
/// that their control gives, or one.
pub proof fn packaged_units_cycle(
    li: LoopInfo<Fixed>,
    z: ZoneData<Fixed>,
    modes: Map<Seq<char>, HvacMode>,
    setpoints: Map<Seq<char>, Fixed>,
    supply: Option<AirStream<Fixed>>,
    fan_rise: Fixed,
    min_oa: Fixed,
)
    requires
        li.served_zones@.len() > 0,
    ensures
        ({
            let r = loop_results::part_load(li, z, modes, setpoints, supply, fan_rise, min_oa);
            let cycles = li.system_type == AirLoopSystemType::PszAc || li.system_type
                == AirLoopSystemType::Ptac || li.system_type == AirLoopSystemType::Pthp;
            &&& !cycles ==> r == or_else(setpoints, "__plr__"@, milli(1_000))
            &&& cycles ==> r == loop_results::cycling_part_load(
                loop_results::cycling_zone(z, li.served_zones@[0]@, modes),
                supply,
                fan_rise,
                min_oa,
            )
        }),
{
    defaults_in_units();
}

/// A cycling unit sees its zone as it is, with the loads and the heat capacity of all copies of it.
pub proof fn cycling_unit_serves_all_copies(
    z: ZoneData<Fixed>,
    zone: Seq<char>,
    modes: Map<Seq<char>, HvacMode>,
)
    requires
        heat_to(z, zone) <= cool_to(z, zone),
        ({
            let copies = or_else(z.multipliers@, zone, 1u32);
            &&& copies <= 1_000
            &&& -1_000_000_000_000_000 <= or_else(z.heating_loads@, zone, milli(0)).units
                <= 1_000_000_000_000_000
            &&& -1_000_000_000_000_000 <= or_else(z.cooling_loads@, zone, milli(0)).units
                <= 1_000_000_000_000_000
            &&& -1_000_000_000_000_000 <= or_else(z.thermal_caps@, zone, milli(0)).units
                <= 1_000_000_000_000_000
        }),
    ensures
        ({
            let c = loop_results::cycling_zone(z, zone, modes);
            let copies = or_else(z.multipliers@, zone, 1u32) as int;
            let t = temp_in(z, zone);
            &&& c.temp.units == t && c.heat_sp.units == heat_to(z, zone) && c.cool_sp.units
                == cool_to(z, zone)
            &&& c.heat_load.units == copies * or_else(z.heating_loads@, zone, milli(0)).units
            &&& c.cool_load.units == copies * or_else(z.cooling_loads@, zone, milli(0)).units
            &&& c.capacity.units == copies * or_else(z.thermal_caps@, zone, milli(0)).units
            &&& c.initial_temp == or_else(z.initial_temps@, zone, c.temp)
            &&& modes.contains_key(zone) ==> c.mode == modes[zone]
            &&& !modes.contains_key(zone) ==> (c.mode == HvacMode::Heating <==> t < heat_to(z, zone))
                && (c.mode == HvacMode::Cooling <==> t > cool_to(z, zone))
        }),
{
    defaults_in_units();
    let copies = or_else(z.multipliers@, zone, 1u32) as int;
    let count = Fixed::whole(copies as nat);
    assert(count.units == copies * 1_000_000_000);
    let (h, c, m) = (
        or_else(z.heating_loads@, zone, milli(0)),
        or_else(z.cooling_loads@, zone, milli(0)),
        or_else(z.thermal_caps@, zone, milli(0)),
    );
    assert(-1_000_000_000_000_000_000 <= h.units * copies <= 1_000_000_000_000_000_000
        && -1_000_000_000_000_000_000 <= c.units * copies <= 1_000_000_000_000_000_000
        && -1_000_000_000_000_000_000 <= m.units * copies <= 1_000_000_000_000_000_000)
        by (nonlinear_arith)
        requires
            0 <= copies <= 1_000,
            -1_000_000_000_000_000 <= h.units <= 1_000_000_000_000_000,
            -1_000_000_000_000_000 <= c.units <= 1_000_000_000_000_000,
            -1_000_000_000_000_000 <= m.units <= 1_000_000_000_000_000,
    ;
    whole_product_is_exact(h, copies, count);
    whole_product_is_exact(c, copies, count);
    whole_product_is_exact(m, copies, count);
    assert(h.units * copies == copies * h.units && c.units * copies == copies * c.units && m.units
        * copies == copies * m.units) by (nonlinear_arith);
}

/// A cycling unit can give its air flow, with 1006 J/(kg K), from the setpoint to the supply air, but
/// for rounding. It runs only in its mode, with 100 W at least, and with the zone no further past the
/// setpoint than half the band between the setpoints, which counts as half a degree at least.
pub proof fn cycling_unit_runs_towards_its_setpoint(c: CyclingZone<Fixed>, supply: AirStream<Fixed>)
    requires
        0 <= supply.mass_flow.units <= 1_000_000_000_000,
        -1_000_000_000_000 <= supply.t_db.units <= 1_000_000_000_000,
        -1_000_000_000_000 <= c.heat_sp.units <= 1_000_000_000_000,
        -1_000_000_000_000 <= c.cool_sp.units <= 1_000_000_000_000,
    ensures
        ({
            let r = loop_results::running_capacity(c, supply);
            let wide = c.cool_sp.units - c.heat_sp.units;
            let band = (if wide > 500_000_000 {
                wide
            } else {
                500_000_000
            }) / 2;
            let stream = 1006 * supply.mass_flow.units;
            let up = supply.t_db.units - c.heat_sp.units;
            let down = c.cool_sp.units - supply.t_db.units;
            let heating = c.mode == HvacMode::Heating;
            let cooling = c.mode == HvacMode::Cooling;
            &&& r is Some ==> heating || cooling
            &&& r is Some ==> r->Some_0.units >= 100_000_000_000
            &&& r is Some && heating ==> c.temp.units <= c.heat_sp.units + band && 1_000_000_000
                * r->Some_0.units <= stream * up < 1_000_000_000 * r->Some_0.units + 1_000_000_000
            &&& r is Some && cooling ==> c.temp.units >= c.cool_sp.units - band && 1_000_000_000
                * r->Some_0.units <= stream * down < 1_000_000_000 * r->Some_0.units
                + 1_000_000_000
            &&& heating && c.temp.units <= c.heat_sp.units + band && stream * up
                >= 100_000_000_000_000_000_000 ==> r is Some
            &&& cooling && c.temp.units >= c.cool_sp.units - band && stream * down
                >= 100_000_000_000_000_000_000 ==> r is Some
        }),
{
    defaults_in_units();
    assert(num::<Fixed>(1006).units == 1_006_000_000_000);
    whole_product_is_exact(supply.mass_flow, 1006, num(1006));
    let stream = supply.mass_flow.product(num(1006));
    let up = supply.t_db.difference(c.heat_sp);
    let down = c.cool_sp.difference(supply.t_db);
    product_rounds_down(stream, up, 1_006_000_000_000_000, 2_000_000_000_000);
    product_rounds_down(stream, down, 1_006_000_000_000_000, 2_000_000_000_000);
    let wide = c.cool_sp.difference(c.heat_sp).greater(milli(500));
    product_rounds_down(wide, milli(500), 2_000_000_000_000, 500_000_000);
    let band = wide.product(milli(500)).units;
    assert(band == wide.units / 2);
}

/// In heating a unit runs for the share of its capacity that the load takes, both less the heat of
/// the fan; the load counts what the zone has gained since the start of the step. A load of no more
/// than 10 W says nothing: there the error of the zone counts, over the way from the setpoint to the
/// supply air. All this but for rounding.
pub proof fn heating_share_carries_the_load(
    c: CyclingZone<Fixed>,
    supply: AirStream<Fixed>,
    fan_heat: Fixed,
    fan_rise: Fixed,
    load: Fixed,
    capacity: Fixed,
)
    requires
        c.mode == HvacMode::Heating,
        fan_heat == supply.mass_flow.product(num(1006)).product(fan_rise),
        load == c.heat_load.sum(c.capacity.product(c.initial_temp.difference(c.temp))),
        0 <= fan_heat.units <= 1_000_000_000_000_000,
        100_000_000_000 <= capacity.units <= 1_000_000_000_000_000,
        load.units <= 1_000_000_000_000_000,
        -1_000_000_000_000 <= c.heat_sp.units <= 1_000_000_000_000,
        -1_000_000_000_000 <= c.temp.units <= 1_000_000_000_000,
        -1_000_000_000_000 <= supply.t_db.units <= 1_000_000_000_000,
    ensures
        ({
            let r = loop_results::load_share(c, supply, fan_rise, capacity).units;
            let left = load.units - fan_heat.units;
            let free = capacity.units - fan_heat.units;
            let base = if free > 1_000_000_000 {
                free
            } else {
                1_000_000_000
            };
            let error = c.heat_sp.units - c.temp.units;
            let way = supply.t_db.units - c.heat_sp.units;
            let span = if way > 1_000_000_000 {
                way
            } else {
                1_000_000_000
            };
            &&& load.units > 10_000_000_000 && left <= 0 ==> r == 0
            &&& load.units > 10_000_000_000 && left > 0 ==> r * base <= 1_000_000_000 * left < r
                * base + base
            &&& load.units <= 10_000_000_000 && error <= 0 ==> r == 0
            &&& load.units <= 10_000_000_000 && error > 0 ==> r * span <= 1_000_000_000 * error < r
                * span + span
        }),
{
    defaults_in_units();
    let top = load.difference(fan_heat).greater(num(0));
    let base = capacity.difference(fan_heat).greater(num(1));
    if load.units > 10_000_000_000 {
        quotient_rounds_down(top, base);
        assert(load.greater(num(0)) == load);
        if top.units == 0 {
            zero_share(top, base);
        }
    } else {
        let error = c.heat_sp.difference(c.temp).greater(num(0));
        let span = supply.t_db.difference(c.heat_sp).greater(num(1));
        quotient_rounds_down(error, span);
        if error.units == 0 {
            zero_share(error, span);
        }
    }
}

proof fn zero_share(top: Fixed, base: Fixed)
    requires
        top.units == 0,
        base.units > 0,
    ensures
        top.quotient(base).units == 0,
{
    vstd::arithmetic::div_mod::lemma_div_basics(base.units as int);
}

/// In cooling a unit runs for the share of its capacity that the load takes, both with the heat of
/// the fan; the load counts what the zone has lost since the start of the step. A load of no more
/// than 10 W says nothing: there the error of the zone counts, over the way from the supply air to
/// the setpoint. All this but for rounding.
pub proof fn cooling_share_carries_the_load(
    c: CyclingZone<Fixed>,
    supply: AirStream<Fixed>,
    fan_heat: Fixed,
    fan_rise: Fixed,
    load: Fixed,
    capacity: Fixed,
)
    requires
        c.mode == HvacMode::Cooling,
        fan_heat == supply.mass_flow.product(num(1006)).product(fan_rise),
        load == c.cool_load.sum(c.capacity.product(c.temp.difference(c.initial_temp))),
        0 <= fan_heat.units <= 1_000_000_000_000_000,
        100_000_000_000 <= capacity.units <= 1_000_000_000_000_000,
        load.units <= 1_000_000_000_000_000,
        -1_000_000_000_000 <= c.cool_sp.units <= 1_000_000_000_000,
        -1_000_000_000_000 <= c.temp.units <= 1_000_000_000_000,
        -1_000_000_000_000 <= supply.t_db.units <= 1_000_000_000_000,
    ensures
        ({
            let r = loop_results::load_share(c, supply, fan_rise, capacity).units;
            let total = load.units + fan_heat.units;
            let base = capacity.units + fan_heat.units;
            let error = c.temp.units - c.cool_sp.units;
            let way = c.cool_sp.units - supply.t_db.units;
            let span = if way > 1_000_000_000 {
                way
            } else {
                1_000_000_000
            };
            &&& load.units > 10_000_000_000 ==> r * base <= 1_000_000_000 * total < r * base + base
            &&& load.units <= 10_000_000_000 && error <= 0 ==> r == 0
            &&& load.units <= 10_000_000_000 && error > 0 ==> r * span <= 1_000_000_000 * error < r
                * span + span
        }),
{
    defaults_in_units();
    if load.units > 10_000_000_000 {
        quotient_rounds_down(load.sum(fan_heat), capacity.sum(fan_heat));
        assert(load.greater(num(0)) == load);
    } else {
        let error = c.temp.difference(c.cool_sp).greater(num(0));
        let span = c.cool_sp.difference(supply.t_db).greater(num(1));
        quotient_rounds_down(error, span);
        if error.units == 0 {
            zero_share(error, span);
        }
    }
}

/// A unit that does not run idles at the least outdoor air; one that runs has the share of its load
/// as part load, between that and one.
pub proof fn part_load_is_the_share_of_the_load(
    c: CyclingZone<Fixed>,
    supply: AirStream<Fixed>,
    fan_rise: Fixed,
    min_oa: Fixed,
)
    requires
        min_oa.units <= 1_000_000_000,
    ensures
        loop_results::cycling_part_load(c, None, fan_rise, min_oa) == min_oa,
        ({
            let r = loop_results::cycling_part_load(c, Some(supply), fan_rise, min_oa);
            let capacity = loop_results::running_capacity(c, supply);
            let share = loop_results::load_share(c, supply, fan_rise, capacity->Some_0).units;
            &&& capacity is None ==> r == min_oa
            &&& capacity is Some && share <= min_oa.units ==> r == min_oa
            &&& capacity is Some && share >= 1_000_000_000 ==> r.units == 1_000_000_000
            &&& capacity is Some && min_oa.units <= share <= 1_000_000_000 ==> r.units == share
        }),
{
    defaults_in_units();
}

// ---------------------------------------------------------------------------
// Averages over the step

/// A compressor runs longer than its part load, by what it loses at each start: its run time, times
/// one less 0.15 of what is missing to full load, though no less than 0.7, is the part load, but for
/// rounding.
pub proof fn run_time_counts_the_starts(plr: Fixed)
    requires
        0 <= plr.units <= 1_000_000_000,
    ensures
        ({
            let r = loop_results::run_time_fraction(plr).units;
            let degraded = 1_000_000_000 - (1_000_000_000 - plr.units) * 15 / 100;
            let base = if degraded > 700_000_000 {
                degraded
            } else {
                700_000_000
            };
            r * base <= 1_000_000_000 * plr.units < r * base + base
        }),
{
    defaults_in_units();
    assert(lit::<Fixed>(15, 100).units == 150_000_000);
    assert(lit::<Fixed>(7, 10).units == 700_000_000);
    let rest = num::<Fixed>(1).difference(plr);
    product_rounds_down(lit(15, 100), rest, 150_000_000, 1_000_000_000);
    let lost = lit::<Fixed>(15, 100).product(rest);
    assert(lost.units == rest.units * 15 / 100);
    let base = num::<Fixed>(1).difference(lost).greater(lit(7, 10));
    quotient_rounds_down(plr, base);
}

/// The averages of a component that cycles: fuel, heat, ground heat and flow by the part load, and
/// electricity by it too for fans and what burns fuel, but by the run time for a compressor. Nothing
/// else changes.
pub proof fn cycling_outputs_are_averaged<T: Scalar>(
    rule: ScalingRule<T>,
    outputs: Map<Seq<char>, T>,
    is_fan: bool,
    key: Seq<char>,
)
    requires
        !is_fan || rule.fan_mode == FanOperatingMode::Cycling,
        outputs.contains_key(key),
    ensures
        ({
            let r = loop_results::scaled_outputs(rule, outputs, is_fan);
            let burns = outputs.contains_key("fuel_power"@) && !outputs["fuel_power"@].same(
                num(0),
            );
            &&& r.contains_key(key)
            &&& key == "fuel_power"@ || key == "thermal_output"@ || key == "ground_heat_rate"@
                || key == "mass_flow"@ ==> r[key] == outputs[key].product(rule.plr)
            &&& key == "electric_power"@ && (is_fan || burns) ==> r[key] == outputs[key].product(
                rule.plr,
            )
            &&& key == "electric_power"@ && !is_fan && !burns ==> r[key] == outputs[key].product(
                loop_results::run_time_fraction(rule.plr),
            )
            &&& key != "fuel_power"@ && key != "thermal_output"@ && key != "ground_heat_rate"@
                && key != "mass_flow"@ && key != "electric_power"@ ==> r[key] == outputs[key]
        }),
{
    names_differ();
}

/// A fan that does not cycle keeps its outputs, unless it stops without load and there is none: then
/// it takes no power, gives no heat and moves no air.
pub proof fn steady_fan_keeps_its_outputs(
    rule: ScalingRule<Fixed>,
    outputs: Map<Seq<char>, Fixed>,
    key: Seq<char>,
)
    requires
        rule.fan_mode != FanOperatingMode::Cycling,
        rule.min_oa.units <= 1_000_000_000,
        outputs.contains_key(key),
    ensures
        ({
            let r = loop_results::scaled_outputs(rule, outputs, true);
            let stops = rule.fan_mode == FanOperatingMode::ContinuousNoLoadOff && rule.plr.units
                <= rule.min_oa.units + 1_000_000;
            let moving = key == "electric_power"@ || key == "thermal_output"@ || key
                == "mass_flow"@;
            &&& r.contains_key(key)
            &&& stops && moving && rule.min_oa.units > -1_000_000_000 ==> r[key].units == 0
            &&& !moving ==> r[key] == outputs[key]
            &&& !stops && rule.min_oa.units > -1_000_000_000 ==> r[key] == outputs[key]
        }),
{
    defaults_in_units();
    assert(lit::<Fixed>(1, 1000) == milli(1));
    names_differ();
}

/// At full load the results stay as they are; below it every component is averaged, as a fan if it
/// is one of the fans of the loop.
pub proof fn every_component_is_averaged(
    rule: ScalingRule<Fixed>,
    results: Map<Seq<char>, Map<Seq<char>, Fixed>>,
    fans: Seq<String>,
    name: Seq<char>,
)
    ensures
        ({
            let r = loop_results::scaled_results(rule, results, fans);
            let is_fan = exists|i: int| 0 <= i < fans.len() && (#[trigger] fans[i])@ == name;
            &&& rule.plr.units >= 1_000_000_000 ==> r == results
            &&& rule.plr.units < 1_000_000_000 ==> r.contains_key(name) == results.contains_key(
                name,
            ) && (results.contains_key(name) ==> r[name] == loop_results::scaled_outputs(
                rule,
                results[name],
                is_fan,
            ))
        }),
{
    defaults_in_units();
    assert(text::listed(fans, name) == exists|i: int|
        0 <= i < fans.len() && (#[trigger] fans[i])@ == name);
}

/// A continuous fan delivers its whole flow: at full load the supply air, at none the air of the
/// zone warmed by the fan, and in between a mix by the part load. Any other fan delivers the supply
/// air, with the flow by the part load.
pub proof fn fan_mode_sets_what_is_delivered(
    li: LoopInfo<Fixed>,
    z: ZoneData<Fixed>,
    supply: AirStream<Fixed>,
    plr: Fixed,
    rise: Fixed,
)
    requires
        li.served_zones@.len() > 0,
        0 <= plr.units <= 1_000_000_000,
        -1_000_000_000_000 <= supply.t_db.units <= 1_000_000_000_000,
        -1_000_000_000_000 <= rise.units <= 1_000_000_000_000,
        -1_000_000_000_000 <= temp_in(z, li.served_zones@[0]@) <= 1_000_000_000_000,
        0 <= supply.w.units <= 1_000_000_000_000,
        0 <= or_else(z.humidity_ratios@, li.served_zones@[0]@, milli(8)).units
            <= 1_000_000_000_000,
    ensures
        ({
            let r = loop_results::delivered(li, z, supply, plr, rise);
            let idle = temp_in(z, li.served_zones@[0]@) + rise.units;
            let moist = or_else(z.humidity_ratios@, li.served_zones@[0]@, milli(8)).units;
            let rest = 1_000_000_000 - plr.units;
            let exact = plr.units * supply.t_db.units + rest * idle;
            let exact_w = plr.units * supply.w.units + rest * moist;
            &&& li.fan_operating_mode == FanOperatingMode::Continuous ==> {
                &&& r.flow == supply.mass_flow
                &&& exact - 2_000_000_000 < 1_000_000_000 * r.temp.units <= exact
                &&& exact_w - 2_000_000_000 < 1_000_000_000 * r.w.units <= exact_w
            }
            &&& li.fan_operating_mode != FanOperatingMode::Continuous ==> {
                &&& r.temp == supply.t_db
                &&& r.w == supply.w
                &&& r.flow == supply.mass_flow.product(plr)
            }
        }),
{
    defaults_in_units();
    let zone = li.served_zones@[0]@;
    let rest = num::<Fixed>(1).difference(plr);
    let idle = or_else(z.temps@, zone, milli(21_000)).sum(rise);
    let moist = or_else(z.humidity_ratios@, zone, milli(8));
    product_rounds_down(plr, supply.t_db, 1_000_000_000, 1_000_000_000_000);
    product_rounds_down(rest, idle, 1_000_000_000, 2_000_000_000_000);
    product_rounds_down(plr, supply.w, 1_000_000_000, 1_000_000_000_000);
    product_rounds_down(rest, moist, 1_000_000_000, 1_000_000_000_000);
}

// ---------------------------------------------------------------------------
// Zones

/// A terminal box is asked to reheat a zone below its setpoint by its share of the reheat capacity,
/// to cool one above by how far the flow of the air handler is above the least flow, three tenths of
/// the full flow, and for nothing otherwise.
pub proof fn terminal_box_is_asked_for_its_zone(
    li: LoopInfo<Fixed>,
    z: ZoneData<Fixed>,
    zone: Seq<char>,
    zone_flows: Map<Seq<char>, Fixed>,
    reheat: Option<Fixed>,
    delivered_flow: Fixed,
)
    requires
        heat_to(z, zone) <= cool_to(z, zone),
    ensures
        ({
            let r = loop_results::terminal_demand(li, z, zone, zone_flows, reheat, delivered_flow);
            let t = or_else(z.initial_temps@, zone, milli(21_000)).units;
            let heat = or_else(z.heating_loads@, zone, milli(0));
            let copies = Fixed::whole(or_else(z.multipliers@, zone, 1u32) as nat);
            let cool = or_else(z.cooling_loads@, zone, milli(0)).product(copies).units;
            let capacity = match reheat {
                Some(c) => if c.units > 100_000_000_000 {
                    c
                } else {
                    milli(100_000)
                },
                None => milli(10_000_000),
            };
            let wanted = heat.quotient(capacity).units;
            let given = or_else(z.design_flows@, zone, milli(1_000));
            let full = if given.units > 10_000_000 {
                given
            } else {
                milli(10)
            };
            let low = full.product(milli(300));
            let range = full.difference(low);
            let open = or_else(zone_flows, zone, low).difference(low).quotient(
                if range.units > 1_000_000 {
                    range
                } else {
                    milli(1)
                },
            ).units;
            let (cold, warm) = (t < heat_to(z, zone), t > cool_to(z, zone));
            let signal = r.signal.units;
            &&& cold && heat.units > 0 ==> {
                &&& 0 <= signal <= 1_000_000_000
                &&& 0 <= wanted <= 1_000_000_000 ==> signal == wanted
                &&& wanted > 1_000_000_000 ==> signal == 1_000_000_000
            }
            &&& warm && cool > 0 ==> {
                &&& -1_000_000_000 <= signal <= 0
                &&& 0 <= open <= 1_000_000_000 ==> signal == -open
                &&& open > 1_000_000_000 ==> signal == -1_000_000_000
                &&& open < 0 ==> signal == 0
            }
            &&& (!cold || heat.units <= 0) && (!warm || cool <= 0) ==> signal == 0
            &&& z.design_flows@.contains_key(zone) ==> r.inlet_flow == z.design_flows@[zone]
            &&& !z.design_flows@.contains_key(zone) && li.served_zones@.len() > 0 ==> r.inlet_flow
                == delivered_flow.quotient(Fixed::whole(li.served_zones@.len()))
        }),
{
    defaults_in_units();
    assert(num::<Fixed>(10000) == milli(10_000_000));
    assert(lit::<Fixed>(3, 10) == milli(300));
    assert(lit::<Fixed>(1, 1000) == milli(1));
}

/// Without a terminal box a packaged unit or an outdoor air system gives each of its zones an equal
/// share of its air; a fan coil or terminal unit all of it; a VAV system what the zone asked for,
/// by the part load; and a dual-duct system what the zone asked for, at its own temperature. All of
/// it is as moist as the air of the loop.
pub proof fn zones_without_boxes_are_supplied_directly<T: Scalar>(
    li: LoopInfo<T>,
    zone: Seq<char>,
    flows: Map<Seq<char>, T>,
    temps: Map<Seq<char>, T>,
    air: Supply<T>,
    plr: T,
)
    requires
        li.served_zones@.len() > 0,
    ensures
        ({
            let r = loop_results::direct(li, zone, flows, temps, air, plr);
            let kind = li.system_type;
            let share = air.flow.quotient(T::whole(li.served_zones@.len()));
            let asked = or_else(flows, zone, share);
            &&& r.w == air.w
            &&& kind == AirLoopSystemType::PszAc || kind == AirLoopSystemType::Doas ==> r.flow
                == share && r.temp == air.temp
            &&& kind == AirLoopSystemType::Fcu || kind == AirLoopSystemType::Ptac || kind
                == AirLoopSystemType::Pthp ==> r.flow == air.flow && r.temp == air.temp
            &&& kind == AirLoopSystemType::Vav ==> r.flow == asked.product(plr) && r.temp
                == air.temp
            &&& kind == AirLoopSystemType::DualDuct ==> r.flow == asked && r.temp == or_else(
                temps,
                zone,
                air.temp,
            )
        }),
{
}

/// Each zone of a loop in turn is supplied by its terminal box, if it has one that runs, and else
/// directly; a box that does not run supplies nothing.
pub proof fn zones_are_supplied_in_turn<T: Scalar>(
    li: LoopInfo<T>,
    signals: ControlSignals<T>,
    air: Supply<T>,
    plr: T,
    terminals: Seq<Option<Supply<T>>>,
    n: nat,
)
    requires
        n < li.served_zones@.len(),
    ensures
        loop_results::zone_supplies(li, signals, air, plr, terminals, 0).len() == 0,
        ({
            let before = loop_results::zone_supplies(li, signals, air, plr, terminals, n);
            let after = loop_results::zone_supplies(li, signals, air, plr, terminals, n + 1);
            let zone = li.served_zones@[n as int]@;
            let boxed = li.terminal_boxes@.contains_key(zone);
            &&& boxed && terminals[n as int] is Some ==> after == before.push(
                (zone, terminals[n as int]->Some_0),
            )
            &&& boxed && terminals[n as int] is None ==> after == before
            &&& !boxed ==> after == before.push(
                (
                    zone,
                    loop_results::direct(
                        li,
                        zone,
                        signals.zone_air_flows@,
                        signals.zone_supply_temps@,
                        air,
                        plr,
                    ),
                ),
            )
        }),
{
}

/// A supply for a zone adds its flow, and its heat and moisture by the flow; supplies for other
/// zones add nothing.
pub proof fn supplies_add_up_for_their_zone<T: Scalar>(
    list: Seq<(Seq<char>, Supply<T>)>,
    zone: Seq<char>,
    n: nat,
)
    requires
        n < list.len(),
    ensures
        ({
            let (flow, heat, moisture) = loop_results::supply_sums(list, zone, n);
            let (flow1, heat1, moisture1) = loop_results::supply_sums(list, zone, n + 1);
            let s = list[n as int].1;
            &&& list[n as int].0 == zone ==> flow1 == plus(flow, s.flow) && heat1 == plus(
                heat,
                times(s.temp, s.flow),
            ) && moisture1 == plus(moisture, times(s.w, s.flow))
            &&& list[n as int].0 != zone ==> flow1 == flow && heat1 == heat && moisture1
                == moisture
        }),
{
}

/// A zone is supplied where some air flows to it: with all of the flow, at the heat and the moisture
/// that arrive over the flow.
pub proof fn zones_mix_what_arrives(list: Seq<(Seq<char>, Supply<Fixed>)>, zone: Seq<char>)
    ensures
        ({
            let (flow, heat, moisture) = loop_results::supply_sums(list, zone, list.len());
            let all = loop_results::mixed_supplies(list);
            let listed = exists|i: int| 0 <= i < list.len() && (#[trigger] list[i]).0 == zone;
            &&& all.contains_key(zone) <==> listed && flow.units > 0
            &&& all.contains_key(zone) ==> all[zone].flow == flow && all[zone].temp
                == heat.quotient(flow) && all[zone].w == moisture.quotient(flow)
        }),
{
    defaults_in_units();
}

/// The outcome of a step: the part load by the air supplied and the fan, and the air delivered at
/// that part load, if any was supplied.
pub proof fn outcome_follows_from_the_supply<T: Scalar>(
    results: Map<Seq<char>, Map<Seq<char>, T>>,
    li: LoopInfo<T>,
    z: ZoneData<T>,
    start: LoopStart<T>,
    run: LoopRun<T>,
)
    ensures
        ({
            let r = loop_step::outcome(results, li, z, start, run);
            let flow = match run.supply {
                Some(s) => s.mass_flow,
                None => num(0),
            };
            let rise = loop_results::fan_heat_rise(li, results, flow);
            &&& run.supply is None <==> r.air is None
            &&& r.plr == loop_results::part_load(
                li,
                z,
                start.modes@,
                run.signals.coil_setpoints@,
                run.supply,
                rise,
                start.min_oa,
            )
            &&& run.supply is Some ==> r.air->Some_0 == loop_results::delivered(
                li,
                z,
                run.supply->Some_0,
                r.plr,
                rise,
            )
        }),
{
}

} // verus!
