//! How air and water pass from component to component, how zones and systems settle with each
//! other, and what hot water, exterior equipment, panels and refrigerant systems take, on
//! fixed-point numbers where sizes matter.
use crate::air_loop::{ControlSignals, LoopInfo};
use crate::air_side::{AirStream, Supply};
use crate::chain;
use crate::chain::{ChainRun, Energy, WaterStream};
use crate::control;
use crate::control::{PlantResetConfig, SatResetConfig};
use crate::coupling;
use crate::coupling::{VrfSupply, ZoneLoads};
use crate::fixed::Fixed;
use crate::rounding::{product_rounds_down, quotient_rounds_down};
use crate::scalar::{lit, num, plus, Scalar};
use crate::services;
use crate::services::{
    ExteriorUse, HotWaterLoad, PanelSource, PanelState, VrfIndoorInput, WaterHeaterFuel,
};
use crate::signal_laws::{defaults_in_units, holds, milli, or_else};
use crate::text;
use vstd::prelude::*;

verus! {

// ---------------------------------------------------------------------------
// Components in an air stream

/// The control of a packaged unit, of a fan coil or of an air handler says with what temperature
/// air enters the loop, in this order; without any of them nothing is said.
pub proof fn control_sets_the_inlet_temperature<T: Scalar>(s: Map<Seq<char>, T>)
    ensures
        ({
            let r = chain::set_inlet_temp(s);
            let psz = s.contains_key("__pszac_mixed_air_temp__"@);
            let fcu = s.contains_key("__fcu_recirculation_temp__"@);
            let vav = s.contains_key("__vav_mixed_air_temp__"@);
            &&& psz ==> r == Some(s["__pszac_mixed_air_temp__"@])
            &&& !psz && fcu ==> r == Some(s["__fcu_recirculation_temp__"@])
            &&& !psz && !fcu && vav ==> r == Some(s["__vav_mixed_air_temp__"@])
            &&& !psz && !fcu && !vav ==> r is None
        }),
{
}

/// Air enters a loop as moist as the mix of outdoor and indoor air: all outdoor air where the loop
/// sets no fraction, and indoor air with a fraction of nothing. What the recovery unit left of the
/// outdoor moisture counts in place of it.
pub proof fn entering_air_is_as_moist_as_its_mix(
    s: Map<Seq<char>, Fixed>,
    outdoor_w: Fixed,
    indoor_w: Fixed,
)
    requires
        0 <= or_else(s, "__oa_fraction__"@, milli(1_000)).units <= 1_000_000_000,
        0 <= or_else(s, "__effective_oa_w__"@, outdoor_w).units <= 1_000_000_000,
        0 <= indoor_w.units <= 1_000_000_000,
    ensures
        ({
            let oa = or_else(s, "__oa_fraction__"@, milli(1_000)).units;
            let w = or_else(s, "__effective_oa_w__"@, outdoor_w).units;
            let r = chain::blended_humidity(s, outdoor_w, indoor_w).units;
            let exact = oa * w + (1_000_000_000 - oa) * indoor_w.units;
            &&& exact - 2_000_000_000 < 1_000_000_000 * r <= exact
            &&& !s.contains_key("__oa_fraction__"@) ==> r == w
        }),
{
    defaults_in_units();
    let oa = or_else(s, "__oa_fraction__"@, milli(1_000));
    let w = or_else(s, "__effective_oa_w__"@, outdoor_w);
    let rest = num::<Fixed>(1).difference(oa);
    product_rounds_down(oa, w, 1_000_000_000, 1_000_000_000);
    product_rounds_down(rest, indoor_w, 1_000_000_000, 1_000_000_000);
    if !s.contains_key("__oa_fraction__"@) {
        assert(oa.units * w.units == 1_000_000_000 * w.units) by (nonlinear_arith)
            requires
                oa.units == 1_000_000_000,
        ;
        assert(rest.units * indoor_w.units == 0) by (nonlinear_arith)
            requires
                rest.units == 0,
        ;
    }
}

/// A duct is outdoors, in ground at 18 C, or in a zone; one in a zone that is not known counts as
/// outdoors.
pub proof fn ducts_take_the_temperature_around_them(
    place: Seq<char>,
    zones: Map<Seq<char>, Fixed>,
    t_outdoor: Fixed,
)
    ensures
        chain::surroundings("outdoor"@, zones, t_outdoor) == t_outdoor,
        chain::surroundings("ground"@, zones, t_outdoor).units == 18_000_000_000,
        place != "outdoor"@ && place != "ground"@ && zones.contains_key(place)
            ==> chain::surroundings(place, zones, t_outdoor) == zones[place],
        place != "outdoor"@ && place != "ground"@ && !zones.contains_key(place)
            ==> chain::surroundings(place, zones, t_outdoor) == t_outdoor,
{
    reveal_strlit("outdoor");
    reveal_strlit("ground");
    assert("outdoor"@.len() == 7 && "ground"@.len() == 6);
    assert(num::<Fixed>(18).units == 18_000_000_000);
}

/// A component gets its own setpoint and flow, and else the flow, and always the state, of the air
/// that reaches it; that is what left the component before, or what entered the loop.
pub proof fn components_take_the_air_from_upstream<T: Scalar>(
    signals: ControlSignals<T>,
    name: Seq<char>,
    run: ChainRun<T>,
)
    ensures
        ({
            let up = chain::upstream_of(run);
            let c = chain::commanded(signals, name, up);
            &&& run.last_outlet is Some ==> up == run.last_outlet->Some_0
            &&& run.last_outlet is None ==> up == run.inlet
            &&& c.inlet.t_db == up.t_db && c.inlet.w == up.w && c.inlet.h == up.h
            &&& c.inlet.mass_flow == or_else(signals.air_mass_flows@, name, up.mass_flow)
            &&& signals.coil_setpoints@.contains_key(name) ==> c.setpoint == Some(
                signals.coil_setpoints@[name],
            )
            &&& !signals.coil_setpoints@.contains_key(name) ==> c.setpoint is None
        }),
{
}

/// The first predecessor that has a state gives it on; without one the default stands.
pub proof fn first_predecessor_counts<V>(states: Map<usize, V>, before: Seq<usize>, default: V)
    ensures
        ({
            let r = chain::from_first(states, before, default);
            let known = before.len() > 0 && states.contains_key(before[0]);
            &&& known ==> r == states[before[0]]
            &&& !known ==> r == default
        }),
{
}

proof fn report_names()
    ensures
        "outlet_temperature"@.len() == 18,
        "outlet_temp"@.len() == 11,
        "inlet_temperature"@.len() == 17,
        "outlet_humidity_ratio"@.len() == 21,
        "outlet_w"@.len() == 8,
        "inlet_humidity_ratio"@.len() == 20,
        "outlet_enthalpy"@.len() == 15,
        "inlet_enthalpy"@.len() == 14 && "inlet_enthalpy"@[0] == 'i',
        "mass_flow"@.len() == 9,
        "electric_power"@.len() == 14 && "electric_power"@[0] == 'e',
        "fuel_power"@.len() == 10,
        "thermal_output"@.len() == 14 && "thermal_output"@[0] == 't',
{
    reveal_strlit("outlet_temperature");
    reveal_strlit("outlet_temp");
    reveal_strlit("inlet_temperature");
    reveal_strlit("outlet_humidity_ratio");
    reveal_strlit("outlet_w");
    reveal_strlit("inlet_humidity_ratio");
    reveal_strlit("outlet_enthalpy");
    reveal_strlit("inlet_enthalpy");
    reveal_strlit("mass_flow");
    reveal_strlit("electric_power");
    reveal_strlit("fuel_power");
    reveal_strlit("thermal_output");
}

/// A component reports the air that enters and leaves it and the energy that it takes and gives,
/// each under its name, unless its own detailed outputs say otherwise.
pub proof fn components_report_their_air<T: Scalar>(
    inlet: AirStream<T>,
    outlet: AirStream<T>,
    e: Energy<T>,
    detailed: Map<Seq<char>, T>,
)
    ensures
        ({
            let r = chain::air_report(inlet, outlet, e, detailed);
            &&& r["outlet_temperature"@] == or_else(detailed, "outlet_temperature"@, outlet.t_db)
            &&& r["outlet_temp"@] == or_else(detailed, "outlet_temp"@, outlet.t_db)
            &&& r["outlet_humidity_ratio"@] == or_else(detailed, "outlet_humidity_ratio"@, outlet.w)
            &&& r["outlet_w"@] == or_else(detailed, "outlet_w"@, outlet.w)
            &&& r["mass_flow"@] == or_else(detailed, "mass_flow"@, outlet.mass_flow)
            &&& r["outlet_enthalpy"@] == or_else(detailed, "outlet_enthalpy"@, outlet.h)
            &&& r["inlet_temperature"@] == or_else(detailed, "inlet_temperature"@, inlet.t_db)
            &&& r["inlet_humidity_ratio"@] == or_else(detailed, "inlet_humidity_ratio"@, inlet.w)
            &&& r["inlet_enthalpy"@] == or_else(detailed, "inlet_enthalpy"@, inlet.h)
            &&& r["electric_power"@] == or_else(detailed, "electric_power"@, e.electric)
            &&& r["fuel_power"@] == or_else(detailed, "fuel_power"@, e.fuel)
            &&& r["thermal_output"@] == or_else(detailed, "thermal_output"@, e.thermal)
            &&& forall|key: Seq<char>| #[trigger]
                detailed.contains_key(key) ==> r.contains_key(key) && r[key] == detailed[key]
        }),
{
    report_names();
}

/// A plant component reports the water that leaves it and its energy, each under its name, unless
/// its own detailed outputs say otherwise.
pub proof fn plant_components_report_their_water<T: Scalar>(
    outlet: WaterStream<T>,
    e: Energy<T>,
    detailed: Map<Seq<char>, T>,
)
    ensures
        ({
            let r = chain::plant_report(outlet, e, detailed);
            &&& r["outlet_temperature"@] == or_else(detailed, "outlet_temperature"@, outlet.temp)
            &&& r["outlet_temp"@] == or_else(detailed, "outlet_temp"@, outlet.temp)
            &&& r["mass_flow"@] == or_else(detailed, "mass_flow"@, outlet.mass_flow)
            &&& r["electric_power"@] == or_else(detailed, "electric_power"@, e.electric)
            &&& r["fuel_power"@] == or_else(detailed, "fuel_power"@, e.fuel)
            &&& r["thermal_output"@] == or_else(detailed, "thermal_output"@, e.thermal)
        }),
{
    report_names();
}

// ---------------------------------------------------------------------------
// Zones and systems

/// Two supplies average to half of both flows; where air flows, the mean carries the heat and the
/// moisture of both, and where hardly any does, its state lies in the middle. All this but for
/// rounding, on flows that are even.
pub proof fn averages_carry_both_supplies(now: Supply<Fixed>, before: Supply<Fixed>)
    requires
        0 <= now.flow.units <= 1_000_000_000_000,
        0 <= before.flow.units <= 1_000_000_000_000,
        now.flow.units % 2 == 0,
        before.flow.units % 2 == 0,
        0 <= now.temp.units <= 1_000_000_000_000,
        0 <= before.temp.units <= 1_000_000_000_000,
        0 <= now.w.units <= 1_000_000_000,
        0 <= before.w.units <= 1_000_000_000,
    ensures
        ({
            let r = coupling::averaged(now, before);
            let f = now.flow.units + before.flow.units;
            let heat = now.flow.units * now.temp.units + before.flow.units * before.temp.units;
            let water = now.flow.units * now.w.units + before.flow.units * before.w.units;
            &&& 2 * r.flow.units == f
            &&& f > 2_000 ==> heat - f - 4_000_000_000 < f * r.temp.units <= heat
            &&& f > 2_000 ==> water - f - 4_000_000_000 < f * r.w.units <= water
            &&& f <= 2_000 ==> now.temp.units + before.temp.units - 2 <= 2 * r.temp.units
                <= now.temp.units + before.temp.units
            &&& f <= 2_000 ==> now.w.units + before.w.units - 2 <= 2 * r.w.units <= now.w.units
                + before.w.units
        }),
{
    defaults_in_units();
    assert(lit::<Fixed>(1, 1_000_000).units == 1000);
    let half: Fixed = milli(500);
    let (a, b) = (half.product(now.flow), half.product(before.flow));
    half_of(now.flow);
    half_of(before.flow);
    assert(2 * a.units == now.flow.units && 2 * b.units == before.flow.units);
    let flow = a.sum(b);
    if flow.units > 1000 {
        carried_by_two(a, b, now.temp, before.temp);
        carried_by_two(a, b, now.w, before.w);
        doubled_heat(a, b, now.flow, before.flow, now.temp, before.temp);
        doubled_heat(a, b, now.flow, before.flow, now.w, before.w);
        let r = coupling::averaged(now, before);
        let (f, g) = (now.flow.units + before.flow.units, a.units + b.units);
        let (t, w) = (r.temp.units as int, r.w.units as int);
        assert(f * t == 2 * (g * t) && f * w == 2 * (g * w)) by (nonlinear_arith)
            requires
                f == 2 * g,
        ;
    } else {
        half_of(now.temp);
        half_of(before.temp);
        half_of(now.w);
        half_of(before.w);
    }
}

proof fn half_of(x: Fixed)
    requires
        0 <= x.units <= 1_000_000_000_000,
    ensures
        milli(500).product(x).units == x.units / 2,
{
    product_rounds_down(milli(500), x, 500_000_000, 1_000_000_000_000);
    assert(milli(500).units * x.units == 500_000_000 * x.units) by (nonlinear_arith)
        requires
            milli(500).units == 500_000_000,
    ;
}

proof fn doubled_heat(a: Fixed, b: Fixed, fa: Fixed, fb: Fixed, s: Fixed, t: Fixed)
    requires
        2 * a.units == fa.units,
        2 * b.units == fb.units,
    ensures
        fa.units * s.units + fb.units * t.units == 2 * (a.units * s.units + b.units * t.units),
{
    assert(fa.units * s.units == 2 * (a.units * s.units)) by (nonlinear_arith)
        requires
            fa.units == 2 * a.units,
    ;
    assert(fb.units * t.units == 2 * (b.units * t.units)) by (nonlinear_arith)
        requires
            fb.units == 2 * b.units,
    ;
}

proof fn carried_by_two(a: Fixed, b: Fixed, s: Fixed, t: Fixed)
    requires
        0 <= a.units <= 1_000_000_000_000,
        0 <= b.units <= 1_000_000_000_000,
        a.units + b.units > 1000,
        0 <= s.units <= 1_000_000_000_000,
        0 <= t.units <= 1_000_000_000_000,
    ensures
        ({
            let q = a.product(s).sum(b.product(t)).quotient(a.sum(b)).units;
            let f = a.units + b.units;
            let exact = a.units * s.units + b.units * t.units;
            exact - f - 2_000_000_000 < f * q <= exact
        }),
{
    product_rounds_down(a, s, 1_000_000_000_000, 1_000_000_000_000);
    product_rounds_down(b, t, 1_000_000_000_000, 1_000_000_000_000);
    let (x, y) = (a.units * s.units, b.units * t.units);
    assert(0 <= x <= a.units * 1_000_000_000_000 && 0 <= y <= b.units * 1_000_000_000_000)
        by (nonlinear_arith)
        requires
            x == a.units * s.units,
            y == b.units * t.units,
            0 <= a.units,
            0 <= b.units,
            0 <= s.units <= 1_000_000_000_000,
            0 <= t.units <= 1_000_000_000_000,
    ;
    let heat = a.product(s).sum(b.product(t));
    let flow = a.sum(b);
    quotient_rounds_down(heat, flow);
    let q = heat.quotient(flow).units as int;
    assert(q * flow.units == flow.units * q) by (nonlinear_arith);
}

/// Every zone that is supplied now stays supplied: averaged where it was supplied before, and as it
/// is where it is new.
pub proof fn damping_averages_with_the_iteration_before<T: Scalar>(
    now: Map<Seq<char>, Supply<T>>,
    before: Map<Seq<char>, Supply<T>>,
    zone: Seq<char>,
)
    ensures
        ({
            let r = coupling::damped(now, before);
            &&& r.contains_key(zone) <==> now.contains_key(zone)
            &&& now.contains_key(zone) && before.contains_key(zone) ==> r[zone]
                == coupling::averaged(now[zone], before[zone])
            &&& now.contains_key(zone) && !before.contains_key(zone) ==> r[zone] == now[zone]
        }),
{
}

/// The largest change is no smaller than that of any zone that was there before, and nothing where
/// no zone changed.
pub proof fn largest_change_bounds_every_zone(
    now: Seq<(Seq<char>, Fixed)>,
    before: Map<Seq<char>, Fixed>,
    i: int,
)
    requires
        0 <= i < now.len(),
        -1_000_000_000_000 <= now[i].1.units <= 1_000_000_000_000,
        before.contains_key(now[i].0),
        -1_000_000_000_000 <= before[now[i].0].units <= 1_000_000_000_000,
    ensures
        ({
            let d = now[i].1.units - before[now[i].0].units;
            let r = coupling::largest_change(now, before).units;
            r >= d && r >= -d
        }),
    decreases now.len(),
{
    if i < now.len() - 1 {
        largest_change_bounds_every_zone(now.drop_last(), before, i);
    }
}

/// Without change there is none to find, and some zone has the largest one.
pub proof fn largest_change_is_some_zones_change(
    now: Seq<(Seq<char>, Fixed)>,
    before: Map<Seq<char>, Fixed>,
)
    requires
        forall|i: int|
            0 <= i < now.len() ==> {
                &&& -1_000_000_000_000 <= (#[trigger] now[i]).1.units <= 1_000_000_000_000
                &&& -1_000_000_000_000 <= or_else(before, now[i].0, now[i].1).units
                    <= 1_000_000_000_000
            },
    ensures
        ({
            let r = coupling::largest_change(now, before).units;
            ||| r == 0
            ||| exists|i: int|
                0 <= i < now.len() && before.contains_key((#[trigger] now[i]).0) && (r == now[i].1.units
                    - before[now[i].0].units || r == before[now[i].0].units - now[i].1.units)
        }),
    decreases now.len(),
{
    defaults_in_units();
    if now.len() > 0 {
        let rest = now.drop_last();
        assert forall|i: int| 0 <= i < rest.len() implies {
            &&& -1_000_000_000_000 <= (#[trigger] rest[i]).1.units <= 1_000_000_000_000
            &&& -1_000_000_000_000 <= or_else(before, rest[i].0, rest[i].1).units
                <= 1_000_000_000_000
        } by {
            assert(rest[i] == now[i]);
        }
        largest_change_is_some_zones_change(rest, before);
        let r = coupling::largest_change(rest, before).units;
        let last = now[now.len() - 1];
        if r != 0 {
            let i = choose|i: int|
                0 <= i < rest.len() && before.contains_key((#[trigger] rest[i]).0) && (r
                    == rest[i].1.units - before[rest[i].0].units || r == before[rest[i].0].units
                    - rest[i].1.units);
            assert(now[i] == rest[i]);
        }
    }
}

/// From one week to the next the largest change is no smaller than that of any zone.
pub proof fn weekly_change_bounds_every_zone(now: Seq<Fixed>, before: Seq<Fixed>, n: nat, i: int)
    requires
        0 <= i < n <= now.len(),
        n <= before.len(),
        -1_000_000_000_000 <= now[i].units <= 1_000_000_000_000,
        -1_000_000_000_000 <= before[i].units <= 1_000_000_000_000,
    ensures
        ({
            let d = now[i].units - before[i].units;
            let r = coupling::weekly_change(now, before, n).units;
            r >= d && r >= -d
        }),
        n == 1 ==> coupling::weekly_change(now, before, 1).units == (if now[0].units
            > before[0].units {
            now[0].units - before[0].units
        } else {
            before[0].units - now[0].units
        }),
    decreases n,
{
    defaults_in_units();
    if i < n - 1 {
        weekly_change_bounds_every_zone(now, before, (n - 1) as nat, i);
    }
    reveal_with_fuel(coupling::weekly_change, 2);
}

/// A zone keeps its supply unless it is known to be unconditioned.
pub proof fn unconditioned_zones_get_no_supply<T>(
    supplies: Map<Seq<char>, Supply<T>>,
    conditioned: Map<Seq<char>, bool>,
    zone: Seq<char>,
)
    ensures
        ({
            let r = coupling::conditioned_only(supplies, conditioned);
            let off = conditioned.contains_key(zone) && !conditioned[zone];
            &&& r.contains_key(zone) <==> supplies.contains_key(zone) && !off
            &&& r.contains_key(zone) ==> r[zone] == supplies[zone]
        }),
{
}

/// A refrigerant unit that moves air supplies its zone, in place of what was there; one that does
/// not changes nothing, and neither touches another zone.
pub proof fn running_units_supply_their_zone(
    supplies: Map<Seq<char>, Supply<Fixed>>,
    units: Seq<VrfSupply<Fixed>>,
    n: nat,
    other: Seq<char>,
)
    requires
        n < units.len(),
    ensures
        coupling::with_vrf(supplies, units, 0) == supplies,
        ({
            let before = coupling::with_vrf(supplies, units, n);
            let after = coupling::with_vrf(supplies, units, n + 1);
            let u = units[n as int];
            &&& u.supply.flow.units > 1 ==> after.contains_key(u.zone@) && after[u.zone@]
                == u.supply
            &&& u.supply.flow.units <= 1 ==> after == before
            &&& other != u.zone@ ==> after.contains_key(other) == before.contains_key(other) && (
            before.contains_key(other) ==> after[other] == before[other])
        }),
{
    assert(lit::<Fixed>(1, 1_000_000_000).units == 1);
}

/// The last loop of a zone says whether outdoor air is brought to it: where its least fraction is
/// more than a tenth of a percent.
pub proof fn last_loop_brings_outdoor_air(loops: Seq<LoopInfo<Fixed>>, n: nat, zone: Seq<char>)
    requires
        n < loops.len(),
    ensures
        coupling::outdoor_air_handled(loops, 0) == Map::<Seq<char>, bool>::empty(),
        ({
            let before = coupling::outdoor_air_handled(loops, n);
            let after = coupling::outdoor_air_handled(loops, n + 1);
            let li = loops[n as int];
            let own = exists|i: int|
                0 <= i < li.served_zones@.len() && (#[trigger] li.served_zones@[i])@ == zone;
            &&& own ==> after.contains_key(zone) && after[zone] == (li.min_oa_fraction.units
                > 1_000_000)
            &&& !own ==> after.contains_key(zone) == before.contains_key(zone) && (
            before.contains_key(zone) ==> after[zone] == before[zone])
        }),
{
    assert(lit::<Fixed>(1, 1000).units == 1_000_000);
    let li = loops[n as int];
    assert(text::listed(li.served_zones@, zone) == exists|i: int|
        0 <= i < li.served_zones@.len() && (#[trigger] li.served_zones@[i])@ == zone);
}

/// A conditioned zone brings its heating or its cooling load; one that is not brings none.
pub proof fn conditioned_zones_bring_their_loads<T>(
    loads: Map<Seq<char>, T>,
    zones: Seq<ZoneLoads<T>>,
    n: nat,
    other: Seq<char>,
)
    requires
        n < zones.len(),
    ensures
        ({
            let z = zones[n as int];
            let heat = coupling::with_loads(loads, zones, true, n + 1);
            let cool = coupling::with_loads(loads, zones, false, n + 1);
            let heat0 = coupling::with_loads(loads, zones, true, n);
            let cool0 = coupling::with_loads(loads, zones, false, n);
            &&& z.conditioned ==> heat.contains_key(z.name@) && heat[z.name@] == z.heating
            &&& z.conditioned ==> cool.contains_key(z.name@) && cool[z.name@] == z.cooling
            &&& !z.conditioned ==> heat == heat0 && cool == cool0
            &&& other != z.name@ ==> heat.contains_key(other) == heat0.contains_key(other) && (
            heat0.contains_key(other) ==> heat[other] == heat0[other])
            &&& other != z.name@ ==> cool.contains_key(other) == cool0.contains_key(other) && (
            cool0.contains_key(other) ==> cool[other] == cool0[other])
        }),
        coupling::with_loads(loads, zones, true, 0) == loads,
        coupling::with_loads(loads, zones, false, 0) == loads,
{
}

// ---------------------------------------------------------------------------
// Hot water

/// The fuel of a water heater goes by its name; any other name is gas.
pub proof fn water_heaters_burn_what_their_name_says(name: Seq<char>)
    ensures
        services::fuel_named("electric"@) == WaterHeaterFuel::Electric,
        services::fuel_named("Electric"@) == WaterHeaterFuel::Electric,
        services::fuel_named("heat_pump"@) == WaterHeaterFuel::HeatPump,
        services::fuel_named("HeatPump"@) == WaterHeaterFuel::HeatPump,
        services::fuel_named("hpwh"@) == WaterHeaterFuel::HeatPump,
        name != "electric"@ && name != "Electric"@ && name != "heat_pump"@ && name != "HeatPump"@
            && name != "hpwh"@ ==> services::fuel_named(name) == WaterHeaterFuel::Gas,
{
    reveal_strlit("electric");
    reveal_strlit("Electric");
    reveal_strlit("heat_pump");
    reveal_strlit("HeatPump");
    reveal_strlit("hpwh");
    assert("electric"@.len() == 8 && "Electric"@.len() == 8);
    assert("electric"@[0] == 'e' && "Electric"@[0] == 'E');
    assert("heat_pump"@.len() == 9 && "HeatPump"@.len() == 8 && "hpwh"@.len() == 4);
    assert("HeatPump"@[0] == 'H');
}

/// A fixture mixes hot water with mains water to its temperature: the share of hot water, times the
/// way from the mains to the tank, is the way from the mains to the fixture, but for rounding. It is
/// all hot where the fixture is as hot as the tank or the tank no warmer than the mains, and all
/// mains where that is warm enough.
pub proof fn hot_and_mains_water_mix_to_the_use(use_temp: Fixed, hot: Fixed, mains: Fixed)
    requires
        -1_000_000_000_000 <= use_temp.units <= 1_000_000_000_000,
        -1_000_000_000_000 <= hot.units <= 1_000_000_000_000,
        -1_000_000_000_000 <= mains.units <= 1_000_000_000_000,
    ensures
        ({
            let r = services::hot_share(use_temp, hot, mains).units;
            let way = hot.units - mains.units;
            let up = use_temp.units - mains.units;
            &&& way <= 0 ==> r == 1_000_000_000
            &&& way > 0 && up <= 0 ==> r == 0
            &&& way > 0 && up >= way ==> r == 1_000_000_000
            &&& way >= 1_000 && 0 <= up <= way ==> r * way <= 1_000_000_000 * up < r * way + way
        }),
{
    defaults_in_units();
    let way = hot.difference(mains);
    let up = use_temp.difference(mains);
    let (w, u) = (way.units as int, up.units as int);
    if w > 0 {
        let exact = u * 1_000_000_000;
        let q = exact / w;
        vstd::arithmetic::div_mod::lemma_fundamental_div_mod(exact, w);
        vstd::arithmetic::div_mod::lemma_mod_bound(exact, w);
        if u <= 0 {
            assert(q <= 0) by (nonlinear_arith)
                requires
                    w * q <= exact,
                    exact <= 0,
                    w > 0,
            ;
        }
        if u >= w {
            assert(q >= 1_000_000_000) by (nonlinear_arith)
                requires
                    exact < w * q + w,
                    exact >= 1_000_000_000 * w,
                    w > 0,
            ;
        }
        if 0 <= u <= w {
            assert(0 <= q <= 1_000_000_000) by (nonlinear_arith)
                requires
                    w * q <= exact < w * q + w,
                    0 <= exact <= 1_000_000_000 * w,
                    w > 0,
            ;
            assert(w * q == q * w) by (nonlinear_arith);
        }
    }
}

/// Each group draws its share of its peak flow, as far as it is hot water; its whole peak flow adds
/// to the peak, a thousandth of it in cubic metres.
pub proof fn groups_draw_hot_water<T: Scalar>(
    loads: Seq<HotWaterLoad<T>>,
    hot: T,
    mains: T,
    n: nat,
)
    requires
        n < loads.len(),
    ensures
        services::hot_water_drawn(loads, hot, mains, 0) == num::<T>(0),
        services::peak_flow(loads, 0) == num::<T>(0),
        services::peak_flow_m3(loads, 0) == num::<T>(0),
        ({
            let load = loads[n as int];
            &&& services::hot_water_drawn(loads, hot, mains, n + 1) == plus(
                services::hot_water_drawn(loads, hot, mains, n),
                load.peak_flow_rate.product(load.fraction).product(
                    services::hot_share(load.use_temperature, hot, mains),
                ),
            )
            &&& services::peak_flow(loads, n + 1) == plus(
                services::peak_flow(loads, n),
                load.peak_flow_rate,
            )
            &&& services::peak_flow_m3(loads, n + 1) == plus(
                services::peak_flow_m3(loads, n),
                load.peak_flow_rate.quotient(T::fraction(1000, 1)),
            )
        }),
{
}

// ---------------------------------------------------------------------------
// Exterior equipment and panels

/// Exterior equipment draws its power by its schedule; an astronomical clock switches it off while
/// the sun is up.
pub proof fn exterior_equipment_follows_schedule_and_sun(power: Fixed, fraction: Fixed)
    requires
        0 <= power.units <= 1_000_000_000_000_000,
        0 <= fraction.units <= 1_000_000_000,
    ensures
        services::exterior_watts(power, fraction, true, true).units == 0,
        services::exterior_watts(power, fraction, true, false) == power.product(fraction),
        services::exterior_watts(power, fraction, false, true) == power.product(fraction),
        services::exterior_watts(power, fraction, false, false) == power.product(fraction),
{
    defaults_in_units();
    product_rounds_down(power, fraction, 1_000_000_000_000_000, 1_000_000_000);
    assert(power.units * fraction.units >= 0) by (nonlinear_arith)
        requires
            power.units >= 0,
            fraction.units >= 0,
    ;
}

/// Exterior equipment counts as lighting by its category, else as fuel where it burns gas, and else
/// as equipment.
pub proof fn exterior_equipment_counts_by_its_use(category: Option<Seq<char>>, fuel: Seq<char>)
    ensures
        ({
            let r = services::use_by_category(category, fuel);
            let light = category is Some && holds(category->Some_0, "exterior light"@);
            &&& light ==> r == ExteriorUse::Lighting
            &&& !light && fuel == "natural_gas"@ ==> r == ExteriorUse::Fuel
            &&& !light && fuel != "natural_gas"@ ==> r == ExteriorUse::Equipment
        }),
{
    if category is Some {
        crate::signal_laws::holds_is_having_a_part(category->Some_0, "exterior light"@);
    }
}

/// Exterior equipment is metered where the model says; on the general meter its category counts, if
/// it has one.
pub proof fn exterior_equipment_has_a_meter(submeter: Seq<char>, category: Seq<char>)
    ensures
        submeter != "General"@ ==> services::exterior_meter(submeter, Some(category)) == submeter,
        submeter != "General"@ ==> services::exterior_meter(submeter, None) == submeter,
        services::exterior_meter("General"@, Some(category)) == category,
        services::exterior_meter("General"@, None) == "General"@,
{
}

/// A panel runs towards its setpoint: a chilled one above the cooling setpoint, any other below the
/// heating setpoint, in full from half a degree on and by the share of it before that.
pub proof fn panels_run_towards_their_setpoint(temp: Fixed, heat: Fixed, cool: Fixed)
    requires
        -1_000_000_000_000 <= temp.units <= 1_000_000_000_000,
        -1_000_000_000_000 <= heat.units <= 1_000_000_000_000,
        -1_000_000_000_000 <= cool.units <= 1_000_000_000_000,
    ensures
        ({
            let c = services::panel_share(PanelSource::ChilledWater, temp, heat, cool).units;
            let h = services::panel_share(PanelSource::HotWater, temp, heat, cool).units;
            let e = services::panel_share(PanelSource::Electric, temp, heat, cool).units;
            let (over, under) = (temp.units - cool.units, heat.units - temp.units);
            &&& over <= 0 ==> c == 0
            &&& 0 < over <= 500_000_000 ==> c == 2 * over
            &&& over >= 500_000_000 ==> c == 1_000_000_000
            &&& under <= 0 ==> h == 0
            &&& 0 < under <= 500_000_000 ==> h == 2 * under
            &&& under >= 500_000_000 ==> h == 1_000_000_000
            &&& e == h
        }),
{
    defaults_in_units();
    let half: Fixed = milli(500);
    let over = temp.difference(cool);
    let under = heat.difference(temp);
    if 0 < over.units <= 500_000_000 {
        let o = over.units as int;
        vstd::arithmetic::div_mod::lemma_fundamental_div_mod_converse(
            o * 1_000_000_000,
            500_000_000,
            2 * o,
            0,
        );
        assert(over.quotient(half).units == 2 * o);
    }
    if 0 < under.units <= 500_000_000 {
        let u = under.units as int;
        vstd::arithmetic::div_mod::lemma_fundamental_div_mod_converse(
            u * 1_000_000_000,
            500_000_000,
            2 * u,
            0,
        );
        assert(under.quotient(half).units == 2 * u);
    }
}

/// A panel that gives heat reports it as heating and one that takes heat as cooling, with its power,
/// its part load and the sizes of what it radiates and convects.
pub proof fn panels_report_heating_or_cooling(p: PanelState<Fixed>)
    requires
        p.thermal_output.units > i64::MIN,
        p.radiant_output.units > i64::MIN,
        p.convective_output.units > i64::MIN,
    ensures
        ({
            let r = services::panel_report(p);
            let size = |x: int|
                if x < 0 {
                    -x
                } else {
                    x
                };
            &&& r["radiant_panel_heating_rate"@].units - r["radiant_panel_cooling_rate"@].units
                == p.thermal_output.units
            &&& r["radiant_panel_heating_rate"@].units >= 0
            &&& r["radiant_panel_cooling_rate"@].units >= 0
            &&& r["radiant_panel_heating_rate"@].units == 0
                || r["radiant_panel_cooling_rate"@].units == 0
            &&& r["radiant_panel_electric_power"@] == p.power
            &&& r["radiant_panel_plr"@] == p.plr
            &&& r["radiant_output"@].units == size(p.radiant_output.units as int)
            &&& r["convective_output"@].units == size(p.convective_output.units as int)
        }),
{
    defaults_in_units();
    reveal_strlit("radiant_panel_heating_rate");
    reveal_strlit("radiant_panel_cooling_rate");
    reveal_strlit("radiant_panel_electric_power");
    reveal_strlit("radiant_panel_plr");
    reveal_strlit("radiant_output");
    reveal_strlit("convective_output");
    assert("radiant_panel_heating_rate"@.len() == 26 && "radiant_panel_heating_rate"@[14] == 'h');
    assert("radiant_panel_cooling_rate"@.len() == 26 && "radiant_panel_cooling_rate"@[14] == 'c');
    assert("radiant_panel_electric_power"@.len() == 28);
    assert("radiant_panel_plr"@.len() == 17 && "radiant_panel_plr"@[0] == 'r');
    assert("radiant_output"@.len() == 14);
    assert("convective_output"@.len() == 17 && "convective_output"@[0] == 'c');
}

// ---------------------------------------------------------------------------
// Refrigerant systems

/// A capacity that the model gives stands; one to be sized is the peak of the zone, or 3 kW, times
/// the factor, and in an indoor unit no less than 500 W.
pub proof fn units_are_sized_by_the_peak_of_their_zone(
    given: Fixed,
    peaks: Map<Seq<char>, Fixed>,
    zone: Seq<char>,
    factor: Fixed,
)
    ensures
        services::vrf_capacity(Some(given), peaks, zone, factor) == given,
        services::indoor_capacity(Some(given), peaks, zone, factor) == given,
        ({
            let sized = or_else(peaks, zone, milli(3_000_000)).product(factor);
            let indoor = services::indoor_capacity(None, peaks, zone, factor).units;
            &&& services::vrf_capacity(None, peaks, zone, factor) == sized
            &&& sized.units >= 500_000_000_000 ==> indoor == sized.units
            &&& sized.units < 500_000_000_000 ==> indoor == 500_000_000_000
        }),
{
    assert(num::<Fixed>(3000) == milli(3_000_000));
    assert(num::<Fixed>(500).units == 500_000_000_000);
}

/// An indoor unit has the capacities of its zone in both modes; its air flow, where it is to be
/// sized, is 0.05 l/s for every watt of the larger one, but for rounding.
pub proof fn indoor_units_move_air_for_their_capacity(
    unit: VrfIndoorInput<Fixed>,
    cooling_peaks: Map<Seq<char>, Fixed>,
    heating_peaks: Map<Seq<char>, Fixed>,
    cooling_factor: Fixed,
    heating_factor: Fixed,
)
    ensures
        ({
            let r = services::indoor_size(
                unit,
                cooling_peaks,
                heating_peaks,
                cooling_factor,
                heating_factor,
            );
            let larger = if r.cooling.units > r.heating.units {
                r.cooling.units
            } else {
                r.heating.units
            };
            &&& r.cooling == services::indoor_capacity(
                unit.cooling_capacity,
                cooling_peaks,
                unit.zone@,
                cooling_factor,
            )
            &&& r.heating == services::indoor_capacity(
                unit.heating_capacity,
                heating_peaks,
                unit.zone@,
                heating_factor,
            )
            &&& unit.airflow is Some ==> r.airflow == unit.airflow->Some_0
            &&& unit.airflow is None ==> 20_000 * r.airflow.units <= larger < 20_000
                * r.airflow.units + 20_000
        }),
{
    assert(lit::<Fixed>(5, 100_000).units == 50_000);
    let r = services::indoor_size(
        unit,
        cooling_peaks,
        heating_peaks,
        cooling_factor,
        heating_factor,
    );
    product_rounds_down(r.cooling.greater(r.heating), lit(5, 100_000), 9_300_000_000_000_000_000, 50_000);
}

/// The capacities of the indoor units add up, each as given or by the peak of its zone.
pub proof fn indoor_units_add_up<T: Scalar>(
    units: Seq<VrfIndoorInput<T>>,
    peaks: Map<Seq<char>, T>,
    factor: T,
    n: nat,
)
    requires
        n < units.len(),
    ensures
        services::indoor_cooling_total(units, peaks, factor, 0) == num::<T>(0),
        services::indoor_heating_total(units, peaks, factor, 0) == num::<T>(0),
        ({
            let u = units[n as int];
            &&& services::indoor_cooling_total(units, peaks, factor, n + 1) == plus(
                services::indoor_cooling_total(units, peaks, factor, n),
                services::vrf_capacity(u.cooling_capacity, peaks, u.zone@, factor),
            )
            &&& services::indoor_heating_total(units, peaks, factor, n + 1) == plus(
                services::indoor_heating_total(units, peaks, factor, n),
                services::vrf_capacity(u.heating_capacity, peaks, u.zone@, factor),
            )
        }),
{
}

// ---------------------------------------------------------------------------
// Resets

/// By demand the cooling supply goes one step down while a zone is loaded to 95 %, and one step up
/// otherwise; the heating supply the other way; both within their limits.
pub proof fn demand_moves_the_supply_one_step(
    low: Fixed,
    high: Fixed,
    step: Fixed,
    t_outdoor: Fixed,
    current: Fixed,
    loads: Seq<Fixed>,
)
    requires
        -1_000_000_000_000 <= current.units <= 1_000_000_000_000,
        0 <= step.units <= 1_000_000_000_000,
    ensures
        ({
            let reset = SatResetConfig::DemandReset { sat_min: low, sat_max: high, step };
            let c = control::cooling_reset(reset, t_outdoor, current, loads).units;
            let h = control::heating_reset(reset, t_outdoor, current, loads).units;
            let loaded = exists|i: int|
                0 <= i < loads.len() && (#[trigger] loads[i]).units >= 950_000_000;
            let (down, up) = (current.units - step.units, current.units + step.units);
            let lower = if down > low.units {
                down
            } else {
                low.units as int
            };
            let higher = if up < high.units {
                up
            } else {
                high.units as int
            };
            &&& loaded ==> c == lower && h == higher
            &&& !loaded ==> c == higher && h == lower
        }),
{
    assert(lit::<Fixed>(95, 100).units == 950_000_000);
    largest_load(loads, loads.len());
}

proof fn largest_load(loads: Seq<Fixed>, n: nat)
    requires
        n <= loads.len(),
    ensures
        control::largest_value(loads, n).units >= 950_000_000 <==> exists|i: int|
            0 <= i < n && (#[trigger] loads[i]).units >= 950_000_000,
    decreases n,
{
    defaults_in_units();
    if n > 0 {
        largest_load(loads, (n - 1) as nat);
        let last = loads[n - 1];
        if control::largest_value(loads, (n - 1) as nat).units >= 950_000_000 {
            let i = choose|i: int| 0 <= i < n - 1 && (#[trigger] loads[i]).units >= 950_000_000;
            assert(loads[i].units >= 950_000_000);
        }
    }
}

/// A share of a way that is nothing or all of it.
proof fn share_ends(t: Fixed, low: Fixed, high: Fixed)
    requires
        -1_000_000_000_000 <= t.units <= 1_000_000_000_000,
        -1_000_000_000_000 <= low.units < high.units <= 1_000_000_000_000,
    ensures
        ({
            let r = control::reset_share(t, low, high).units;
            let way = high.units - low.units;
            let up = t.units - low.units;
            &&& 0 <= r <= 1_000_000_000
            &&& up <= 0 ==> r == 0
            &&& up >= way ==> r == 1_000_000_000
            &&& 0 <= up <= way ==> r * way <= 1_000_000_000 * up < r * way + way
        }),
{
    defaults_in_units();
    let w = high.units - low.units;
    let u = t.units - low.units;
    let exact = u * 1_000_000_000;
    let q = exact / w;
    vstd::arithmetic::div_mod::lemma_fundamental_div_mod(exact, w);
    vstd::arithmetic::div_mod::lemma_mod_bound(exact, w);
    if u <= 0 {
        assert(q <= 0) by (nonlinear_arith)
            requires
                w * q <= exact,
                exact <= 0,
                w > 0,
        ;
    }
    if u >= w {
        assert(q >= 1_000_000_000) by (nonlinear_arith)
            requires
                exact < w * q + w,
                exact >= 1_000_000_000 * w,
                w > 0,
        ;
    }
    if 0 <= u <= w {
        assert(0 <= q <= 1_000_000_000) by (nonlinear_arith)
            requires
                w * q <= exact < w * q + w,
                0 <= exact <= 1_000_000_000 * w,
                w > 0,
        ;
        assert(w * q == q * w) by (nonlinear_arith);
    }
}

/// Between two outdoor temperatures a reset is linear: from its highest value at the lower one and
/// below to its lowest value at the higher one and above, and in between in proportion, but for
/// rounding. Cooling, heating and plant resets agree on that.
pub proof fn weather_resets_are_linear(
    low: Fixed,
    high: Fixed,
    oa_low: Fixed,
    oa_high: Fixed,
    t: Fixed,
    current: Fixed,
    loads: Seq<Fixed>,
)
    requires
        -1_000_000_000_000 <= low.units <= high.units <= 1_000_000_000_000,
        -1_000_000_000_000 <= oa_low.units < oa_high.units <= 1_000_000_000_000,
        -1_000_000_000_000 <= t.units <= 1_000_000_000_000,
    ensures
        ({
            let reset = SatResetConfig::OaReset { sat_min: low, sat_max: high, oa_low, oa_high };
            let plant = PlantResetConfig::OaReset { sp_min: low, sp_max: high, oa_low, oa_high };
            let c = control::cooling_reset(reset, t, current, loads).units;
            let h = control::heating_reset(reset, t, current, loads).units;
            let p = control::plant_reset(plant, t).units;
            let way = oa_high.units - oa_low.units;
            let up = t.units - oa_low.units;
            let span = high.units - low.units;
            let slack = way * 2 + 2_000 * span;
            &&& p == c
            &&& up <= 0 ==> c == high.units && h == high.units
            &&& up >= way ==> c == low.units && h == low.units
            &&& 0 <= up <= way ==> {
                &&& way * span - up * span - slack <= way * (c - low.units) <= way * span - up * span
                    + slack
                &&& up * span - slack <= way * (high.units - h) <= up * span + slack
            }
        }),
{
    defaults_in_units();
    share_ends(t, oa_low, oa_high);
    let share = control::reset_share(t, oa_low, oa_high);
    let rest = num::<Fixed>(1).difference(share);
    let span = high.difference(low);
    product_rounds_down(rest, span, 1_000_000_000, 2_000_000_000_000);
    product_rounds_down(share, span, 1_000_000_000, 2_000_000_000_000);
    let (r, s) = (share.units as int, span.units as int);
    let way = oa_high.units - oa_low.units;
    let up = t.units - oa_low.units;
    let (x, y) = (rest.units * span.units, share.units * span.units);
    assert(x == 1_000_000_000 * s - r * s) by (nonlinear_arith)
        requires
            x == rest.units * span.units,
            rest.units == 1_000_000_000 - r,
            span.units == s,
    ;
    if r == 0 {
        assert(r * s == 0) by (nonlinear_arith)
            requires
                r == 0,
        ;
    }
    if r == 1_000_000_000 {
        assert(r * s == 1_000_000_000 * s) by (nonlinear_arith)
            requires
                r == 1_000_000_000,
        ;
    }
    if 0 <= up <= way {
        let a = rest.product(span).units as int;
        let b = share.product(span).units as int;
        // way * share is up, and share * span is what the reset moves by.
        assert(1_000_000_000 * (up * s) - way * s <= way * (r * s) <= 1_000_000_000 * (up * s))
            by (nonlinear_arith)
            requires
                r * way <= 1_000_000_000 * up < r * way + way,
                s >= 0,
        ;
        assert(way * (1_000_000_000 * b) <= way * (r * s) <= way * (1_000_000_000 * b)
            + 1_000_000_000 * way) by (nonlinear_arith)
            requires
                1_000_000_000 * b <= r * s < 1_000_000_000 * b + 1_000_000_000,
                way > 0,
        ;
        assert(way * (1_000_000_000 * b) == 1_000_000_000 * (way * b)) by (nonlinear_arith);
        assert(way * (1_000_000_000 * a) <= way * x <= way * (1_000_000_000 * a) + 1_000_000_000
            * way) by (nonlinear_arith)
            requires
                1_000_000_000 * a <= x < 1_000_000_000 * a + 1_000_000_000,
                way > 0,
        ;
        assert(way * (1_000_000_000 * a) == 1_000_000_000 * (way * a)) by (nonlinear_arith);
        assert(way * x == 1_000_000_000 * (way * s) - way * (r * s)) by (nonlinear_arith)
            requires
                x == 1_000_000_000 * s - r * s,
        ;
        assert(way * s >= 0) by (nonlinear_arith)
            requires
                way > 0,
                s >= 0,
        ;
        assert(way * s <= 2_000_000_000_000 * s) by (nonlinear_arith)
            requires
                way <= 2_000_000_000_000,
                s >= 0,
        ;
    }
}

} // verus!
