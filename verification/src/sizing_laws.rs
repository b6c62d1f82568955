//! How a model is read, sized and reported: loops and their boxes, flows and capacities, design days,
//! schedules and what zones gain, on fixed-point numbers where sizes matter.
use crate::air_loop::{AirLoopSystemType, LoopInfo};
use crate::air_side;
use crate::calendar;
use crate::control;
use crate::control::EconomizerType;
use crate::fixed::Fixed;
use crate::model;
use crate::model::{
    AirLoopInput, EquipmentInput, EquipmentKind, PeopleInput, PlantEquipmentInput,
    PlantEquipmentKind, PlantLoopInput, TerminalKind, ZoneConnection, ZoneInput,
};
use crate::rounding::{product_rounds_down, quotient_rounds_down, whole_product_is_exact};
use crate::scalar::{lit, num, plus, times, Scalar};
use crate::setup;
use crate::setup::{FixedSetpoint, Thermostat};
use crate::signal_laws::{
    begins, defaults_in_units, holds, holds_is_having_a_part, milli, or_else, says_cooling,
};
use crate::sizing;
use crate::sizing::{CapacitySize, DesignDay, LoopSize, SizingFactors, ZonePeaks};
use crate::table::Table;
use crate::text;
use crate::zone_report;
use crate::zone_report::{SurfaceState, SurfaceTemp, ZoneAir};
use crate::zones;
use vstd::prelude::*;

verus! {

// ---------------------------------------------------------------------------
// Supply temperatures and flows

/// Sizing takes the hottest heating supply and the coldest cooling supply of all loops: no loop goes
/// beyond them.
pub proof fn extreme_supplies_bound_every_loop(loops: Seq<AirLoopInput<Fixed>>, n: nat, i: int)
    requires
        0 <= i < n <= loops.len(),
    ensures
        sizing::coldest_supply(loops, n).units <= loops[i].cooling_supply_temp.units,
        sizing::hottest_supply(loops, n).units >= loops[i].heating_supply_temp.units,
    decreases n,
{
    if i < n - 1 {
        extreme_supplies_bound_every_loop(loops, (n - 1) as nat, i);
    }
}

/// The extremes are the supplies of some loop.
pub proof fn extreme_supplies_are_some_loops(loops: Seq<AirLoopInput<Fixed>>, n: nat)
    requires
        0 < n <= loops.len(),
        forall|i: int| 0 <= i < n ==> (#[trigger] loops[i]).heating_supply_temp.units > i64::MIN,
    ensures
        exists|i: int|
            0 <= i < n && (#[trigger] loops[i]).cooling_supply_temp.units == sizing::coldest_supply(
                loops,
                n,
            ).units,
        exists|i: int|
            0 <= i < n && (#[trigger] loops[i]).heating_supply_temp.units == sizing::hottest_supply(
                loops,
                n,
            ).units,
    decreases n,
{
    let last = loops[n - 1];
    if n > 1 {
        extreme_supplies_are_some_loops(loops, (n - 1) as nat);
    } else {
        reveal_with_fuel(sizing::coldest_supply, 2);
        reveal_with_fuel(sizing::hottest_supply, 2);
        assert(sizing::coldest_supply(loops, 1) == last.cooling_supply_temp);
        assert(sizing::hottest_supply(loops, 1) == last.heating_supply_temp);
    }
}

/// Zones of variable-volume and dual-duct loops get the cooling factor on their flow, and other zones
/// do not.
pub proof fn shared_loops_take_the_factor<T: Scalar>(
    loops: Seq<LoopInfo<T>>,
    factor: T,
    airflow: Map<Seq<char>, T>,
    zone: Seq<char>,
)
    ensures
        ({
            let r = sizing::sized_flows(loops, factor, airflow);
            let shared = exists|i: int|
                0 <= i < loops.len() && ((#[trigger] loops[i]).system_type
                    == AirLoopSystemType::Vav || loops[i].system_type
                    == AirLoopSystemType::DualDuct) && text::listed(loops[i].served_zones@, zone);
            &&& r.contains_key(zone) <==> airflow.contains_key(zone)
            &&& airflow.contains_key(zone) && shared ==> r[zone] == times(airflow[zone], factor)
            &&& airflow.contains_key(zone) && !shared ==> r[zone] == airflow[zone]
        }),
{
}

/// A zone with a cooling peak needs the flow that carries it, with the factor, from the supply to its
/// setpoint, 24 C where it has none, over 5 K at least, with 1005 J/(kg K), but for rounding. A zone
/// without keeps its flow, 0.01 kg/s where it has none.
pub proof fn own_flow_carries_the_peak(
    flows: Map<Seq<char>, Fixed>,
    zone: Seq<char>,
    supply: Fixed,
    cool_sp: Map<Seq<char>, Fixed>,
    peaks: Map<Seq<char>, Fixed>,
    factor: Fixed,
)
    requires
        -1_000_000_000_000 <= supply.units <= 1_000_000_000_000,
        -1_000_000_000_000 <= or_else(cool_sp, zone, milli(24_000)).units <= 1_000_000_000_000,
        or_else(peaks, zone, milli(0)).product(factor).units <= 1_000_000_000_000_000_000,
    ensures
        ({
            let r = sizing::own_flow(flows, zone, supply, cool_sp, peaks, factor).units;
            let load = or_else(peaks, zone, milli(0)).product(factor).units;
            let way = or_else(cool_sp, zone, milli(24_000)).units - supply.units;
            let lift = if way > 5_000_000_000 {
                way
            } else {
                5_000_000_000
            };
            &&& load <= 0 ==> r == or_else(flows, zone, milli(10)).units
            &&& load > 0 ==> r * (1005 * lift) <= 1_000_000_000 * load < (r + 1) * (1005 * lift)
        }),
{
    defaults_in_units();
    assert(num::<Fixed>(1005).units == 1_005_000_000_000);
    let load = or_else(peaks, zone, milli(0)).product(factor);
    let lift = or_else(cool_sp, zone, milli(24_000)).difference(supply).greater(num(5));
    whole_product_is_exact(lift, 1005, num(1005));
    let cap = num::<Fixed>(1005).product(lift);
    if load.units > 0 {
        quotient_rounds_down(load, cap);
        let q = load.quotient(cap).units as int;
        let c = cap.units as int;
        assert((q + 1) * c == q * c + c) by (nonlinear_arith);
    }
}

/// Looking at a zone never lowers its flow: it is raised to what the zone needs where that is more,
/// and no other zone changes.
pub proof fn flows_are_only_raised(
    flows: Map<Seq<char>, Fixed>,
    zone: Seq<char>,
    supply: Fixed,
    cool_sp: Map<Seq<char>, Fixed>,
    peaks: Map<Seq<char>, Fixed>,
    factor: Fixed,
    other: Seq<char>,
)
    ensures
        ({
            let r = sizing::raised_flow(flows, zone, supply, cool_sp, peaks, factor);
            let own = sizing::own_flow(flows, zone, supply, cool_sp, peaks, factor);
            let now = or_else(flows, zone, milli(10));
            &&& own.units > now.units ==> r.contains_key(zone) && r[zone] == own
            &&& own.units <= now.units ==> r == flows
            &&& other != zone ==> r.contains_key(other) == flows.contains_key(other) && (
            flows.contains_key(other) ==> r[other] == flows[other])
        }),
{
    defaults_in_units();
}

/// Every zone of a loop in turn is looked at, if the supply of the loop is more than half a degree off
/// the common one, and else none of them is.
pub proof fn loops_off_the_common_supply_are_looked_at(
    flows: Map<Seq<char>, Fixed>,
    loops: Seq<LoopInfo<Fixed>>,
    common: Fixed,
    cool_sp: Map<Seq<char>, Fixed>,
    peaks: Map<Seq<char>, Fixed>,
    factor: Fixed,
    n: nat,
)
    requires
        n < loops.len(),
        -1_000_000_000_000 <= common.units <= 1_000_000_000_000,
        -1_000_000_000_000 <= loops[n as int].cooling_supply_temp.units <= 1_000_000_000_000,
    ensures
        sizing::raised_for_loops(flows, loops, common, cool_sp, peaks, factor, 0) == flows,
        ({
            let before = sizing::raised_for_loops(flows, loops, common, cool_sp, peaks, factor, n);
            let after = sizing::raised_for_loops(
                flows,
                loops,
                common,
                cool_sp,
                peaks,
                factor,
                n + 1,
            );
            let li = loops[n as int];
            let off = li.cooling_supply_temp.units - common.units;
            &&& -500_000_000 <= off <= 500_000_000 ==> after == before
            &&& off > 500_000_000 || off < -500_000_000 ==> after == sizing::raised_for_zones(
                before,
                li.served_zones@,
                li.cooling_supply_temp,
                cool_sp,
                peaks,
                factor,
                li.served_zones@.len(),
            )
        }),
{
    defaults_in_units();
}

/// The zones of a list are looked at one after the other.
pub proof fn zones_are_looked_at_in_turn<T: Scalar>(
    flows: Map<Seq<char>, T>,
    served: Seq<String>,
    supply: T,
    cool_sp: Map<Seq<char>, T>,
    peaks: Map<Seq<char>, T>,
    factor: T,
    n: nat,
)
    requires
        n < served.len(),
    ensures
        sizing::raised_for_zones(flows, served, supply, cool_sp, peaks, factor, 0) == flows,
        sizing::raised_for_zones(flows, served, supply, cool_sp, peaks, factor, n + 1)
            == sizing::raised_flow(
            sizing::raised_for_zones(flows, served, supply, cool_sp, peaks, factor, n),
            served[n as int]@,
            supply,
            cool_sp,
            peaks,
            factor,
        ),
{
}

// ---------------------------------------------------------------------------
// Design days

/// A day counts for heating where its type, in lower case, speaks of heat or winter, and for cooling
/// where it speaks of cool or summer: the coldest of the first and the warmest of the second are kept.
pub proof fn design_days_set_the_extremes(days: Seq<DesignDay<Fixed>>, n: nat)
    requires
        n < days.len(),
    ensures
        ({
            let before = sizing::extremes(days, n);
            let after = sizing::extremes(days, n + 1);
            let kind = text::lowercase(days[n as int].day_type@);
            let t = days[n as int].design_temp.units;
            let heats = holds(kind, "heat"@) || holds(kind, "winter"@);
            let cools = holds(kind, "cool"@) || holds(kind, "summer"@);
            &&& heats && t < before.winter.units ==> after.winter.units == t
            &&& !heats || t >= before.winter.units ==> after.winter.units == before.winter.units
            &&& cools && t > before.summer.units ==> after.summer.units == t
            &&& !cools || t <= before.summer.units ==> after.summer.units == before.summer.units
        }),
{
    let kind = text::lowercase(days[n as int].day_type@);
    holds_is_having_a_part(kind, "heat"@);
    holds_is_having_a_part(kind, "winter"@);
    holds_is_having_a_part(kind, "cool"@);
    holds_is_having_a_part(kind, "summer"@);
}

/// Without a design day of a kind the site has -20 C in winter and 35 C in summer; with one it has the
/// extreme of them.
pub proof fn site_has_design_temperatures(days: Seq<DesignDay<Fixed>>)
    ensures
        ({
            let site = sizing::site_design(days);
            let e = sizing::extremes(days, days.len());
            &&& e.winter.finite() ==> site.winter == e.winter
            &&& !e.winter.finite() ==> site.winter.units == -20_000_000_000
            &&& e.summer.finite() ==> site.summer == e.summer
            &&& !e.summer.finite() ==> site.summer.units == 35_000_000_000
            &&& !sizing::extremes(days, 0).winter.finite()
            &&& !sizing::extremes(days, 0).summer.finite()
            &&& site.density == sizing::site_density(days)
        }),
{
    assert(num::<Fixed>(20).units == 20_000_000_000);
    assert(num::<Fixed>(35).units == 35_000_000_000);
}

/// The density of air at a site, times 287.042 J/(kg K) and 293.15 K, is the pressure of its first
/// design day, or 101325 Pa without one, but for rounding.
pub proof fn site_density_is_that_of_an_ideal_gas(days: Seq<DesignDay<Fixed>>)
    requires
        days.len() > 0 ==> 0 <= days[0].pressure.units <= 1_000_000_000_000_000_000,
    ensures
        ({
            let p = if days.len() > 0 {
                days[0].pressure.units as int
            } else {
                101_325_000_000_000
            };
            let d = sizing::site_density(days).units;
            d * 84_146_362_300_000 <= 1_000_000_000 * p < (d + 1) * 84_146_362_300_000
        }),
{
    assert(lit::<Fixed>(287042, 1000).units == 287_042_000_000);
    assert(lit::<Fixed>(29315, 100).units == 293_150_000_000);
    assert(num::<Fixed>(101325).units == 101_325_000_000_000);
    let base = lit::<Fixed>(287042, 1000).product(lit(29315, 100));
    assert(287_042_000_000 * 293_150_000_000 == 84_146_362_300_000 * 1_000_000_000);
    assert(base.units == 84_146_362_300_000);
    let p = if days.len() > 0 {
        days[0].pressure
    } else {
        num(101325)
    };
    quotient_rounds_down(p, base);
}

// ---------------------------------------------------------------------------
// Loops

/// Packaged, variable-volume and dual-duct loops are sized for the flows and the peaks of their zones
/// with the factors.
pub proof fn zone_peaks_size_a_loop<T: Scalar>(
    li: LoopInfo<T>,
    peaks: ZonePeaks<T>,
    site: sizing::SiteDesign<T>,
    factors: SizingFactors<T>,
)
    requires
        li.system_type == AirLoopSystemType::PszAc || li.system_type == AirLoopSystemType::Vav
            || li.system_type == AirLoopSystemType::DualDuct,
    ensures
        ({
            let r = sizing::loop_size(li, peaks, site, factors);
            let n = li.served_zones@.len();
            &&& r.flow == zones::zone_total(
                li.served_zones@,
                peaks.airflow@,
                T::fraction(1, 10),
                n,
            ).quotient(site.density)
            &&& r.heating == zones::zone_total(
                li.served_zones@,
                peaks.heating@,
                T::fraction(0, 1),
                n,
            ).product(factors.heating)
            &&& r.cooling == zones::zone_total(
                li.served_zones@,
                peaks.cooling@,
                T::fraction(0, 1),
                n,
            ).product(factors.cooling)
        }),
{
}

/// An outdoor air system is sized for three tenths of the flows of its zones, heated from the winter
/// temperature to 20 C and cooled from the summer temperature to 18 C, with 1005 J/(kg K); where the
/// weather needs none, it has none.
pub proof fn weather_sizes_an_outdoor_air_system(
    li: LoopInfo<Fixed>,
    peaks: ZonePeaks<Fixed>,
    site: sizing::SiteDesign<Fixed>,
    factors: SizingFactors<Fixed>,
)
    requires
        li.system_type == AirLoopSystemType::Doas,
        -1_000_000_000_000 <= site.winter.units <= 1_000_000_000_000,
        -1_000_000_000_000 <= site.summer.units <= 1_000_000_000_000,
        0 <= zones::zone_total(
            li.served_zones@,
            peaks.airflow@,
            milli(100),
            li.served_zones@.len(),
        ).units <= 1_000_000_000_000,
    ensures
        ({
            let r = sizing::loop_size(li, peaks, site, factors);
            let oa = zones::zone_total(
                li.served_zones@,
                peaks.airflow@,
                milli(100),
                li.served_zones@.len(),
            ).product(milli(300));
            let stream = Fixed { units: (1005 * oa.units) as i64 };
            let up = 20_000_000_000 - site.winter.units;
            let down = site.summer.units - 18_000_000_000;
            &&& r.flow == oa.quotient(site.density)
            &&& up > 0 ==> r.heating == stream.product(Fixed { units: up as i64 }).product(
                factors.heating,
            )
            &&& up <= 0 ==> r.heating.units == 0
            &&& down > 0 ==> r.cooling == stream.product(Fixed { units: down as i64 }).product(
                factors.cooling,
            )
            &&& down <= 0 ==> r.cooling.units == 0
        }),
{
    defaults_in_units();
    assert(num::<Fixed>(20).units == 20_000_000_000);
    assert(num::<Fixed>(18).units == 18_000_000_000);
    assert(num::<Fixed>(1005).units == 1_005_000_000_000);
    let all = zones::zone_total(
        li.served_zones@,
        peaks.airflow@,
        milli(100),
        li.served_zones@.len(),
    );
    product_rounds_down(all, milli(300), 1_000_000_000_000, 300_000_000);
    assert(all.units * 300_000_000 >= 0);
    let oa = all.product(milli(300));
    whole_product_is_exact(oa, 1005, num(1005));
    let stream = oa.product(num(1005));
    assert(stream.units * 0 == 0);
    let nothing = stream.product(num(0));
    assert(nothing.units == 0);
    assert(0 * factors.heating.units == 0 && 0 * factors.cooling.units == 0);
    assert(nothing.product(factors.heating).units == 0);
    assert(nothing.product(factors.cooling).units == 0);
}

/// Fan coils and terminal units are sized for the peaks of their zones with the factors, or for what
/// brings the mixed air, of zones at 21 C in winter and 24 C in summer, to the supply temperatures,
/// whichever is more.
pub proof fn mixed_air_sizes_a_fan_coil(
    li: LoopInfo<Fixed>,
    peaks: ZonePeaks<Fixed>,
    site: sizing::SiteDesign<Fixed>,
    factors: SizingFactors<Fixed>,
)
    requires
        li.system_type == AirLoopSystemType::Fcu || li.system_type == AirLoopSystemType::Ptac
            || li.system_type == AirLoopSystemType::Pthp,
        0 <= zones::zone_total(
            li.served_zones@,
            peaks.airflow@,
            milli(100),
            li.served_zones@.len(),
        ).units <= 1_000_000_000_000,
    ensures
        ({
            let r = sizing::loop_size(li, peaks, site, factors);
            let n = li.served_zones@.len();
            let all = zones::zone_total(li.served_zones@, peaks.airflow@, milli(100), n);
            let stream = Fixed { units: (1005 * all.units) as i64 };
            let heat = zones::zone_total(li.served_zones@, peaks.heating@, milli(0), n).product(
                factors.heating,
            ).units;
            let cool = zones::zone_total(li.served_zones@, peaks.cooling@, milli(0), n).product(
                factors.cooling,
            ).units;
            let up = li.heating_supply_temp.difference(
                control::mixed_temp(milli(21_000), site.winter, li.min_oa_fraction),
            );
            let down = control::mixed_temp(
                milli(24_000),
                site.summer,
                li.min_oa_fraction,
            ).difference(li.cooling_supply_temp);
            let coil = |way: Fixed|
                if way.units > 0 {
                    stream.product(way).units as int
                } else {
                    0
                };
            &&& r.flow == all.quotient(site.density)
            &&& r.heating.units == (if coil(up) > heat {
                coil(up)
            } else {
                heat as int
            })
            &&& r.cooling.units == (if coil(down) > cool {
                coil(down)
            } else {
                cool as int
            })
        }),
{
    defaults_in_units();
    assert(num::<Fixed>(1005).units == 1_005_000_000_000);
    let all = zones::zone_total(
        li.served_zones@,
        peaks.airflow@,
        milli(100),
        li.served_zones@.len(),
    );
    whole_product_is_exact(all, 1005, num(1005));
    let stream = all.product(num(1005));
    assert(stream.units * 0 == 0);
    assert(stream.product(num(0)).units == 0);
}

/// Every component of a loop is sized like its loop, and the last loop of a component counts.
pub proof fn components_are_sized_like_their_loop<T: Scalar>(
    loops: Seq<LoopInfo<T>>,
    peaks: ZonePeaks<T>,
    days: Seq<DesignDay<T>>,
    factors: SizingFactors<T>,
    n: nat,
    name: Seq<char>,
)
    requires
        n < loops.len(),
    ensures
        ({
            let before = sizing::component_sizes(loops, peaks, days, factors, n);
            let after = sizing::component_sizes(loops, peaks, days, factors, n + 1);
            let li = loops[n as int];
            let own = exists|i: int|
                0 <= i < li.component_names@.len() && (#[trigger] li.component_names@[i])@ == name;
            &&& own ==> after.contains_key(name) && after[name] == sizing::loop_size(
                li,
                peaks,
                sizing::site_design(days),
                factors,
            )
            &&& !own ==> after.contains_key(name) == before.contains_key(name) && (
            before.contains_key(name) ==> after[name] == before[name])
        }),
        sizing::component_sizes(loops, peaks, days, factors, 0)
            == Map::<Seq<char>, LoopSize<T>>::empty(),
{
    let li = loops[n as int];
    assert(text::listed(li.component_names@, name) == exists|i: int|
        0 <= i < li.component_names@.len() && (#[trigger] li.component_names@[i])@ == name);
}

/// A component takes the capacity that its name, in lower case, calls for: a heating coil, unless it
/// only speaks of chilled water, that for heating; a cooling coil that for cooling; a ground-source
/// heat pump both; any other none.
pub proof fn components_take_the_capacity_of_their_name<T: Scalar>(
    name: Seq<char>,
    size: LoopSize<T>,
)
    ensures
        ({
            let r = sizing::capacity_by_name(name, size);
            let heats = holds(name, "heat"@) || holds(name, "furnace"@) || (holds(name, "hw"@)
                && !holds(name, "chw"@)) || begins(name, "hc "@) || begins(name, "hc_"@);
            let cools = says_cooling(name);
            let pump = holds(name, "gshp"@);
            &&& heats ==> r == CapacitySize::Single(size.heating)
            &&& !heats && cools ==> r == CapacitySize::Single(size.cooling)
            &&& !heats && !cools && pump ==> r == (CapacitySize::Both {
                cooling: size.cooling,
                heating: size.heating,
            })
            &&& !heats && !cools && !pump ==> r is Nothing
        }),
{
    holds_is_having_a_part(name, "heat"@);
    holds_is_having_a_part(name, "furnace"@);
    holds_is_having_a_part(name, "hw"@);
    holds_is_having_a_part(name, "chw"@);
    holds_is_having_a_part(name, "hc "@);
    holds_is_having_a_part(name, "hc_"@);
    holds_is_having_a_part(name, "cool"@);
    holds_is_having_a_part(name, "dx"@);
    holds_is_having_a_part(name, "cc "@);
    holds_is_having_a_part(name, "cc_"@);
    holds_is_having_a_part(name, "gshp"@);
}

// ---------------------------------------------------------------------------
// Outdoor air

/// All groups of people of a zone count.
pub proof fn people_add_up<T: Scalar>(people: Seq<PeopleInput<T>>, n: nat)
    requires
        n < people.len(),
    ensures
        sizing::people_total(people, 0) == num::<T>(0),
        sizing::people_total(people, n + 1) == plus(
            sizing::people_total(people, n),
            people[n as int].count,
        ),
{
}

/// A zone with rates asks for outdoor air for its people and its floor; one without, or that does not
/// exist, asks for none.
pub proof fn zones_ask_for_people_and_floor<T: Scalar>(all: Seq<ZoneInput<T>>, name: Seq<char>)
    ensures
        ({
            let r = sizing::zone_oa_flow(all, name);
            let place = model::zone_place(all, name, 0);
            let zone = all[place->Some_0 as int];
            &&& place is None ==> r is None
            &&& place is Some && zone.outdoor_air is None ==> r is None
            &&& place is Some && zone.outdoor_air is Some ==> r == Some(
                zone.outdoor_air->Some_0.per_person.product(
                    sizing::people_total(zone.people@, zone.people@.len()),
                ).sum(zone.outdoor_air->Some_0.per_area.product(zone.floor_area)),
            )
        }),
{
}

/// The zones that ask add up, and a loop of which no zone asks is told so.
pub proof fn asking_zones_add_up<T: Scalar>(
    all: Seq<ZoneInput<T>>,
    served: Seq<String>,
    n: nat,
)
    requires
        n < served.len(),
    ensures
        !sizing::oa_flow_total(all, served, 0).0,
        sizing::oa_flow_total(all, served, 0).1 == num::<T>(0),
        ({
            let (asked, total) = sizing::oa_flow_total(all, served, n);
            let (asked1, total1) = sizing::oa_flow_total(all, served, n + 1);
            let flow = sizing::zone_oa_flow(all, served[n as int]@);
            &&& flow is Some ==> asked1 && total1 == plus(total, flow->Some_0)
            &&& flow is None ==> asked1 == asked && total1 == total
        }),
{
}

/// Once a fan is sized, the least outdoor air of its loop is what the zones ask for over its flow,
/// between nothing and one. It stays as it is where the user gave it, where no zone asks, where the
/// fan moves nothing, or where the change is no more than a tenth of a percent.
pub proof fn sized_fan_sets_the_outdoor_air(
    li: LoopInfo<Fixed>,
    flow: Fixed,
    all: Seq<ZoneInput<Fixed>>,
)
    requires
        0 <= li.min_oa_fraction.units <= 1_000_000_000,
    ensures
        sizing::sized_oa_fraction(li, None, all) == li.min_oa_fraction,
        ({
            let r = sizing::sized_oa_fraction(li, Some(flow), all);
            let n = li.served_zones@.len();
            let (asked, total) = sizing::oa_flow_total(all, li.served_zones@, n);
            let q = total.quotient(flow).units;
            let wanted = if q < 0 {
                0
            } else if q > 1_000_000_000 {
                1_000_000_000
            } else {
                q as int
            };
            let change = wanted - li.min_oa_fraction.units;
            let stays = flow.units <= 0 || !asked || li.explicit_min_oa || (-1_000_000 <= change
                <= 1_000_000);
            &&& stays ==> r == li.min_oa_fraction
            &&& !stays ==> r.units == wanted
        }),
{
    defaults_in_units();
    assert(lit::<Fixed>(1, 1000).units == 1_000_000);
}

// ---------------------------------------------------------------------------
// Reading a model

/// The first piece of equipment of a kind from a place on gives its name.
pub proof fn first_of_a_kind_is_named<T>(
    equipment: Seq<EquipmentInput<T>>,
    kind: EquipmentKind,
    from: nat,
)
    requires
        from < equipment.len(),
    ensures
        equipment[from as int].kind == kind ==> model::first_named(equipment, kind, from) == Some(
            equipment[from as int].name@,
        ),
        equipment[from as int].kind != kind ==> model::first_named(equipment, kind, from)
            == model::first_named(equipment, kind, from + 1),
        model::first_named(equipment, kind, equipment.len()) is None,
{
}

/// The first fan with a design flow gives the flow of its loop; without one it is one.
pub proof fn first_sized_fan_gives_the_flow(equipment: Seq<EquipmentInput<Fixed>>, from: nat)
    requires
        from < equipment.len(),
    ensures
        ({
            let e = equipment[from as int];
            let sized = e.kind == EquipmentKind::Fan && e.design_flow_rate.units > 0;
            &&& sized ==> model::first_fan_flow(equipment, from) == e.design_flow_rate
            &&& !sized ==> model::first_fan_flow(equipment, from) == model::first_fan_flow(
                equipment,
                from + 1,
            )
        }),
        model::first_fan_flow(equipment, equipment.len()).units == 1_000_000_000,
{
    defaults_in_units();
}

/// The first hot-water heating coil that names a plant loop leads to it.
pub proof fn first_hot_water_coil_leads_to_its_loop<T>(
    equipment: Seq<EquipmentInput<T>>,
    from: nat,
)
    requires
        from < equipment.len(),
    ensures
        ({
            let e = equipment[from as int];
            let leads = e.kind == EquipmentKind::HeatingCoil && e.source@ == "hot_water"@
                && e.plant_loop is Some;
            &&& leads ==> model::hot_water_loop(equipment, from) == Some(e.plant_loop->Some_0@)
            &&& !leads ==> model::hot_water_loop(equipment, from) == model::hot_water_loop(
                equipment,
                from + 1,
            )
        }),
        model::hot_water_loop(equipment, equipment.len()) is None,
{
}

/// The first boiler of a plant loop gives its efficiency.
pub proof fn first_boiler_gives_the_efficiency<T>(
    equipment: Seq<PlantEquipmentInput<T>>,
    from: nat,
)
    requires
        from < equipment.len(),
    ensures
        equipment[from as int].kind == PlantEquipmentKind::Boiler ==> model::first_boiler(
            equipment,
            from,
        ) == Some(equipment[from as int].efficiency),
        equipment[from as int].kind != PlantEquipmentKind::Boiler ==> model::first_boiler(
            equipment,
            from,
        ) == model::first_boiler(equipment, from + 1),
        model::first_boiler(equipment, equipment.len()) is None,
{
}

/// The boiler is that of the first plant loop with the name; a loop without coil, plant loop or boiler
/// counts with 80 %.
pub proof fn boilers_stand_on_the_loop_of_the_coil(
    equipment: Seq<EquipmentInput<Fixed>>,
    plants: Seq<PlantLoopInput<Fixed>>,
    name: Seq<char>,
    from: nat,
)
    requires
        from < plants.len(),
    ensures
        plants[from as int].name@ == name ==> model::boiler_on(plants, name, from)
            == model::first_boiler(plants[from as int].supply_equipment@, 0),
        plants[from as int].name@ != name ==> model::boiler_on(plants, name, from)
            == model::boiler_on(plants, name, from + 1),
        model::boiler_on(plants, name, plants.len()) is None,
        ({
            let r = model::boiler_efficiency(equipment, plants);
            let coil = model::hot_water_loop(equipment, 0);
            let boiler = model::boiler_on(plants, coil->Some_0, 0);
            &&& coil is Some && boiler is Some ==> r == boiler->Some_0
            &&& coil is None || boiler is None ==> r.units == 800_000_000
        }),
{
    assert(lit::<Fixed>(80, 100).units == 800_000_000);
}

/// A zone with a box, other than one for two ducts, has it under its name; a zone with a box for two
/// ducts has its design flow, 0.5 kg/s until it is sized.
pub proof fn boxes_are_filed_under_their_zone(
    connections: Seq<ZoneConnection<Fixed>>,
    n: nat,
    other: Seq<char>,
)
    requires
        n < connections.len(),
    ensures
        ({
            let c = connections[n as int];
            let zone = c.zone@;
            let boxes = model::boxes_by_zone(connections, n + 1);
            let flows = model::dual_duct_flows(connections, n + 1);
            let boxes0 = model::boxes_by_zone(connections, n);
            let flows0 = model::dual_duct_flows(connections, n);
            let two = c.terminal is Some && c.terminal->Some_0.kind == TerminalKind::DualDuctBox;
            let one = c.terminal is Some && c.terminal->Some_0.kind != TerminalKind::DualDuctBox;
            &&& one ==> boxes.contains_key(zone) && boxes[zone] == c.terminal->Some_0.name@
            &&& !one ==> boxes == boxes0
            &&& two ==> flows.contains_key(zone) && flows[zone].units == (if
                c.terminal->Some_0.design_flow.units > 0 {
                c.terminal->Some_0.design_flow.units as int
            } else {
                500_000_000
            })
            &&& !two ==> flows == flows0
            &&& other != zone ==> boxes.contains_key(other) == boxes0.contains_key(other)
                && flows.contains_key(other) == flows0.contains_key(other)
        }),
        model::boxes_by_zone(connections, 0) == Map::<Seq<char>, Seq<char>>::empty(),
        model::dual_duct_flows(connections, 0) == Map::<Seq<char>, Fixed>::empty(),
{
    defaults_in_units();
}

/// A zone is found at the first place with its name.
pub proof fn zones_are_found_by_name<T>(all: Seq<ZoneInput<T>>, name: Seq<char>, from: nat)
    requires
        from <= all.len(),
    ensures
        ({
            let r = model::zone_place(all, name, from);
            &&& r is Some ==> from <= r->Some_0 < all.len() && all[r->Some_0 as int].name@ == name
                && forall|i: int| from <= i < r->Some_0 ==> (#[trigger] all[i]).name@ != name
            &&& r is None ==> forall|i: int|
                from <= i < all.len() ==> (#[trigger] all[i]).name@ != name
        }),
    decreases all.len() - from,
{
    if from < all.len() && all[from as int].name@ != name {
        zones_are_found_by_name(all, name, from + 1);
    }
}

/// A zone served has ventilation needs where it has a rate above or below nothing and exists: with
/// the people and the schedule of its first group, and its floor area.
pub proof fn connections_need_outdoor_air(
    c: ZoneConnection<Fixed>,
    all: Seq<ZoneInput<Fixed>>,
)
    ensures
        ({
            let r = model::connection_need(c, all);
            let per_person = match c.per_person_oa {
                Some(v) => v.units as int,
                None => 0,
            };
            let per_area = match c.per_area_oa {
                Some(v) => v.units as int,
                None => 0,
            };
            let place = model::zone_place(all, c.zone@, 0);
            let zone = all[place->Some_0 as int];
            let people = zone.people@;
            &&& r is Some <==> (per_person != 0 || per_area != 0) && place is Some
            &&& r is Some ==> {
                let need = r->Some_0;
                &&& need.zone_name == c.zone@
                &&& need.per_person_oa.units == per_person
                &&& need.per_area_oa.units == per_area
                &&& need.floor_area == zone.floor_area
                &&& people.len() > 0 ==> need.design_people == people[0].count
                &&& people.len() == 0 ==> need.design_people.units == 0
                    && need.people_schedule is None
                &&& people.len() > 0 && people[0].schedule is Some ==> need.people_schedule
                    == Some(people[0].schedule->Some_0@)
                &&& people.len() > 0 && people[0].schedule is None ==> need.people_schedule is None
            }
        }),
{
    defaults_in_units();
}

/// The needs of the zones served follow in their order, those without any left out.
pub proof fn needs_follow_in_order<T: Scalar>(
    connections: Seq<ZoneConnection<T>>,
    all: Seq<ZoneInput<T>>,
    n: nat,
)
    requires
        n < connections.len(),
    ensures
        model::connection_needs(connections, all, 0).len() == 0,
        ({
            let before = model::connection_needs(connections, all, n);
            let after = model::connection_needs(connections, all, n + 1);
            let need = model::connection_need(connections[n as int], all);
            &&& need is Some ==> after == before.push(need->Some_0)
            &&& need is None ==> after == before
        }),
{
}

/// An outdoor air system takes all its air from outdoors; any other loop the fraction that the model
/// gives, or else what its zones need. A loop without an economizer has none.
pub proof fn loops_have_a_least_outdoor_air(al: AirLoopInput<Fixed>)
    ensures
        ({
            let r = model::design_oa_fraction(al);
            let doas = al.system_type == AirLoopSystemType::Doas;
            &&& doas ==> r.units == 1_000_000_000
            &&& !doas && al.minimum_damper_position is Some ==> r
                == al.minimum_damper_position->Some_0
            &&& !doas && al.minimum_damper_position is None ==> r == al.required_oa_fraction
            &&& al.economizer is Some ==> model::economizer_of(al) == al.economizer->Some_0
            &&& al.economizer is None ==> model::economizer_of(al).economizer_type
                == EconomizerType::NoEconomizer
        }),
{
    defaults_in_units();
}

/// What a loop is told of itself is what the model says: its names and kinds, its temperatures and
/// modes, component by component and zone by zone.
pub proof fn loops_are_what_the_model_says<T: Scalar>(
    li: LoopInfo<T>,
    al: AirLoopInput<T>,
    plants: Seq<PlantLoopInput<T>>,
    all: Seq<ZoneInput<T>>,
    i: int,
)
    requires
        model::describes(li, al, plants, all),
    ensures
        li.name@ == al.name@,
        li.system_type == al.system_type,
        li.component_names@.len() == al.equipment@.len(),
        0 <= i < al.equipment@.len() ==> li.component_names@[i]@ == al.equipment@[i].name@,
        li.served_zones@.len() == al.zone_terminals@.len(),
        0 <= i < al.zone_terminals@.len() ==> li.served_zones@[i]@ == al.zone_terminals@[i].zone@,
        li.min_vav_fraction == al.min_vav_fraction,
        li.heating_supply_temp == al.heating_supply_temp,
        li.cooling_supply_temp == al.cooling_supply_temp,
        li.cycling == al.cycling,
        li.fan_operating_mode == al.fan_operating_mode,
        li.dcv == al.dcv,
        li.cooling_sat_reset == al.cooling_sat_reset,
        li.heating_sat_reset == al.heating_sat_reset,
        li.explicit_min_oa <==> al.system_type != AirLoopSystemType::Doas
            && al.minimum_damper_position is Some,
        li.availability_schedule is Some <==> al.availability_schedule is Some,
        li.availability_schedule is Some ==> li.availability_schedule->Some_0@
            == al.availability_schedule->Some_0@,
        0 <= i < li.fan_names@.len() ==> exists|k: int|
            0 <= k < al.equipment@.len() && (#[trigger] al.equipment@[k]).kind == EquipmentKind::Fan
                && al.equipment@[k].name@ == li.fan_names@[i]@,
        0 <= i < al.equipment@.len() && al.equipment@[i].kind == EquipmentKind::Fan
            ==> exists|k: int|
            0 <= k < li.fan_names@.len() && (#[trigger] li.fan_names@[k])@
                == al.equipment@[i].name@,
{
    let names = air_side::texts(li.component_names@);
    assert(names.len() == model::equipment_names(al.equipment@).len());
    if 0 <= i < al.equipment@.len() {
        assert(names[i] == model::equipment_names(al.equipment@)[i]);
    }
    let served = air_side::texts(li.served_zones@);
    assert(served.len() == model::zone_names(al.zone_terminals@).len());
    if 0 <= i < al.zone_terminals@.len() {
        assert(served[i] == model::zone_names(al.zone_terminals@)[i]);
    }
    if 0 <= i < li.fan_names@.len() {
        let fan = li.fan_names@[i]@;
        assert(text::listed(li.fan_names@, fan));
        assert(model::has_named(al.equipment@, EquipmentKind::Fan, fan));
    }
    if 0 <= i < al.equipment@.len() && al.equipment@[i].kind == EquipmentKind::Fan {
        let fan = al.equipment@[i].name@;
        assert(model::has_named(al.equipment@, EquipmentKind::Fan, fan));
        assert(text::listed(li.fan_names@, fan));
    }
}

// ---------------------------------------------------------------------------
// Schedules and setpoints

/// The smallest depth is no deeper than any other, and the first among equals.
pub proof fn smallest_depth_is_found(depths: Seq<Fixed>, n: nat)
    requires
        0 < n <= depths.len(),
    ensures
        setup::smallest(depths, n) is Some,
        ({
            let best = setup::smallest(depths, n)->Some_0;
            &&& best < n
            &&& forall|i: int|
                0 <= i < n ==> depths[best as int].units <= (#[trigger] depths[i]).units
            &&& forall|i: int|
                0 <= i < best ==> depths[best as int].units < (#[trigger] depths[i]).units
        }),
    decreases n,
{
    if n > 1 {
        smallest_depth_is_found(depths, (n - 1) as nat);
    }
    reveal_with_fuel(setup::smallest, 2);
}

/// A day begins 24 hours after the day before, within a month and from one month to the next, and the
/// year begins at hour nothing.
pub proof fn days_begin_24_hours_apart(month: u32, day: u32, dims: Seq<u32>)
    requires
        1 <= month <= 12,
        dims.len() == 12,
        1 <= day < 1_000,
    ensures
        setup::first_hour(1, 1, dims) == 0,
        setup::first_hour(month, (day + 1) as u32, dims) == setup::first_hour(month, day, dims) + 24,
        month < 12 && day == dims[month - 1] ==> setup::first_hour((month + 1) as u32, 1, dims)
            == setup::first_hour(month, day, dims) + 24,
{
    if month < 12 {
        assert(calendar::days_to(dims, month as nat) == calendar::days_to(
            dims,
            (month - 1) as nat,
        ) + dims[month - 1]);
    }
}

/// The last thermostat of a zone sets its heating and its cooling setpoint.
pub proof fn last_thermostat_sets_its_zones<T>(
    thermostats: Seq<Thermostat<T>>,
    n: nat,
    zone: Seq<char>,
)
    requires
        n < thermostats.len(),
    ensures
        ({
            let t = thermostats[n as int];
            let own = exists|i: int| 0 <= i < t.zones@.len() && (#[trigger] t.zones@[i])@ == zone;
            let heat = setup::setpoints_by(thermostats, true, n + 1);
            let cool = setup::setpoints_by(thermostats, false, n + 1);
            let heat0 = setup::setpoints_by(thermostats, true, n);
            let cool0 = setup::setpoints_by(thermostats, false, n);
            &&& own ==> heat.contains_key(zone) && heat[zone] == t.heating_setpoint
            &&& own ==> cool.contains_key(zone) && cool[zone] == t.cooling_setpoint
            &&& !own ==> heat.contains_key(zone) == heat0.contains_key(zone) && (
            heat0.contains_key(zone) ==> heat[zone] == heat0[zone])
            &&& !own ==> cool.contains_key(zone) == cool0.contains_key(zone) && (
            cool0.contains_key(zone) ==> cool[zone] == cool0[zone])
        }),
        setup::setpoints_by(thermostats, true, 0) == Map::<Seq<char>, T>::empty(),
        setup::setpoints_by(thermostats, false, 0) == Map::<Seq<char>, T>::empty(),
{
    let t = thermostats[n as int];
    let len = t.zones@.len();
    set_for_every_zone(
        setup::setpoints_by(thermostats, true, n),
        t.zones@,
        t.heating_setpoint,
        len,
        zone,
    );
    set_for_every_zone(
        setup::setpoints_by(thermostats, false, n),
        t.zones@,
        t.cooling_setpoint,
        len,
        zone,
    );
}

proof fn set_for_every_zone<T>(
    values: Map<Seq<char>, T>,
    zones: Seq<String>,
    value: T,
    n: nat,
    zone: Seq<char>,
)
    requires
        n <= zones.len(),
    ensures
        ({
            let r = setup::set_for(values, zones, value, n);
            let own = exists|i: int| 0 <= i < n && (#[trigger] zones[i])@ == zone;
            &&& own ==> r.contains_key(zone) && r[zone] == value
            &&& !own ==> r.contains_key(zone) == values.contains_key(zone) && (values.contains_key(
                zone,
            ) ==> r[zone] == values[zone])
        }),
    decreases n,
{
    if n > 0 {
        set_for_every_zone(values, zones, value, (n - 1) as nat, zone);
        let last = zones[n - 1]@;
        if exists|i: int| 0 <= i < n - 1 && (#[trigger] zones[i])@ == zone {
            let i = choose|i: int| 0 <= i < n - 1 && (#[trigger] zones[i])@ == zone;
            assert(zones[i]@ == zone);
        }
    }
}

/// For sizing the first thermostat that lists a zone gives its cooling setpoint.
pub proof fn first_thermostat_sizes_its_zones<T>(
    thermostats: Seq<Thermostat<T>>,
    zone: Seq<char>,
    from: nat,
)
    requires
        from < thermostats.len(),
    ensures
        ({
            let t = thermostats[from as int];
            let own = exists|i: int| 0 <= i < t.zones@.len() && (#[trigger] t.zones@[i])@ == zone;
            let r = setup::first_cooling_setpoint(thermostats, zone, from);
            &&& own ==> r == Some(t.cooling_setpoint)
            &&& !own ==> r == setup::first_cooling_setpoint(thermostats, zone, from + 1)
        }),
        setup::first_cooling_setpoint(thermostats, zone, thermostats.len()) is None,
{
    let t = thermostats[from as int];
    assert(text::listed(t.zones@, zone) == exists|i: int|
        0 <= i < t.zones@.len() && (#[trigger] t.zones@[i])@ == zone);
}

/// Solar time is half an hour after the full hour, an hour more for each 15 degrees that the meridian
/// of the time zone is east of the place, and the equation of time, but for rounding.
pub proof fn solar_time_follows_the_sun(hour: u32, zone: Fixed, longitude: Fixed, equation: Fixed)
    requires
        -24_000_000_000 <= zone.units <= 24_000_000_000,
        -360_000_000_000 <= longitude.units <= 360_000_000_000,
        -24_000_000_000 <= equation.units <= 24_000_000_000,
    ensures
        ({
            let r = setup::solar_hour(hour, zone, longitude, equation).units;
            let clock = (hour % 24) * 1_000_000_000 + 500_000_000;
            let exact = 15 * (clock + zone.units + equation.units) - longitude.units;
            exact <= 15 * r < exact + 15
        }),
{
    defaults_in_units();
    assert(num::<Fixed>(15).units == 15_000_000_000);
    quotient_rounds_down(longitude, num(15));
}

/// The air of a zone holds its density and volume with 1006 J/(kg K) and eleven sixths, over the
/// timestep.
pub proof fn zone_air_holds_heat<T: Scalar>(density: T, volume: T, dt: T)
    ensures
        setup::zone_capacity(density, volume, dt) == density.product(volume).product(
            T::fraction(1006, 1),
        ).product(T::fraction(11, 1).quotient(T::fraction(6, 1))).quotient(dt),
{
}

/// What a zone gains by convection and from its system balances what it loses through surfaces and by
/// infiltration.
pub proof fn gains_and_losses_balance(surface: Fixed, infiltration: Fixed, convected: Fixed, hvac: Fixed)
    requires
        -1_000_000_000_000_000_000 <= surface.units <= 1_000_000_000_000_000_000,
        -1_000_000_000_000_000_000 <= infiltration.units <= 1_000_000_000_000_000_000,
        -1_000_000_000_000_000_000 <= convected.units <= 1_000_000_000_000_000_000,
        -1_000_000_000_000_000_000 <= hvac.units <= 1_000_000_000_000_000_000,
    ensures
        setup::heat_balance(surface, infiltration, convected, hvac).units + surface.units
            + infiltration.units == convected.units + hvac.units,
{
}

/// The last loop of a zone gives its design flow.
pub proof fn last_loop_gives_the_design_flow<T>(
    loops: Seq<AirLoopInput<T>>,
    n: nat,
    zone: Seq<char>,
)
    requires
        n < loops.len(),
    ensures
        ({
            let al = loops[n as int];
            let own = exists|i: int|
                0 <= i < al.zone_terminals@.len() && (#[trigger] al.zone_terminals@[i]).zone@
                    == zone;
            let after = setup::loop_flows(loops, n + 1);
            let before = setup::loop_flows(loops, n);
            &&& own ==> after.contains_key(zone) && after[zone] == al.design_zone_flow
            &&& !own ==> after.contains_key(zone) == before.contains_key(zone) && (
            before.contains_key(zone) ==> after[zone] == before[zone])
        }),
        setup::loop_flows(loops, 0) == Map::<Seq<char>, T>::empty(),
{
    let al = loops[n as int];
    flow_for_every_zone(setup::loop_flows(loops, n), al, al.zone_terminals@.len(), zone);
}

proof fn flow_for_every_zone<T>(
    flows: Map<Seq<char>, T>,
    al: AirLoopInput<T>,
    n: nat,
    zone: Seq<char>,
)
    requires
        n <= al.zone_terminals@.len(),
    ensures
        ({
            let r = setup::with_loop_flow(flows, al, n);
            let own = exists|i: int|
                0 <= i < n && (#[trigger] al.zone_terminals@[i]).zone@ == zone;
            &&& own ==> r.contains_key(zone) && r[zone] == al.design_zone_flow
            &&& !own ==> r.contains_key(zone) == flows.contains_key(zone) && (flows.contains_key(
                zone,
            ) ==> r[zone] == flows[zone])
        }),
    decreases n,
{
    if n > 0 {
        flow_for_every_zone(flows, al, (n - 1) as nat, zone);
        let last = al.zone_terminals@[n - 1];
        if exists|i: int| 0 <= i < n - 1 && (#[trigger] al.zone_terminals@[i]).zone@ == zone {
            let i = choose|i: int|
                0 <= i < n - 1 && (#[trigger] al.zone_terminals@[i]).zone@ == zone;
            assert(al.zone_terminals@[i].zone@ == zone);
        }
    }
}

/// Setting an output of a component changes that output alone.
pub proof fn one_output_is_set<T>(
    results: Map<Seq<char>, Map<Seq<char>, T>>,
    name: Seq<char>,
    key: Seq<char>,
    value: T,
    other: Seq<char>,
)
    ensures
        ({
            let r = setup::with_output(results, name, key, value);
            &&& r.contains_key(name) && r[name].contains_key(key) && r[name][key] == value
            &&& results.contains_key(name) && other != key ==> r[name].contains_key(other)
                == results[name].contains_key(other) && (results[name].contains_key(other)
                ==> r[name][other] == results[name][other])
            &&& other != name ==> r.contains_key(other) == results.contains_key(other) && (
            results.contains_key(other) ==> r[other] == results[other])
        }),
{
}

/// One output is collected from every component that has it, but not from the weather.
pub proof fn outputs_are_collected<T>(
    results: Map<Seq<char>, Table<T>>,
    key: Seq<char>,
    name: Seq<char>,
)
    ensures
        ({
            let r = setup::collected(results, key);
            let has = results.contains_key(name) && results[name]@.contains_key(key);
            &&& !r.contains_key("Weather"@)
            &&& name != "Weather"@ ==> (r.contains_key(name) <==> has)
            &&& r.contains_key(name) ==> r[name] == results[name]@[key]
        }),
{
}

/// The last setpoint under a name counts.
pub proof fn last_setpoint_counts<T>(setpoints: Seq<FixedSetpoint<T>>, n: nat, other: Seq<char>)
    requires
        n < setpoints.len(),
    ensures
        ({
            let s = setpoints[n as int];
            let after = setup::fixed_setpoints(setpoints, n + 1);
            let before = setup::fixed_setpoints(setpoints, n);
            &&& after.contains_key(s.name@) && after[s.name@] == s.value
            &&& other != s.name@ ==> after.contains_key(other) == before.contains_key(other) && (
            before.contains_key(other) ==> after[other] == before[other])
        }),
        setup::fixed_setpoints(setpoints, 0) == Map::<Seq<char>, T>::empty(),
{
}

// ---------------------------------------------------------------------------
// Reports of zones

/// Air that is warmer than a zone heats it and cooler air cools it; moister air humidifies it: each by
/// the flow and the difference, with the heat capacity of the air and 2.501 MJ/kg for moisture. Air of
/// the state of the zone brings nothing.
pub proof fn flows_bring_their_difference(zone: ZoneAir<Fixed>, flow: Fixed, temp: Fixed, w: Fixed)
    requires
        0 <= flow.units <= 1_000_000_000_000,
        0 <= zone.cp.units <= 2_000_000_000_000,
        -1_000_000_000_000 <= temp.units <= 1_000_000_000_000,
        -1_000_000_000_000 <= zone.temp.units <= 1_000_000_000_000,
        0 <= w.units <= 1_000_000_000,
        0 <= zone.w.units <= 1_000_000_000,
    ensures
        ({
            let g = zone_report::flow_gain(zone, flow, temp, w);
            let stream = flow.product(zone.cp).units;
            let dt = temp.units - zone.temp.units;
            let dw = w.units - zone.w.units;
            &&& 1_000_000_000 * g.sensible.units <= stream * dt < 1_000_000_000 * g.sensible.units
                + 1_000_000_000
            &&& 1_000_000_000 * g.latent.units <= 2_501_000 * flow.units * dw < 1_000_000_000
                * g.latent.units + 1_000_000_000
        }),
{
    assert(num::<Fixed>(2_501_000).units == 2_501_000_000_000_000);
    product_rounds_down(flow, zone.cp, 1_000_000_000_000, 2_000_000_000_000);
    let stream = flow.product(zone.cp);
    assert(flow.units * zone.cp.units >= 0) by (nonlinear_arith)
        requires
            flow.units >= 0,
            zone.cp.units >= 0,
    ;
    let dt = temp.difference(zone.temp);
    product_rounds_down(stream, dt, 2_000_000_000_000_000, 2_000_000_000_000);
    let wet = flow.product(num(2_501_000));
    whole_product_is_exact(flow, 2_501_000, num(2_501_000));
    let dw = w.difference(zone.w);
    product_rounds_down(wet, dw, 2_501_000_000_000_000_000, 1_000_000_000);
    assert(wet.units * dw.units == 2_501_000 * flow.units * dw.units) by (nonlinear_arith)
        requires
            wet.units == flow.units * 2_501_000,
    ;
}

/// Every surface adds its area, and its temperature by the area.
pub proof fn surfaces_weigh_by_area<T: Scalar>(surfaces: Seq<SurfaceTemp<T>>, n: nat)
    requires
        n < surfaces.len(),
    ensures
        ({
            let (area, weighted) = zone_report::area_sums(surfaces, n);
            let (area1, weighted1) = zone_report::area_sums(surfaces, n + 1);
            let s = surfaces[n as int];
            &&& area1 == area.sum(s.area)
            &&& weighted1 == weighted.sum(s.area.product(s.temp))
        }),
        zone_report::area_sums(surfaces, 0).0 == num::<T>(0),
        zone_report::area_sums(surfaces, 0).1 == num::<T>(0),
{
}

/// The mean radiant temperature, times the area of the surfaces, is what they weigh together, but for
/// rounding; without surfaces it is the temperature of the air.
pub proof fn mean_radiant_temperature_weighs_the_surfaces(
    surfaces: Seq<SurfaceTemp<Fixed>>,
    air: Fixed,
)
    requires
        ({
            let (area, weighted) = zone_report::area_sums(surfaces, surfaces.len());
            -9_000_000_000 * area.units <= weighted.units <= 9_000_000_000 * area.units
        }),
    ensures
        ({
            let (area, weighted) = zone_report::area_sums(surfaces, surfaces.len());
            let r = zone_report::mean_radiant(surfaces, air).units;
            &&& area.units <= 0 ==> r == air.units
            &&& area.units > 0 ==> r * area.units <= 1_000_000_000 * weighted.units < r * area.units
                + area.units
        }),
{
    defaults_in_units();
    let (area, weighted) = zone_report::area_sums(surfaces, surfaces.len());
    if area.units > 0 {
        quotient_rounds_down(weighted, area);
    }
}

/// A surface reports its temperatures, the sun on it and its coefficient as they are, and conduction
/// and convection by its area; a window also what it transmits and convects.
pub proof fn surfaces_report_by_their_area<T: Scalar>(s: SurfaceState<T>, zone_temp: T)
    ensures
        ({
            let r = zone_report::surface_report(s, zone_temp);
            &&& r["cond_inside"@] == s.q_cond_inside.product(s.net_area)
            &&& r["temp_inside"@] == s.temp_inside
            &&& r["temp_outside"@] == s.temp_outside
            &&& r["incident_solar"@] == s.incident_solar
            &&& r["conv_to_zone"@] == s.h_conv_inside.product(s.net_area).product(
                s.temp_inside.difference(zone_temp),
            )
            &&& r["h_conv_inside"@] == s.h_conv_inside
            &&& s.is_window ==> r["transmitted_solar"@] == s.transmitted_solar && r["conv_inside"@]
                == s.q_conv_inside.product(s.net_area)
            &&& !s.is_window ==> !r.contains_key("transmitted_solar"@) && !r.contains_key(
                "conv_inside"@,
            )
        }),
{
    reveal_strlit("cond_inside");
    reveal_strlit("temp_inside");
    reveal_strlit("temp_outside");
    reveal_strlit("incident_solar");
    reveal_strlit("conv_to_zone");
    reveal_strlit("h_conv_inside");
    reveal_strlit("transmitted_solar");
    reveal_strlit("conv_inside");
    assert("cond_inside"@.len() == 11 && "cond_inside"@[3] == 'd' && "cond_inside"@[0] == 'c');
    assert("conv_inside"@.len() == 11 && "conv_inside"@[3] == 'v' && "conv_inside"@[0] == 'c');
    assert("temp_inside"@.len() == 11 && "temp_inside"@[0] == 't');
    assert("temp_outside"@.len() == 12 && "temp_outside"@[0] == 't');
    assert("conv_to_zone"@.len() == 12 && "conv_to_zone"@[0] == 'c');
    assert("incident_solar"@.len() == 14);
    assert("h_conv_inside"@.len() == 13);
    assert("transmitted_solar"@.len() == 17);
}

/// The sun through a surface counts for its zone, if it has one; conduction counts as that of windows,
/// by convection, or of opaque surfaces, by conduction; and gains count where any are transmitted.
/// Other zones stay as they are.
pub proof fn surfaces_count_for_their_zone(
    surfaces: Seq<SurfaceState<Fixed>>,
    n: nat,
    other: Seq<char>,
)
    requires
        n < surfaces.len(),
    ensures
        ({
            let s = surfaces[n as int];
            let zone = s.zone@;
            let placed = zone.len() > 0;
            let sun0 = zone_report::solar_by_zone(surfaces, n);
            let sun1 = zone_report::solar_by_zone(surfaces, n + 1);
            let glass0 = zone_report::conduction_by_zone(surfaces, true, n);
            let glass1 = zone_report::conduction_by_zone(surfaces, true, n + 1);
            let wall0 = zone_report::conduction_by_zone(surfaces, false, n);
            let wall1 = zone_report::conduction_by_zone(surfaces, false, n + 1);
            let gain0 = zone_report::solar_gains_by_zone(surfaces, n);
            let gain1 = zone_report::solar_gains_by_zone(surfaces, n + 1);
            &&& placed ==> sun1[zone] == or_else(sun0, zone, milli(0)).sum(s.transmitted_solar)
            &&& !placed ==> sun1 == sun0 && glass1 == glass0 && wall1 == wall0
            &&& placed && s.is_window ==> wall1 == wall0 && glass1[zone] == or_else(
                glass0,
                zone,
                milli(0),
            ).sum(s.q_conv_inside.product(s.net_area))
            &&& placed && !s.is_window ==> glass1 == glass0 && wall1[zone] == or_else(
                wall0,
                zone,
                milli(0),
            ).sum(s.q_cond_inside.product(s.net_area))
            &&& s.transmitted_solar.units > 0 ==> gain1[zone] == or_else(
                gain0,
                zone,
                milli(0),
            ).sum(s.transmitted_solar)
            &&& s.transmitted_solar.units <= 0 ==> gain1 == gain0
            &&& other != zone && sun0.contains_key(other) ==> sun1[other] == sun0[other]
            &&& other != zone && glass0.contains_key(other) ==> glass1[other] == glass0[other]
            &&& other != zone && wall0.contains_key(other) ==> wall1[other] == wall0[other]
            &&& other != zone && gain0.contains_key(other) ==> gain1[other] == gain0[other]
        }),
        zone_report::solar_by_zone(surfaces, 0) == Map::<Seq<char>, Fixed>::empty(),
        zone_report::conduction_by_zone(surfaces, true, 0) == Map::<Seq<char>, Fixed>::empty(),
        zone_report::conduction_by_zone(surfaces, false, 0) == Map::<Seq<char>, Fixed>::empty(),
        zone_report::solar_gains_by_zone(surfaces, 0) == Map::<Seq<char>, Fixed>::empty(),
{
    defaults_in_units();
}

// ---------------------------------------------------------------------------
// Dates

/// Two dates of one year are the same day only if they are the same, and a later day of the year has a
/// later date.
pub proof fn later_days_have_later_dates(
    a: (u32, u32),
    b: (u32, u32),
    i: int,
    j: int,
    dims: Seq<u32>,
)
    requires
        dims.len() == 12,
        calendar::is_date_of(a.0, a.1, i, dims),
        calendar::is_date_of(b.0, b.1, j, dims),
    ensures
        i < j <==> a.0 < b.0 || (a.0 == b.0 && a.1 < b.1),
        i == j <==> a == b,
{
    if a.0 < b.0 {
        months_pass(dims, a.0 as nat, (b.0 - 1) as nat);
    }
    if b.0 < a.0 {
        months_pass(dims, b.0 as nat, (a.0 - 1) as nat);
    }
}

proof fn months_pass(dims: Seq<u32>, m: nat, k: nat)
    requires
        1 <= m <= k + 1,
        k < dims.len(),
    ensures
        m <= k ==> calendar::days_to(dims, (m - 1) as nat) + dims[m - 1] <= calendar::days_to(dims, k),
    decreases k,
{
    if m < k {
        months_pass(dims, m, (k - 1) as nat);
    }
}

} // verus!
