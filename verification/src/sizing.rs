//! Sizing of air flows and capacities from design-day peaks.
use crate::air_loop::{AirLoopSystemType, LoopInfo};
use crate::control;
use crate::control::{is_cooling_name, mixed_temp};
use crate::model;
use crate::model::{find_zone, AirLoopInput, ZoneInput};
use crate::scalar;
use crate::scalar::{
    absolute, clamp, gt, le, least, lit, minus, most, negated, num, over, plus, times, Scalar,
};
use crate::table;
use crate::table::Table;
use crate::text;
use crate::text::{contains, is_listed, starts_with, to_lowercase};
use crate::zones;
use crate::zones::sum_over_zones;
use vstd::prelude::*;
use vstd::string::*;

verus! {

/// A design day.
pub struct DesignDay<T> {
    pub day_type: String,
    /// Design temperature [C].
    pub design_temp: T,
    /// Barometric pressure [Pa].
    pub pressure: T,
}

/// What the sizing run finds for the zones, by their names.
pub struct ZonePeaks<T> {
    /// Design air flow [kg/s].
    pub airflow: Table<T>,
    /// Peak heating load [W].
    pub heating: Table<T>,
    /// Peak cooling load [W].
    pub cooling: Table<T>,
}

/// By how much equipment is oversized.
#[derive(Clone, Copy, Debug)]
pub struct SizingFactors<T> {
    pub heating: T,
    pub cooling: T,
}

// ---------------------------------------------------------------------------
// Supply temperatures for sizing

/// The highest heating supply temperature of the first `n` loops.
pub open spec fn hottest_supply<T: Scalar>(loops: Seq<AirLoopInput<T>>, n: nat) -> T
    decreases n,
{
    if n == 0 {
        T::unbounded().opposite()
    } else {
        most(hottest_supply(loops, (n - 1) as nat), loops[n - 1].heating_supply_temp)
    }
}

/// The lowest cooling supply temperature of the first `n` loops.
pub open spec fn coldest_supply<T: Scalar>(loops: Seq<AirLoopInput<T>>, n: nat) -> T
    decreases n,
{
    if n == 0 {
        T::unbounded()
    } else {
        least(coldest_supply(loops, (n - 1) as nat), loops[n - 1].cooling_supply_temp)
    }
}

/// The supply temperatures `(heating, cooling)` for sizing: the extremes of all loops.
pub fn sizing_supply_temps<T: Scalar>(loops: &Vec<AirLoopInput<T>>) -> (r: Option<(T, T)>)
    ensures
        r == if loops@.len() == 0 {
            None
        } else {
            Some((hottest_supply(loops@, loops@.len()), coldest_supply(loops@, loops@.len())))
        },
{
    if loops.len() == 0 {
        return None;
    }
    let mut hot: T = negated(T::infinity());
    let mut cold: T = T::infinity();
    for i in 0..loops.len()
        invariant
            hot == hottest_supply(loops@, i as nat),
            cold == coldest_supply(loops@, i as nat),
    {
        hot = most(hot, loops[i].heating_supply_temp);
        cold = least(cold, loops[i].cooling_supply_temp);
    }
    Some((hot, cold))
}

// ---------------------------------------------------------------------------
// Zone flows

/// Some loop of several zones serves the zone.
pub open spec fn is_multi_zone<T>(loops: Seq<LoopInfo<T>>, zone: Seq<char>) -> bool {
    exists|i: int|
        0 <= i < loops.len() && ((#[trigger] loops[i]).system_type == AirLoopSystemType::Vav
            || loops[i].system_type == AirLoopSystemType::DualDuct) && text::listed(
            loops[i].served_zones@,
            zone,
        )
}

fn in_multi_zone_loop<T>(loops: &Vec<LoopInfo<T>>, zone: &str) -> (r: bool)
    ensures
        r == is_multi_zone(loops@, zone@),
{
    for i in 0..loops.len()
        invariant
            forall|k: int|
                0 <= k < i ==> !(((#[trigger] loops@[k]).system_type == AirLoopSystemType::Vav
                    || loops@[k].system_type == AirLoopSystemType::DualDuct) && text::listed(
                    loops@[k].served_zones@,
                    zone@,
                )),
    {
        let kind = loops[i].system_type;
        if (kind == AirLoopSystemType::Vav || kind == AirLoopSystemType::DualDuct) && is_listed(
            &loops[i].served_zones,
            zone,
        ) {
            assert(loops@[i as int].system_type == kind);
            return true;
        }
    }
    false
}

/// The sized flow of a zone; zones of a multiple-zone loop get the cooling factor on top.
pub open spec fn sized_flow<T: Scalar>(
    loops: Seq<LoopInfo<T>>,
    factor: T,
    zone: Seq<char>,
    flow: T,
) -> T {
    if is_multi_zone(loops, zone) {
        times(flow, factor)
    } else {
        flow
    }
}

/// The sized flows of all zones that were sized.
pub open spec fn sized_flows<T: Scalar>(
    loops: Seq<LoopInfo<T>>,
    factor: T,
    airflow: Map<Seq<char>, T>,
) -> Map<Seq<char>, T> {
    Map::new(
        |zone: Seq<char>| airflow.contains_key(zone),
        |zone: Seq<char>| sized_flow(loops, factor, zone, airflow[zone]),
    )
}

/// Puts the sized flows in place of the design flows.
pub fn apply_sized_flows<T: Scalar>(
    design_flows: &mut Table<T>,
    airflow: &Table<T>,
    loops: &Vec<LoopInfo<T>>,
    cooling_factor: T,
)
    ensures
        final(design_flows)@ == old(design_flows)@.union_prefer_right(
            sized_flows(loops@, cooling_factor, airflow@),
        ),
{
    let mut sized: Table<T> = Table::new();
    for i in 0..airflow.entries.len()
        invariant
            forall|zone: Seq<char>| #[trigger]
                sized@.contains_key(zone) <==> table::is_filed(
                    airflow.entries@.take(i as int),
                    zone,
                ),
            forall|zone: Seq<char>| #[trigger]
                sized@.contains_key(zone) ==> airflow@.contains_key(zone) && sized@[zone]
                    == sized_flow(loops@, cooling_factor, zone, airflow@[zone]),
    {
        proof {
            table::filed_one_more(airflow.entries@, i as int);
            table::filed_is_mapped(airflow.entries@, i as int);
        }
        let zone = airflow.entries[i].0.as_str();
        if let Some(flow) = airflow.get(zone) {
            let value = if in_multi_zone_loop(loops, zone) {
                times(*flow, cooling_factor)
            } else {
                *flow
            };
            sized.insert(zone, value);
        }
    }
    proof {
        assert(airflow.entries@.take(airflow.entries@.len() as int) =~= airflow.entries@);
        table::filed_iff_mapped(*airflow);
        assert(sized@ =~= sized_flows(loops@, cooling_factor, airflow@));
    }
    design_flows.merge(&sized);
}

/// What a loop with a supply temperature of its own needs for a zone, in place of a flow
/// sized with the common temperature.
pub open spec fn own_flow<T: Scalar>(
    flows: Map<Seq<char>, T>,
    zone: Seq<char>,
    supply: T,
    cool_sp: Map<Seq<char>, T>,
    peak_cooling: Map<Seq<char>, T>,
    factor: T,
) -> T {
    let load = times(table::value_or(peak_cooling, zone, num(0)), factor);
    let lift = most(minus(table::value_or(cool_sp, zone, num(24)), supply), num(5));
    if gt(load, num(0)) {
        over(load, times(num(1005), lift))
    } else {
        table::value_or(flows, zone, lit(1, 100))
    }
}

/// The flows after a zone was looked at: its own flow where that is more.
pub open spec fn raised_flow<T: Scalar>(
    flows: Map<Seq<char>, T>,
    zone: Seq<char>,
    supply: T,
    cool_sp: Map<Seq<char>, T>,
    peak_cooling: Map<Seq<char>, T>,
    factor: T,
) -> Map<Seq<char>, T> {
    let own = own_flow(flows, zone, supply, cool_sp, peak_cooling, factor);
    if gt(own, table::value_or(flows, zone, lit(1, 100))) {
        flows.insert(zone, own)
    } else {
        flows
    }
}

/// The flows after the first `n` zones of a list were looked at.
pub open spec fn raised_for_zones<T: Scalar>(
    flows: Map<Seq<char>, T>,
    served: Seq<String>,
    supply: T,
    cool_sp: Map<Seq<char>, T>,
    peak_cooling: Map<Seq<char>, T>,
    factor: T,
    n: nat,
) -> Map<Seq<char>, T>
    decreases n,
{
    if n == 0 {
        flows
    } else {
        raised_flow(
            raised_for_zones(
                flows,
                served,
                supply,
                cool_sp,
                peak_cooling,
                factor,
                (n - 1) as nat,
            ),
            served[n - 1]@,
            supply,
            cool_sp,
            peak_cooling,
            factor,
        )
    }
}

/// The flows after the first `n` loops were looked at. Only loops whose supply temperature
/// differs by more than half a degree from the common one count.
pub open spec fn raised_for_loops<T: Scalar>(
    flows: Map<Seq<char>, T>,
    loops: Seq<LoopInfo<T>>,
    common: T,
    cool_sp: Map<Seq<char>, T>,
    peak_cooling: Map<Seq<char>, T>,
    factor: T,
    n: nat,
) -> Map<Seq<char>, T>
    decreases n,
{
    if n == 0 {
        flows
    } else {
        let rest = raised_for_loops(
            flows,
            loops,
            common,
            cool_sp,
            peak_cooling,
            factor,
            (n - 1) as nat,
        );
        let li = loops[n - 1];
        if gt(absolute(minus(li.cooling_supply_temp, common)), lit(5, 10)) {
            raised_for_zones(
                rest,
                li.served_zones@,
                li.cooling_supply_temp,
                cool_sp,
                peak_cooling,
                factor,
                li.served_zones@.len(),
            )
        } else {
            rest
        }
    }
}

fn raise_zone_flow<T: Scalar>(
    flows: &mut Table<T>,
    zone: &str,
    supply: T,
    cool_sp: &Table<T>,
    peak_cooling: &Table<T>,
    factor: T,
)
    ensures
        final(flows)@ == raised_flow(
            old(flows)@,
            zone@,
            supply,
            cool_sp@,
            peak_cooling@,
            factor,
        ),
{
    let load = times(peak_cooling.get_or(zone, num(0)), factor);
    let lift = most(minus(cool_sp.get_or(zone, num(24)), supply), num(5));
    let present = flows.get_or(zone, lit(1, 100));
    let own = if gt(load, num(0)) {
        over(load, times(num(1005), lift))
    } else {
        present
    };
    if gt(own, present) {
        flows.insert(zone, own);
    }
}

/// Raises the flows of zones whose loop has a warmer supply than the common one that they
/// were sized with. `cool_sp` holds the cooling setpoint of each zone that has a
/// thermostat.
pub fn raise_for_own_supply<T: Scalar>(
    flows: &mut Table<T>,
    loops: &Vec<LoopInfo<T>>,
    common: T,
    cool_sp: &Table<T>,
    peak_cooling: &Table<T>,
    cooling_factor: T,
)
    ensures
        final(flows)@ == raised_for_loops(
            old(flows)@,
            loops@,
            common,
            cool_sp@,
            peak_cooling@,
            cooling_factor,
            loops@.len(),
        ),
{
    let ghost start = flows@;
    for i in 0..loops.len()
        invariant
            flows@ == raised_for_loops(
                start,
                loops@,
                common,
                cool_sp@,
                peak_cooling@,
                cooling_factor,
                i as nat,
            ),
    {
        let supply = loops[i].cooling_supply_temp;
        if gt(absolute(minus(supply, common)), lit(5, 10)) {
            let served = &loops[i].served_zones;
            let ghost before = flows@;
            for j in 0..served.len()
                invariant
                    flows@ == raised_for_zones(
                        before,
                        served@,
                        supply,
                        cool_sp@,
                        peak_cooling@,
                        cooling_factor,
                        j as nat,
                    ),
            {
                raise_zone_flow(
                    flows,
                    served[j].as_str(),
                    supply,
                    cool_sp,
                    peak_cooling,
                    cooling_factor,
                );
            }
        }
    }
}

// ---------------------------------------------------------------------------
// Loop capacities

/// What the components of a loop are sized for.
#[derive(Clone, Copy, Debug)]
pub struct LoopSize<T> {
    /// Air flow [m3/s].
    pub flow: T,
    /// Heating capacity [W].
    pub heating: T,
    /// Cooling capacity [W].
    pub cooling: T,
}

/// The density of air at the site [kg/m3], from the pressure of the first design day.
pub open spec fn site_density<T: Scalar>(days: Seq<DesignDay<T>>) -> T {
    let pressure = if days.len() > 0 {
        days[0].pressure
    } else {
        num(101325)
    };
    over(pressure, times(lit(287042, 1000), lit(29315, 100)))
}

fn find_site_density<T: Scalar>(days: &Vec<DesignDay<T>>) -> (r: T)
    ensures
        r == site_density(days@),
{
    let pressure = if days.len() > 0 {
        days[0].pressure
    } else {
        num(101325)
    };
    over(pressure, times(lit(287042, 1000), lit(29315, 100)))
}

/// The extreme outdoor temperatures of some design days.
#[derive(Clone, Copy, Debug)]
pub struct DesignTemps<T> {
    /// The lowest temperature of the days for heating [C].
    pub winter: T,
    /// The highest temperature of the days for cooling [C].
    pub summer: T,
}

/// A design day for heating, by its type in lower case.
pub open spec fn is_heating_day(day_type: Seq<char>) -> bool {
    text::has_part(day_type, "heat"@) || text::has_part(day_type, "winter"@)
}

/// A design day for cooling, by its type in lower case.
pub open spec fn is_cooling_day(day_type: Seq<char>) -> bool {
    text::has_part(day_type, "cool"@) || text::has_part(day_type, "summer"@)
}

/// The extremes with one more design day of a type in lower case.
pub open spec fn with_day<T: Scalar>(
    temps: DesignTemps<T>,
    day_type: Seq<char>,
    design_temp: T,
) -> DesignTemps<T> {
    DesignTemps {
        winter: if is_heating_day(day_type) {
            least(temps.winter, design_temp)
        } else {
            temps.winter
        },
        summer: if is_cooling_day(day_type) {
            most(temps.summer, design_temp)
        } else {
            temps.summer
        },
    }
}

/// The extremes with one more design day, given its type in lower case.
pub fn add_design_day<T: Scalar>(
    temps: &DesignTemps<T>,
    day_type: &str,
    design_temp: T,
) -> (r: DesignTemps<T>)
    ensures
        r == with_day(*temps, day_type@, design_temp),
{
    let heating = contains(day_type, "heat") || contains(day_type, "winter");
    let cooling = contains(day_type, "cool") || contains(day_type, "summer");
    DesignTemps {
        winter: if heating {
            least(temps.winter, design_temp)
        } else {
            temps.winter
        },
        summer: if cooling {
            most(temps.summer, design_temp)
        } else {
            temps.summer
        },
    }
}

/// The extremes of the first `n` design days.
pub open spec fn extremes<T: Scalar>(days: Seq<DesignDay<T>>, n: nat) -> DesignTemps<T>
    decreases n,
{
    if n == 0 {
        DesignTemps { winter: T::unbounded(), summer: T::unbounded().opposite() }
    } else {
        with_day(
            extremes(days, (n - 1) as nat),
            text::lowercase(days[n - 1].day_type@),
            days[n - 1].design_temp,
        )
    }
}

/// The site that the components are sized for.
#[derive(Clone, Copy, Debug)]
pub struct SiteDesign<T> {
    /// The density of air [kg/m3].
    pub density: T,
    /// The outdoor temperature to heat from [C].
    pub winter: T,
    /// The outdoor temperature to cool from [C].
    pub summer: T,
}

/// The site by its design days: -20 C and 35 C where no day gives a temperature.
pub open spec fn site_design<T: Scalar>(days: Seq<DesignDay<T>>) -> SiteDesign<T> {
    let temps = extremes(days, days.len());
    SiteDesign {
        density: site_density(days),
        winter: if temps.winter.finite() {
            temps.winter
        } else {
            negated(num(20))
        },
        summer: if temps.summer.finite() {
            temps.summer
        } else {
            num(35)
        },
    }
}

/// The site by its design days. Their types are compared in lower case.
pub fn find_site_design<T: Scalar>(days: &Vec<DesignDay<T>>) -> (r: SiteDesign<T>)
    ensures
        r == site_design(days@),
{
    let mut temps = DesignTemps { winter: T::infinity(), summer: negated(T::infinity()) };
    for i in 0..days.len()
        invariant
            temps == extremes(days@, i as nat),
    {
        let day_type = to_lowercase(days[i].day_type.as_str());
        temps = add_design_day(&temps, day_type.as_str(), days[i].design_temp);
    }
    SiteDesign {
        density: find_site_density(days),
        winter: if temps.winter.is_finite() {
            temps.winter
        } else {
            negated(num(20))
        },
        summer: if temps.summer.is_finite() {
            temps.summer
        } else {
            num(35)
        },
    }
}

/// What a loop is sized for.
///
/// Single-zone and multiple-zone systems take the peaks of their zones. An outdoor air
/// system takes 30 % of the flow from design outdoor temperatures to 20 C and 18 C. Fan
/// coils take the peaks of their zones or what the coil does to the mixed air, if more.
pub open spec fn loop_size<T: Scalar>(
    li: LoopInfo<T>,
    peaks: ZonePeaks<T>,
    site: SiteDesign<T>,
    factors: SizingFactors<T>,
) -> LoopSize<T> {
    let served = li.served_zones@;
    let n = served.len();
    let airflow = zones::zone_total(served, peaks.airflow@, lit(1, 10), n);
    let heating = times(zones::zone_total(served, peaks.heating@, num(0), n), factors.heating);
    let cooling = times(zones::zone_total(served, peaks.cooling@, num(0), n), factors.cooling);
    match li.system_type {
        AirLoopSystemType::PszAc
        | AirLoopSystemType::Vav
        | AirLoopSystemType::DualDuct => LoopSize {
            flow: over(airflow, site.density),
            heating,
            cooling,
        },
        AirLoopSystemType::Doas => {
            let oa = times(airflow, lit(30, 100));
            let stream = times(oa, num(1005));
            LoopSize {
                flow: over(oa, site.density),
                heating: times(
                    times(stream, most(minus(num(20), site.winter), num(0))),
                    factors.heating,
                ),
                cooling: times(
                    times(stream, most(minus(site.summer, num(18)), num(0))),
                    factors.cooling,
                ),
            }
        },
        AirLoopSystemType::Fcu | AirLoopSystemType::Ptac | AirLoopSystemType::Pthp => {
            let stream = times(airflow, num(1005));
            let cold_mix = mixed_temp(num(21), site.winter, li.min_oa_fraction);
            let warm_mix = mixed_temp(num(24), site.summer, li.min_oa_fraction);
            LoopSize {
                flow: over(airflow, site.density),
                heating: most(
                    heating,
                    times(stream, most(minus(li.heating_supply_temp, cold_mix), num(0))),
                ),
                cooling: most(
                    cooling,
                    times(stream, most(minus(warm_mix, li.cooling_supply_temp), num(0))),
                ),
            }
        },
    }
}

/// What a loop is sized for at a site.
pub fn size_loop_at<T: Scalar>(
    li: &LoopInfo<T>,
    peaks: &ZonePeaks<T>,
    site: &SiteDesign<T>,
    factors: &SizingFactors<T>,
) -> (r: LoopSize<T>)
    ensures
        r == loop_size(*li, *peaks, *site, *factors),
{
    let served = &li.served_zones;
    let airflow = sum_over_zones(served, &peaks.airflow, lit(1, 10));
    let heating = times(sum_over_zones(served, &peaks.heating, num(0)), factors.heating);
    let cooling = times(sum_over_zones(served, &peaks.cooling, num(0)), factors.cooling);
    match li.system_type {
        AirLoopSystemType::PszAc
        | AirLoopSystemType::Vav
        | AirLoopSystemType::DualDuct => LoopSize {
            flow: over(airflow, site.density),
            heating,
            cooling,
        },
        AirLoopSystemType::Doas => {
            let oa = times(airflow, lit(30, 100));
            let stream = times(oa, num(1005));
            LoopSize {
                flow: over(oa, site.density),
                heating: times(
                    times(stream, most(minus(num(20), site.winter), num(0))),
                    factors.heating,
                ),
                cooling: times(
                    times(stream, most(minus(site.summer, num(18)), num(0))),
                    factors.cooling,
                ),
            }
        },
        AirLoopSystemType::Fcu | AirLoopSystemType::Ptac | AirLoopSystemType::Pthp => {
            let stream = times(airflow, num(1005));
            let cold_mix = mixed_temp(num(21), site.winter, li.min_oa_fraction);
            let warm_mix = mixed_temp(num(24), site.summer, li.min_oa_fraction);
            LoopSize {
                flow: over(airflow, site.density),
                heating: most(
                    heating,
                    times(stream, most(minus(li.heating_supply_temp, cold_mix), num(0))),
                ),
                cooling: most(
                    cooling,
                    times(stream, most(minus(warm_mix, li.cooling_supply_temp), num(0))),
                ),
            }
        },
    }
}

/// What a loop is sized for, by the design days.
pub fn size_loop<T: Scalar>(
    li: &LoopInfo<T>,
    peaks: &ZonePeaks<T>,
    days: &Vec<DesignDay<T>>,
    factors: &SizingFactors<T>,
) -> (r: LoopSize<T>)
    ensures
        r == loop_size(*li, *peaks, site_design(days@), *factors),
{
    let site = find_site_design(days);
    size_loop_at(li, peaks, &site, factors)
}

/// The sizes of the components of the first `n` loops; a component of several loops takes
/// the last one.
pub open spec fn component_sizes<T: Scalar>(
    loops: Seq<LoopInfo<T>>,
    peaks: ZonePeaks<T>,
    days: Seq<DesignDay<T>>,
    factors: SizingFactors<T>,
    n: nat,
) -> Map<Seq<char>, LoopSize<T>>
    decreases n,
{
    if n == 0 {
        Map::empty()
    } else {
        component_sizes(loops, peaks, days, factors, (n - 1) as nat).union_prefer_right(
            control::same_for_all(
                loops[n - 1].component_names@,
                loop_size(loops[n - 1], peaks, site_design(days), factors),
            ),
        )
    }
}

/// What each component of the loops is sized for.
pub fn size_components<T: Scalar>(
    loops: &Vec<LoopInfo<T>>,
    peaks: &ZonePeaks<T>,
    days: &Vec<DesignDay<T>>,
    factors: &SizingFactors<T>,
) -> (r: Table<LoopSize<T>>)
    ensures
        r@ == component_sizes(loops@, *peaks, days@, *factors, loops@.len()),
{
    let mut sizes: Table<LoopSize<T>> = Table::new();
    for i in 0..loops.len()
        invariant
            sizes@ == component_sizes(loops@, *peaks, days@, *factors, i as nat),
    {
        let size = size_loop(&loops[i], peaks, days, factors);
        let own = control::fill_table(&loops[i].component_names, size);
        sizes.merge(&own);
    }
    sizes
}

/// The capacities that a component whose capacity is to be sized gets.
#[derive(Clone, Copy, Debug)]
pub enum CapacitySize<T> {
    /// One capacity.
    Single(T),
    /// A cooling and a heating capacity.
    Both { cooling: T, heating: T },
    Nothing,
}

/// The name of a heating coil for sizing, in lower case: as for control, but a
/// chilled-water coil is none.
pub open spec fn sized_as_heating(name: Seq<char>) -> bool {
    ||| text::has_part(name, "heat"@)
    ||| text::has_part(name, "furnace"@)
    ||| text::has_part(name, "hw"@) && !text::has_part(name, "chw"@)
    ||| text::occurs_at(name, "hc "@, 0)
    ||| text::occurs_at(name, "hc_"@, 0)
}

/// The capacities for a component by its name in lower case.
pub open spec fn capacity_by_name<T: Scalar>(
    name: Seq<char>,
    size: LoopSize<T>,
) -> CapacitySize<T> {
    if sized_as_heating(name) {
        CapacitySize::Single(size.heating)
    } else if control::names_cooling(name) {
        CapacitySize::Single(size.cooling)
    } else if text::has_part(name, "gshp"@) {
        CapacitySize::Both { cooling: size.cooling, heating: size.heating }
    } else {
        CapacitySize::Nothing
    }
}

/// The capacities for a component by its name in lower case.
pub fn capacity_for<T: Scalar>(name: &str, size: &LoopSize<T>) -> (r: CapacitySize<T>)
    ensures
        r == capacity_by_name(name@, *size),
{
    if contains(name, "heat") || contains(name, "furnace") || (contains(name, "hw") && !contains(
        name,
        "chw",
    )) || starts_with(name, "hc ") || starts_with(name, "hc_") {
        CapacitySize::Single(size.heating)
    } else if is_cooling_name(name) {
        CapacitySize::Single(size.cooling)
    } else if contains(name, "gshp") {
        CapacitySize::Both { cooling: size.cooling, heating: size.heating }
    } else {
        CapacitySize::Nothing
    }
}

/// The capacities for a component whose capacity is to be sized. Names are compared in
/// lower case.
pub fn autosize_capacity<T: Scalar>(name: &str, size: &LoopSize<T>) -> (r: CapacitySize<T>)
    ensures
        r == capacity_by_name(text::lowercase(name@), *size),
{
    let lname = to_lowercase(name);
    capacity_for(lname.as_str(), size)
}

/// The air flow [kg/s] and reheat capacity [W] of the terminal box of a zone.
pub fn size_terminal<T: Scalar>(
    zone: &str,
    peaks: &ZonePeaks<T>,
    factors: &SizingFactors<T>,
) -> (r: (T, T))
    ensures
        r.0 == table::value_or(peaks.airflow@, zone@, lit(1, 10)),
        r.1 == times(table::value_or(peaks.heating@, zone@, num(0)), factors.heating),
{
    (
        peaks.airflow.get_or(zone, lit(1, 10)),
        times(peaks.heating.get_or(zone, num(0)), factors.heating),
    )
}

/// The design flow of the dual-duct box of a zone [kg/s]: as given, or sized where the
/// given one is not positive.
pub fn size_dual_duct_box<T: Scalar>(
    zone: &str,
    given: T,
    peaks: &ZonePeaks<T>,
    factors: &SizingFactors<T>,
) -> (r: T)
    ensures
        r == if le(given, num(0)) {
            most(
                times(table::value_or(peaks.airflow@, zone@, lit(1, 10)), factors.cooling),
                lit(1, 100),
            )
        } else {
            given
        },
{
    if le(given, num(0)) {
        most(times(peaks.airflow.get_or(zone, lit(1, 10)), factors.cooling), lit(1, 100))
    } else {
        given
    }
}

// ---------------------------------------------------------------------------
// Outdoor air after sizing

/// The people of a zone, all groups together, of the first `n`.
pub open spec fn people_total<T: Scalar>(people: Seq<model::PeopleInput<T>>, n: nat) -> T
    decreases n,
{
    if n == 0 {
        num(0)
    } else {
        plus(people_total(people, (n - 1) as nat), people[n - 1].count)
    }
}

/// The outdoor air that a zone asks for [m3/s], if it asks for any.
pub open spec fn zone_oa_flow<T: Scalar>(
    all_zones: Seq<ZoneInput<T>>,
    name: Seq<char>,
) -> Option<T> {
    match model::zone_place(all_zones, name, 0) {
        None => None,
        Some(place) => {
            let zone = all_zones[place as int];
            match zone.outdoor_air {
                None => None,
                Some(oa) => Some(
                    plus(
                        times(oa.per_person, people_total(zone.people@, zone.people@.len())),
                        times(oa.per_area, zone.floor_area),
                    ),
                ),
            }
        },
    }
}

/// The outdoor air that the first `n` zones of a list ask for, added up; nothing where none
/// of them asks.
pub open spec fn oa_flow_total<T: Scalar>(
    all_zones: Seq<ZoneInput<T>>,
    served: Seq<String>,
    n: nat,
) -> (bool, T)
    decreases n,
{
    if n == 0 {
        (false, num(0))
    } else {
        let (asked, rest) = oa_flow_total(all_zones, served, (n - 1) as nat);
        match zone_oa_flow(all_zones, served[n - 1]@) {
            Some(flow) => (true, plus(rest, flow)),
            None => (asked, rest),
        }
    }
}

/// The least outdoor air fraction of a loop once its fan is sized: by the needs of the
/// zones, unless the user gave one or the change is within a tenth of a percent.
pub open spec fn sized_oa_fraction<T: Scalar>(
    li: LoopInfo<T>,
    fan_flow: Option<T>,
    all_zones: Seq<ZoneInput<T>>,
) -> T {
    let (asked, total) = oa_flow_total(all_zones, li.served_zones@, li.served_zones@.len());
    match fan_flow {
        None => li.min_oa_fraction,
        Some(flow) => {
            let fraction = clamp(over(total, flow), num(0), num(1));
            if gt(flow, num(0)) && asked && !li.explicit_min_oa && gt(
                absolute(minus(fraction, li.min_oa_fraction)),
                lit(1, 1000),
            ) {
                fraction
            } else {
                li.min_oa_fraction
            }
        },
    }
}

fn find_zone_oa_flow<T: Scalar>(all_zones: &Vec<ZoneInput<T>>, name: &String) -> (r: Option<T>)
    ensures
        r == zone_oa_flow(all_zones@, name@),
{
    let place: usize = match find_zone(all_zones, name) {
        Some(i) => i,
        None => {
            return None;
        },
    };
    let zone = &all_zones[place];
    match zone.outdoor_air {
        None => None,
        Some(oa) => {
            let mut people: T = num(0);
            for i in 0..zone.people.len()
                invariant
                    people == people_total(zone.people@, i as nat),
            {
                people = plus(people, zone.people[i].count);
            }
            Some(plus(times(oa.per_person, people), times(oa.per_area, zone.floor_area)))
        },
    }
}

/// The least outdoor air fraction of a loop once its fan is sized to `fan_flow` [m3/s].
pub fn revise_oa_fraction<T: Scalar>(
    li: &LoopInfo<T>,
    fan_flow: Option<T>,
    all_zones: &Vec<ZoneInput<T>>,
) -> (r: T)
    ensures
        r == sized_oa_fraction(*li, fan_flow, all_zones@),
{
    let flow = match fan_flow {
        Some(flow) => flow,
        None => {
            return li.min_oa_fraction;
        },
    };
    let served = &li.served_zones;
    let mut asked = false;
    let mut total: T = num(0);
    for i in 0..served.len()
        invariant
            (asked, total) == oa_flow_total(all_zones@, served@, i as nat),
    {
        if let Some(need) = find_zone_oa_flow(all_zones, &served[i]) {
            asked = true;
            total = plus(total, need);
        }
    }
    let fraction = clamp(over(total, flow), num(0), num(1));
    if gt(flow, num(0)) && asked && !li.explicit_min_oa && gt(
        absolute(minus(fraction, li.min_oa_fraction)),
        lit(1, 1000),
    ) {
        fraction
    } else {
        li.min_oa_fraction
    }
}

} // verus!
