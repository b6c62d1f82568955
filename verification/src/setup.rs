//! What is decided before a run: which runs there are, which weather they use, the hours
//! they cover, and the setpoints and design values of the zones.
use crate::air_loop::ControlSignals;
use crate::calendar;
use crate::calendar::day_of_year;
use crate::loop_results;
use crate::model::AirLoopInput;
use crate::scalar;
use crate::scalar::{count, lit, lt, minus, negated, num, over, plus, times, Scalar};
use crate::table;
use crate::table::Table;
use crate::text;
use crate::text::{is_listed, same_text};
use vstd::prelude::*;
use vstd::string::*;

verus! {

// ---------------------------------------------------------------------------
// Runs and weather

/// Which runs are made of a model.
#[derive(Clone, Copy, Debug, PartialEq, Eq, Structural)]
pub enum RunPlan {
    /// The model as it is.
    Single,
    /// The given number of parametric runs.
    Parametric(usize),
}

/// Which runs are made: the parametric ones, where they are switched on and there are any.
pub fn plan_runs(run_parametrics: bool, defined: Option<usize>) -> (r: RunPlan)
    ensures
        r == match defined {
            Some(n) => if run_parametrics && n > 0 {
                RunPlan::Parametric(n)
            } else {
                RunPlan::Single
            },
            None => RunPlan::Single,
        },
{
    match defined {
        Some(n) => if run_parametrics && n > 0 {
            RunPlan::Parametric(n)
        } else {
            RunPlan::Single
        },
        None => RunPlan::Single,
    }
}

/// Where the weather of a run comes from.
#[derive(Clone, Copy, Debug, PartialEq, Eq, Structural)]
pub enum WeatherSource {
    /// The file given by the user.
    CommandLine,
    /// The first file of the model.
    Model,
    Missing,
}

/// Where the weather of a run comes from: the user's file goes before those of the model.
pub fn weather_source(given: bool, in_model: usize) -> (r: WeatherSource)
    ensures
        r == if given {
            WeatherSource::CommandLine
        } else if in_model > 0 {
            WeatherSource::Model
        } else {
            WeatherSource::Missing
        },
{
    if given {
        WeatherSource::CommandLine
    } else if in_model > 0 {
        WeatherSource::Model
    } else {
        WeatherSource::Missing
    }
}

/// The place of the smallest of the first `n` depths, the first one among equals.
pub open spec fn smallest<T: Scalar>(depths: Seq<T>, n: nat) -> Option<nat>
    decreases n,
{
    if n == 0 {
        None
    } else {
        match smallest(depths, (n - 1) as nat) {
            None => Some((n - 1) as nat),
            Some(best) => if lt(depths[n - 1], depths[best as int]) {
                Some((n - 1) as nat)
            } else {
                Some(best)
            },
        }
    }
}

/// The place of the shallowest ground temperature profile.
pub fn shallowest<T: Scalar>(depths: &Vec<T>) -> (r: Option<usize>)
    ensures
        match r {
            Some(i) => i < depths@.len() && smallest(depths@, depths@.len()) == Some(i as nat),
            None => depths@.len() == 0,
        },
{
    let mut best: Option<usize> = None;
    for i in 0..depths.len()
        invariant
            match best {
                Some(b) => b < i && smallest(depths@, i as nat) == Some(b as nat),
                None => i == 0,
            },
    {
        best = match best {
            None => Some(i),
            Some(b) => if lt(depths[i], depths[b]) {
                Some(i)
            } else {
                Some(b)
            },
        };
    }
    best
}

// ---------------------------------------------------------------------------
// Time

/// The hours of the year that a run covers, from `start` up to but not including `end`.
#[derive(Clone, Copy, Debug, PartialEq, Eq, Structural)]
pub struct RunHours {
    pub start: u32,
    pub end: u32,
}

/// The hour at which a date begins.
pub open spec fn first_hour(month: u32, day: u32, dims: Seq<u32>) -> int {
    (calendar::days_to(dims, (month - 1) as nat) + day - 1) * 24
}

/// The hours from the first to the last date of a run, both included, as far as there is
/// weather.
pub fn run_hours(
    start_month: u32,
    start_day: u32,
    end_month: u32,
    end_day: u32,
    weather_hours: u32,
    dims: &[u32; 12],
) -> (r: RunHours)
    requires
        1 <= start_month <= 12,
        1 <= end_month <= 12,
        start_day >= 1,
        end_day >= 1,
        first_hour(start_month, start_day, dims@) <= u32::MAX,
        first_hour(end_month, end_day, dims@) + 24 <= u32::MAX,
    ensures
        r.start == first_hour(start_month, start_day, dims@),
        r.end == if first_hour(end_month, end_day, dims@) + 24 < weather_hours {
            first_hour(end_month, end_day, dims@) + 24
        } else {
            weather_hours as int
        },
{
    let start: u32 = day_of_year(start_month, start_day, dims) * 24;
    let end: u32 = (day_of_year(end_month, end_day, dims) + 1) * 24;
    RunHours {
        start,
        end: if end < weather_hours {
            end
        } else {
            weather_hours
        },
    }
}

/// How many timesteps a run has.
pub fn total_timesteps(hours: &RunHours, per_hour: u32) -> (r: u32)
    requires
        hours.start <= hours.end,
        (hours.end - hours.start) * per_hour <= u32::MAX,
    ensures
        r == (hours.end - hours.start) * per_hour,
{
    (hours.end - hours.start) * per_hour
}

/// The hour of weather before hour `hour`; before the first hour of the year it is the last.
pub fn previous_hour(hour: u32, weather_hours: u32) -> (r: u32)
    requires
        hour < weather_hours,
    ensures
        r == if hour > 0 {
            (hour - 1) as u32
        } else {
            (weather_hours - 1) as u32
        },
{
    if hour > 0 {
        hour - 1
    } else {
        weather_hours - 1
    }
}

/// The hour of the day, from 1 to 24.
pub fn hour_of_day(hour_of_year: u32) -> (r: u32)
    ensures
        r == hour_of_year % 24 + 1,
        1 <= r <= 24,
{
    hour_of_year % 24 + 1
}

/// How far the end of a timestep within its hour is: from 0 to 1.
#[verifier::allow_in_spec]
pub fn step_share<T: Scalar>(step: u32, per_hour: u32) -> T
    returns
        over(T::whole(step as nat), T::whole(per_hour as nat)),
{
    over(count(step as usize), count(per_hour as usize))
}

/// Whether progress is reported at an hour: a week after the last report, and at the first
/// hour of the run.
pub fn report_progress(hour: u32, start: u32, last_day: u32) -> (r: bool)
    requires
        last_day <= u32::MAX - 7,
    ensures
        r == (hour / 24 >= last_day + 7 || (hour / 24 == start / 24 && hour % 24 == 0)),
{
    hour / 24 >= last_day + 7 || (hour / 24 == start / 24 && hour % 24 == 0)
}

/// Some holiday is on the date.
pub open spec fn is_holiday(holidays: Seq<(u32, u32)>, month: u32, day: u32) -> bool {
    exists|i: int| 0 <= i < holidays.len() && #[trigger] holidays[i] == (month, day)
}

/// The kind of day for schedules: the day of the week, or 8 for a holiday.
pub fn schedule_day(
    day_of_week: u32,
    holidays: &Vec<(u32, u32)>,
    month: u32,
    day: u32,
) -> (r: u32)
    ensures
        r == if is_holiday(holidays@, month, day) {
            8
        } else {
            day_of_week
        },
{
    for i in 0..holidays.len()
        invariant
            forall|k: int| 0 <= k < i ==> #[trigger] holidays@[k] != (month, day),
    {
        if holidays[i].0 == month && holidays[i].1 == day {
            assert(holidays@[i as int] == (month, day));
            return 8;
        }
    }
    day_of_week
}

/// Solar time in the middle of an hour: clock time, corrected for the distance from the
/// meridian of the time zone and by the equation of time.
#[verifier::allow_in_spec]
pub fn solar_hour<T: Scalar>(hour_of_year: u32, time_zone: T, longitude: T, equation_of_time: T) -> T
    returns
        plus(
            plus(
                plus(T::whole((hour_of_year % 24) as nat), lit(5, 10)),
                minus(time_zone, over(longitude, num(15))),
            ),
            equation_of_time,
        ),
{
    plus(
        plus(
            plus(count((hour_of_year % 24) as usize), lit(5, 10)),
            minus(time_zone, over(longitude, num(15))),
        ),
        equation_of_time,
    )
}

// ---------------------------------------------------------------------------
// Setpoints

/// A thermostat.
pub struct Thermostat<T> {
    pub zones: Vec<String>,
    pub heating_setpoint: T,
    pub cooling_setpoint: T,
}

/// `values` with `value` for each of the first `n` zones of a list.
pub open spec fn set_for<T>(
    values: Map<Seq<char>, T>,
    zones: Seq<String>,
    value: T,
    n: nat,
) -> Map<Seq<char>, T>
    decreases n,
{
    if n == 0 {
        values
    } else {
        set_for(values, zones, value, (n - 1) as nat).insert(zones[n - 1]@, value)
    }
}

/// The heating (or cooling) setpoints by the first `n` thermostats; the last thermostat of a
/// zone counts.
pub open spec fn setpoints_by<T>(
    thermostats: Seq<Thermostat<T>>,
    heating: bool,
    n: nat,
) -> Map<Seq<char>, T>
    decreases n,
{
    if n == 0 {
        Map::empty()
    } else {
        let t = thermostats[n - 1];
        set_for(
            setpoints_by(thermostats, heating, (n - 1) as nat),
            t.zones@,
            if heating {
                t.heating_setpoint
            } else {
                t.cooling_setpoint
            },
            t.zones@.len(),
        )
    }
}

/// The heating and the cooling setpoints of the zones.
pub fn zone_setpoints<T: Scalar>(thermostats: &Vec<Thermostat<T>>) -> (r: (Table<T>, Table<T>))
    ensures
        r.0@ == setpoints_by(thermostats@, true, thermostats@.len()),
        r.1@ == setpoints_by(thermostats@, false, thermostats@.len()),
{
    let mut heating: Table<T> = Table::new();
    let mut cooling: Table<T> = Table::new();
    for i in 0..thermostats.len()
        invariant
            heating@ == setpoints_by(thermostats@, true, i as nat),
            cooling@ == setpoints_by(thermostats@, false, i as nat),
    {
        let t = &thermostats[i];
        let ghost h = heating@;
        let ghost c = cooling@;
        for j in 0..t.zones.len()
            invariant
                heating@ == set_for(h, t.zones@, t.heating_setpoint, j as nat),
                cooling@ == set_for(c, t.zones@, t.cooling_setpoint, j as nat),
        {
            heating.insert(t.zones[j].as_str(), t.heating_setpoint);
            cooling.insert(t.zones[j].as_str(), t.cooling_setpoint);
        }
    }
    (heating, cooling)
}

/// The cooling setpoint of the first thermostat, from place `from` on, that lists the zone.
pub open spec fn first_cooling_setpoint<T>(
    thermostats: Seq<Thermostat<T>>,
    zone: Seq<char>,
    from: nat,
) -> Option<T>
    decreases thermostats.len() - from,
{
    if from >= thermostats.len() {
        None
    } else if text::listed(thermostats[from as int].zones@, zone) {
        Some(thermostats[from as int].cooling_setpoint)
    } else {
        first_cooling_setpoint(thermostats, zone, from + 1)
    }
}

/// The cooling setpoint that a zone is sized for: that of the first thermostat that lists it.
pub fn sizing_cooling_setpoint<T: Scalar>(
    thermostats: &Vec<Thermostat<T>>,
    zone: &str,
) -> (r: Option<T>)
    ensures
        r == first_cooling_setpoint(thermostats@, zone@, 0),
{
    for i in 0..thermostats.len()
        invariant
            first_cooling_setpoint(thermostats@, zone@, 0) == first_cooling_setpoint(
                thermostats@,
                zone@,
                i as nat,
            ),
    {
        if is_listed(&thermostats[i].zones, zone) {
            return Some(thermostats[i].cooling_setpoint);
        }
    }
    None
}

/// Files a value under a name that has none yet.
pub fn set_if_missing<T: Scalar>(values: &mut Table<T>, name: &str, value: T)
    ensures
        final(values)@ == if old(values)@.contains_key(name@) {
            old(values)@
        } else {
            old(values)@.insert(name@, value)
        },
{
    if !values.contains_key(name) {
        values.insert(name, value);
    }
}

// ---------------------------------------------------------------------------
// Design values of zones

/// `flows` with the design flow of a loop for the first `n` of its zones.
pub open spec fn with_loop_flow<T>(
    flows: Map<Seq<char>, T>,
    al: AirLoopInput<T>,
    n: nat,
) -> Map<Seq<char>, T>
    decreases n,
{
    if n == 0 {
        flows
    } else {
        with_loop_flow(flows, al, (n - 1) as nat).insert(
            al.zone_terminals@[n - 1].zone@,
            al.design_zone_flow,
        )
    }
}

/// The design flows of the zones of the first `n` loops.
pub open spec fn loop_flows<T>(loops: Seq<AirLoopInput<T>>, n: nat) -> Map<Seq<char>, T>
    decreases n,
{
    if n == 0 {
        Map::empty()
    } else {
        with_loop_flow(
            loop_flows(loops, (n - 1) as nat),
            loops[n - 1],
            loops[n - 1].zone_terminals@.len(),
        )
    }
}

/// The design flow of each zone by the loop that serves it.
pub fn zone_design_flows<T: Scalar>(loops: &Vec<AirLoopInput<T>>) -> (r: Table<T>)
    ensures
        r@ == loop_flows(loops@, loops@.len()),
{
    let mut flows: Table<T> = Table::new();
    for i in 0..loops.len()
        invariant
            flows@ == loop_flows(loops@, i as nat),
    {
        let al = &loops[i];
        let ghost start = flows@;
        for j in 0..al.zone_terminals.len()
            invariant
                flows@ == with_loop_flow(start, *al, j as nat),
        {
            flows.insert(al.zone_terminals[j].zone.as_str(), al.design_zone_flow);
        }
    }
    flows
}

/// The heat capacity of the air of a zone per timestep [W/K], with the factor 11/6 of the
/// third-order backward difference that the zone balance uses.
#[verifier::allow_in_spec]
pub fn zone_capacity<T: Scalar>(density: T, volume: T, dt: T) -> T
    returns
        over(
            times(times(times(density, volume), num(1006)), over(num(11), num(6))),
            dt,
        ),
{
    over(times(times(times(density, volume), num(1006)), over(num(11), num(6))), dt)
}

// ---------------------------------------------------------------------------
// Results

/// The results with one output of a component set.
pub open spec fn with_output<T>(
    results: Map<Seq<char>, Map<Seq<char>, T>>,
    name: Seq<char>,
    key: Seq<char>,
    value: T,
) -> Map<Seq<char>, Map<Seq<char>, T>> {
    results.insert(name, table::value_or(results, name, Map::empty()).insert(key, value))
}

/// Sets one output of a component, which need not have results yet.
pub fn set_output<T: Scalar>(results: &mut Table<Table<T>>, name: &str, key: &str, value: T)
    ensures
        loop_results::outputs_of(*final(results)) == with_output(
            loop_results::outputs_of(*old(results)),
            name@,
            key@,
            value,
        ),
{
    let ghost before = loop_results::outputs_of(*results);
    let mut own: Table<T> = Table::new();
    if let Some(present) = results.get(name) {
        own.merge(present);
        assert(own@ =~= present@);
    }
    assert(own@ =~= table::value_or(before, name@, Map::empty()));
    own.insert(key, value);
    results.insert(name, own);
    assert(loop_results::outputs_of(*results) =~= with_output(before, name@, key@, value));
}

/// One output of all components that have it, but for the weather.
pub open spec fn collected<T>(
    results: Map<Seq<char>, Table<T>>,
    key: Seq<char>,
) -> Map<Seq<char>, T> {
    Map::new(
        |name: Seq<char>|
            name != "Weather"@ && results.contains_key(name) && results[name]@.contains_key(key),
        |name: Seq<char>| results[name]@[key],
    )
}

/// One output of all components that have it, by their names.
pub fn collect_output<T: Scalar>(results: &Table<Table<T>>, key: &str) -> (r: Table<T>)
    ensures
        r@ == collected(results@, key@),
{
    let ghost all = results.entries@;
    let ghost wanted = collected(results@, key@);
    let mut values: Table<T> = Table::new();
    for i in 0..results.entries.len()
        invariant
            all == results.entries@,
            wanted == collected(results@, key@),
            forall|name: Seq<char>| #[trigger]
                values@.contains_key(name) <==> wanted.contains_key(name) && table::is_filed(
                    all.take(i as int),
                    name,
                ),
            forall|name: Seq<char>| #[trigger]
                values@.contains_key(name) ==> values@[name] == wanted[name],
    {
        proof {
            table::filed_one_more(all, i as int);
            table::filed_is_mapped(all, i as int);
        }
        let name = results.entries[i].0.as_str();
        if !same_text(name, "Weather") {
            if let Some(outputs) = results.get(name) {
                if let Some(v) = outputs.get(key) {
                    values.insert(name, *v);
                }
            }
        }
    }
    proof {
        assert(all.take(all.len() as int) =~= all);
        table::filed_iff_mapped(*results);
        assert(values@ =~= wanted);
    }
    values
}

/// A fixed setpoint of the model, of a component or of a plant loop.
pub struct FixedSetpoint<T> {
    pub name: String,
    pub value: T,
}

/// The first `n` setpoints by their names; the last one under a name counts.
pub open spec fn fixed_setpoints<T>(setpoints: Seq<FixedSetpoint<T>>, n: nat) -> Map<Seq<char>, T>
    decreases n,
{
    if n == 0 {
        Map::empty()
    } else {
        fixed_setpoints(setpoints, (n - 1) as nat).insert(
            setpoints[n - 1].name@,
            setpoints[n - 1].value,
        )
    }
}

fn file_setpoints<T: Scalar>(setpoints: &Vec<FixedSetpoint<T>>) -> (r: Table<T>)
    ensures
        r@ == fixed_setpoints(setpoints@, setpoints@.len()),
{
    let mut filed: Table<T> = Table::new();
    for i in 0..setpoints.len()
        invariant
            filed@ == fixed_setpoints(setpoints@, i as nat),
    {
        filed.insert(setpoints[i].name.as_str(), setpoints[i].value);
    }
    filed
}

/// The control signals of a model without an envelope: the fixed setpoints of its components
/// and the supply temperatures of its plant loops.
pub fn fixed_signals<T: Scalar>(
    setpoints: &Vec<FixedSetpoint<T>>,
    plant_loops: &Vec<FixedSetpoint<T>>,
) -> (r: ControlSignals<T>)
    ensures
        r.coil_setpoints@ == fixed_setpoints(setpoints@, setpoints@.len()),
        r.plant_loop_setpoints@ == fixed_setpoints(plant_loops@, plant_loops@.len()),
        r.air_mass_flows@ == Map::<Seq<char>, T>::empty(),
        r.zone_air_flows@ == Map::<Seq<char>, T>::empty(),
        r.zone_supply_temps@ == Map::<Seq<char>, T>::empty(),
        r.plant_loads@ == Map::<Seq<char>, T>::empty(),
        r.sat_setpoint == num::<T>(0),
{
    let empty = ControlSignals::new();
    ControlSignals {
        coil_setpoints: file_setpoints(setpoints),
        plant_loop_setpoints: file_setpoints(plant_loops),
        ..empty
    }
}

/// The annual heat balance of a zone, which is about zero: what it gained by convection and
/// from its system, less what it lost through surfaces and by infiltration.
#[verifier::allow_in_spec]
pub fn heat_balance<T: Scalar>(surface_loss: T, infiltration_loss: T, convected: T, hvac: T) -> T
    returns
        plus(plus(minus(negated(surface_loss), infiltration_loss), convected), hvac),
{
    plus(plus(minus(negated(surface_loss), infiltration_loss), convected), hvac)
}

} // verus!
