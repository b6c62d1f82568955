//! The iteration between the systems and the envelope within a timestep, and the warmup
//! before the first one.
use crate::air_loop::LoopInfo;
use crate::air_side::Supply;
use crate::control;
use crate::scalar;
use crate::scalar::{absolute, gt, le, lit, lt, minus, most, num, over, plus, times, Scalar};
use crate::table;
use crate::table::Table;
use vstd::prelude::*;
use vstd::string::*;

verus! {

/// At most how often the systems are run in a timestep.
pub const MAX_HVAC_ITER: usize = 10;

/// At most how many weeks of warmup are run.
pub const MAX_WARMUP_REPS: u32 = 4;

/// The hours of weather that the warmup repeats.
pub const WARMUP_HOURS: u32 = 168;

// ---------------------------------------------------------------------------
// Damping

/// The mean of two supplies: flows on average, and temperature and humidity weighted by
/// flow, or plain where there is no flow to speak of.
pub open spec fn averaged<T: Scalar>(now: Supply<T>, before: Supply<T>) -> Supply<T> {
    let half: T = lit(5, 10);
    let flow = plus(times(half, now.flow), times(half, before.flow));
    let (temp, w) = if gt(flow, lit(1, 1_000_000)) {
        (
            over(
                plus(
                    times(times(half, now.flow), now.temp),
                    times(times(half, before.flow), before.temp),
                ),
                flow,
            ),
            over(
                plus(
                    times(times(half, now.flow), now.w),
                    times(times(half, before.flow), before.w),
                ),
                flow,
            ),
        )
    } else {
        (
            plus(times(half, now.temp), times(half, before.temp)),
            plus(times(half, now.w), times(half, before.w)),
        )
    };
    Supply { temp, flow, w }
}

pub fn average_supply<T: Scalar>(now: &Supply<T>, before: &Supply<T>) -> (r: Supply<T>)
    ensures
        r == averaged(*now, *before),
{
    let half: T = lit(5, 10);
    let m = times(half, now.flow);
    let pm = times(half, before.flow);
    let flow = plus(m, pm);
    if gt(flow, lit(1, 1_000_000)) {
        Supply {
            temp: over(plus(times(m, now.temp), times(pm, before.temp)), flow),
            flow,
            w: over(plus(times(m, now.w), times(pm, before.w)), flow),
        }
    } else {
        Supply {
            temp: plus(times(half, now.temp), times(half, before.temp)),
            flow,
            w: plus(times(half, now.w), times(half, before.w)),
        }
    }
}

/// The supply of each zone, averaged with that of the iteration before, where there is one.
pub open spec fn damped<T: Scalar>(
    now: Map<Seq<char>, Supply<T>>,
    before: Map<Seq<char>, Supply<T>>,
) -> Map<Seq<char>, Supply<T>> {
    Map::new(
        |zone: Seq<char>| now.contains_key(zone),
        |zone: Seq<char>|
            if before.contains_key(zone) {
                averaged(now[zone], before[zone])
            } else {
                now[zone]
            },
    )
}

/// Damps the supplies of the zones, so that systems which cycle settle. `before` is empty in
/// the first iteration.
pub fn damp_supplies<T: Scalar>(
    now: &Table<Supply<T>>,
    before: &Table<Supply<T>>,
) -> (r: Table<Supply<T>>)
    ensures
        r@ == damped(now@, before@),
{
    let mut result: Table<Supply<T>> = Table::new();
    let ghost all = damped(now@, before@);
    for i in 0..now.entries.len()
        invariant
            all == damped(now@, before@),
            forall|zone: Seq<char>| #[trigger]
                result@.contains_key(zone) <==> table::is_filed(
                    now.entries@.take(i as int),
                    zone,
                ),
            forall|zone: Seq<char>| #[trigger]
                result@.contains_key(zone) ==> all.contains_key(zone) && result@[zone]
                    == all[zone],
    {
        proof {
            table::filed_one_more(now.entries@, i as int);
            table::filed_is_mapped(now.entries@, i as int);
        }
        let zone = now.entries[i].0.as_str();
        if let Some(supply) = now.get(zone) {
            let value = match before.get(zone) {
                Some(old_supply) => average_supply(supply, old_supply),
                None => *supply,
            };
            result.insert(zone, value);
        }
    }
    proof {
        assert(now.entries@.take(now.entries@.len() as int) =~= now.entries@);
        table::filed_iff_mapped(*now);
        assert(result@ =~= all);
    }
    result
}

// ---------------------------------------------------------------------------
// Convergence

/// The largest change of temperature among zones; a zone that is new has not changed.
pub open spec fn largest_change<T: Scalar>(
    now: Seq<(Seq<char>, T)>,
    before: Map<Seq<char>, T>,
) -> T
    decreases now.len(),
{
    if now.len() == 0 {
        num(0)
    } else {
        let (name, temp) = now.last();
        most(
            largest_change(now.drop_last(), before),
            absolute(minus(temp, table::value_or(before, name, temp))),
        )
    }
}

/// Whether the zone temperatures have settled to within 0.05 K.
pub fn has_settled<T: Scalar>(now: &Table<T>, before: &Table<T>) -> (r: bool)
    ensures
        r == le(largest_change(now.listed(), before@), lit(5, 100)),
{
    let ghost all = now.entries@;
    let mut change: T = num(0);
    for i in 0..now.entries.len()
        invariant
            all == now.entries@,
            change == largest_change(table::listed_of(all.take(i as int)), before@),
    {
        proof {
            table::listed_one_more(all, i as int);
        }
        if !now.is_repeat(i) {
            let temp = now.entries[i].1;
            let earlier = before.get_or(now.entries[i].0.as_str(), temp);
            change = most(change, absolute(minus(temp, earlier)));
            assert(table::listed_of(all.take(i + 1)).drop_last() =~= table::listed_of(
                all.take(i as int),
            ));
        }
    }
    assert(all.take(all.len() as int) =~= all);
    le(change, lit(5, 100))
}

/// Whether the systems are to be run once more, after `done` runs in this timestep.
pub fn iterate_again(done: usize, settled: bool) -> (r: bool)
    ensures
        r == (done < MAX_HVAC_ITER && !settled),
{
    done < MAX_HVAC_ITER && !settled
}

/// The largest change of temperature among the first `n` zones of two lists.
pub open spec fn weekly_change<T: Scalar>(now: Seq<T>, before: Seq<T>, n: nat) -> T
    decreases n,
{
    if n == 0 {
        num(0)
    } else {
        most(
            weekly_change(now, before, (n - 1) as nat),
            absolute(minus(now[n - 1], before[n - 1])),
        )
    }
}

/// Whether the warmup is over: the zone temperatures changed by less than half a degree in a
/// week.
pub fn warmup_is_over<T: Scalar>(now: &Vec<T>, before: &Vec<T>) -> (r: bool)
    requires
        now@.len() == before@.len(),
    ensures
        r == lt(weekly_change(now@, before@, now@.len()), lit(5, 10)),
{
    let mut change: T = num(0);
    for i in 0..now.len()
        invariant
            now@.len() == before@.len(),
            change == weekly_change(now@, before@, i as nat),
    {
        change = most(change, absolute(minus(now[i], before[i])));
    }
    lt(change, lit(5, 10))
}

/// The hour of weather before hour `hour` of the warmup; the week is repeated.
pub fn previous_warmup_hour(hour: u32) -> (r: u32)
    requires
        hour < WARMUP_HOURS,
    ensures
        r == if hour > 0 {
            (hour - 1) as u32
        } else {
            (WARMUP_HOURS - 1) as u32
        },
{
    if hour > 0 {
        hour - 1
    } else {
        WARMUP_HOURS - 1
    }
}

// ---------------------------------------------------------------------------
// What the envelope is told

/// A VRF indoor unit that runs, with the air that it supplies.
pub struct VrfSupply<T> {
    pub zone: String,
    pub supply: Supply<T>,
}

/// The supplies of conditioned zones.
pub open spec fn conditioned_only<T>(
    supplies: Map<Seq<char>, Supply<T>>,
    conditioned: Map<Seq<char>, bool>,
) -> Map<Seq<char>, Supply<T>> {
    Map::new(
        |zone: Seq<char>|
            supplies.contains_key(zone) && table::value_or(conditioned, zone, true),
        |zone: Seq<char>| supplies[zone],
    )
}

/// `supplies` with those of the first `n` VRF units that have any flow.
pub open spec fn with_vrf<T: Scalar>(
    supplies: Map<Seq<char>, Supply<T>>,
    units: Seq<VrfSupply<T>>,
    n: nat,
) -> Map<Seq<char>, Supply<T>>
    decreases n,
{
    if n == 0 {
        supplies
    } else {
        let rest = with_vrf(supplies, units, (n - 1) as nat);
        if gt(units[n - 1].supply.flow, lit(1, 1_000_000_000)) {
            rest.insert(units[n - 1].zone@, units[n - 1].supply)
        } else {
            rest
        }
    }
}

/// What the envelope is told of the supply of each zone: the damped supply of its loops, if
/// it is conditioned, or that of its VRF unit. A zone not in `conditioned` counts as
/// conditioned.
pub fn envelope_supplies<T: Scalar>(
    supplies: &Table<Supply<T>>,
    conditioned: &Table<bool>,
    units: &Vec<VrfSupply<T>>,
) -> (r: Table<Supply<T>>)
    ensures
        r@ == with_vrf(conditioned_only(supplies@, conditioned@), units@, units@.len()),
{
    let mut result: Table<Supply<T>> = Table::new();
    let ghost wanted = conditioned_only(supplies@, conditioned@);
    for i in 0..supplies.entries.len()
        invariant
            wanted == conditioned_only(supplies@, conditioned@),
            forall|zone: Seq<char>| #[trigger]
                result@.contains_key(zone) <==> table::is_filed(
                    supplies.entries@.take(i as int),
                    zone,
                ) && table::value_or(conditioned@, zone, true),
            forall|zone: Seq<char>| #[trigger]
                result@.contains_key(zone) ==> supplies@.contains_key(zone) && result@[zone]
                    == supplies@[zone],
    {
        proof {
            table::filed_one_more(supplies.entries@, i as int);
            table::filed_is_mapped(supplies.entries@, i as int);
        }
        let zone = supplies.entries[i].0.as_str();
        if conditioned.get_or(zone, true) {
            if let Some(supply) = supplies.get(zone) {
                result.insert(zone, *supply);
            }
        }
    }
    proof {
        assert(supplies.entries@.take(supplies.entries@.len() as int) =~= supplies.entries@);
        table::filed_iff_mapped(*supplies);
        assert(result@ =~= wanted);
    }
    for i in 0..units.len()
        invariant
            result@ == with_vrf(wanted, units@, i as nat),
    {
        if gt(units[i].supply.flow, lit(1, 1_000_000_000)) {
            result.insert(units[i].zone.as_str(), units[i].supply);
        }
    }
    result
}

/// A loop brings in outdoor air, so that its zones need none of their own.
#[verifier::allow_in_spec]
pub fn handles_outdoor_air<T: Scalar>(min_oa_fraction: T) -> bool
    returns
        gt(min_oa_fraction, lit(1, 1000)),
{
    gt(min_oa_fraction, lit(1, 1000))
}

/// For the zones of the first `n` loops, whether their loop brings in outdoor air; the last
/// loop of a zone counts.
pub open spec fn outdoor_air_handled<T: Scalar>(
    loops: Seq<LoopInfo<T>>,
    n: nat,
) -> Map<Seq<char>, bool>
    decreases n,
{
    if n == 0 {
        Map::empty()
    } else {
        outdoor_air_handled(loops, (n - 1) as nat).union_prefer_right(
            control::same_for_all(
                loops[n - 1].served_zones@,
                handles_outdoor_air(loops[n - 1].min_oa_fraction),
            ),
        )
    }
}

/// For each zone of the loops, whether its loop brings in outdoor air.
pub fn outdoor_air_flags<T: Scalar>(loops: &Vec<LoopInfo<T>>) -> (r: Table<bool>)
    ensures
        r@ == outdoor_air_handled(loops@, loops@.len()),
{
    let mut flags: Table<bool> = Table::new();
    for i in 0..loops.len()
        invariant
            flags@ == outdoor_air_handled(loops@, i as nat),
    {
        let own = control::fill_table(
            &loops[i].served_zones,
            handles_outdoor_air(loops[i].min_oa_fraction),
        );
        flags.merge(&own);
    }
    flags
}

/// The ideal loads of a zone after the envelope was solved.
pub struct ZoneLoads<T> {
    pub name: String,
    pub conditioned: bool,
    pub heating: T,
    pub cooling: T,
}

/// `loads` with those of the first `n` zones that are conditioned; `heating` says which.
pub open spec fn with_loads<T>(
    loads: Map<Seq<char>, T>,
    zones: Seq<ZoneLoads<T>>,
    heating: bool,
    n: nat,
) -> Map<Seq<char>, T>
    decreases n,
{
    if n == 0 {
        loads
    } else {
        let rest = with_loads(loads, zones, heating, (n - 1) as nat);
        let z = zones[n - 1];
        if z.conditioned {
            rest.insert(
                z.name@,
                if heating {
                    z.heating
                } else {
                    z.cooling
                },
            )
        } else {
            rest
        }
    }
}

/// Takes up the ideal loads of the conditioned zones for the next iteration.
pub fn update_loads<T: Scalar>(
    heating: &mut Table<T>,
    cooling: &mut Table<T>,
    zones: &Vec<ZoneLoads<T>>,
)
    ensures
        final(heating)@ == with_loads(old(heating)@, zones@, true, zones@.len()),
        final(cooling)@ == with_loads(old(cooling)@, zones@, false, zones@.len()),
{
    let ghost h = heating@;
    let ghost c = cooling@;
    for i in 0..zones.len()
        invariant
            heating@ == with_loads(h, zones@, true, i as nat),
            cooling@ == with_loads(c, zones@, false, i as nat),
    {
        if zones[i].conditioned {
            heating.insert(zones[i].name.as_str(), zones[i].heating);
            cooling.insert(zones[i].name.as_str(), zones[i].cooling);
        }
    }
}

} // verus!
