//! An air loop in a timestep: how it begins, and how it is settled once its components have
//! run.
use crate::air_loop::{ControlSignals, LoopInfo};
use crate::air_side;
use crate::air_side::{
    effective_min_oa, is_switched_off, predict_modes, reset_supply_temps, AirStream, Supply,
};
use crate::control::HvacMode;
use crate::loop_results;
use crate::loop_results::{
    continuous_fan_heat_rise, credit_outputs, delivered_air, heat_recovery_credit,
    heat_recovery_flow, heat_recovery_outputs, loop_part_load, scale_results, ScalingRule,
};
use crate::scalar;
use crate::scalar::{gt, num, times, Scalar};
use crate::table::Table;
use crate::zones::ZoneData;
use vstd::prelude::*;
use vstd::string::*;

verus! {

/// A loop that is to run in this timestep.
pub struct LoopStart<T> {
    /// The least outdoor air fraction.
    pub min_oa: T,
    /// The predicted mode of each zone.
    pub modes: Table<HvacMode>,
}

/// The night-cycle timers once the availability of a loop is known: a loop that a schedule
/// switches, on or off, has its timer at zero, for no loop runs at night between two stops.
pub open spec fn timers_after<T: Scalar>(
    timers: Map<Seq<char>, T>,
    name: Seq<char>,
    availability: Option<T>,
) -> Map<Seq<char>, T> {
    if availability is Some {
        timers.insert(name, num(0))
    } else {
        timers
    }
}

/// Begins the timestep of a loop: nothing where it is switched off, else its outdoor air,
/// the modes of its zones, and the reset of its supply temperatures. Either way its
/// night-cycle timer is cleared.
pub fn begin_loop<T: Scalar>(
    li: &mut LoopInfo<T>,
    zones: &ZoneData<T>,
    availability: Option<T>,
    occupancy: &Vec<T>,
    t_outdoor: T,
    timers: &mut Table<T>,
) -> (r: Option<LoopStart<T>>)
    requires
        occupancy@.len() == old(li).zone_oa_data@.len(),
    ensures
        r is None <==> is_switched_off(availability),
        final(timers)@ == timers_after(old(timers)@, old(li).name@, availability),
        match r {
            Some(start) => {
                &&& start.min_oa == air_side::min_oa_now(*old(li), occupancy@)
                &&& start.modes@ == air_side::predicted_modes(old(li).served_zones@, *zones)
                &&& *final(li) == air_side::after_resets(*old(li), *zones, t_outdoor)
            },
            None => *final(li) == *old(li),
        },
{
    if availability.is_some() {
        timers.insert(li.name.as_str(), num(0));
    }
    if is_switched_off(availability) {
        return None;
    }
    let min_oa = effective_min_oa(li, occupancy);
    let modes = predict_modes(&li.served_zones, zones);
    reset_supply_temps(li, zones, t_outdoor);
    Some(LoopStart { min_oa, modes })
}

/// What a heat recovery unit did with the outdoor air.
#[derive(Clone, Copy, Debug)]
pub struct Recovered<T> {
    pub outlet: AirStream<T>,
    /// Electric power [W].
    pub electric: T,
    /// Heat given to the air [W]; negative where it was cooled.
    pub thermal: T,
}

/// The outputs of the heat recovery unit of a loop: what it did, if outdoor air passed it and
/// it ran; outdoor air at rest, if none passed.
pub open spec fn recovery_outputs<T: Scalar>(
    flow: T,
    outdoor: AirStream<T>,
    recovered: Option<Recovered<T>>,
) -> Map<Seq<char>, T> {
    if gt(flow, num(0)) {
        match recovered {
            Some(done) => loop_results::recovery_report(
                AirStream { mass_flow: flow, ..done.outlet },
                done.electric,
                done.thermal,
            ),
            None => Map::empty(),
        }
    } else {
        loop_results::recovery_report(AirStream { mass_flow: num(0), ..outdoor }, num(0), num(0))
    }
}

/// The heat recovered in a timestep [W].
pub open spec fn recovered_heat<T: Scalar>(flow: T, recovered: Option<Recovered<T>>) -> T {
    match recovered {
        Some(done) => if gt(flow, num(0)) {
            done.thermal
        } else {
            num(0)
        },
        None => num(0),
    }
}

/// A timestep of a loop once its components have run.
pub struct LoopRun<T> {
    pub signals: ControlSignals<T>,
    /// The air that left the last component.
    pub supply: Option<AirStream<T>>,
    pub outdoor: AirStream<T>,
    /// What the heat recovery unit did, if the loop has one that ran.
    pub recovered: Option<Recovered<T>>,
}

/// The outdoor air flow that passes the heat recovery unit.
pub open spec fn recovery_flow<T: Scalar>(run: LoopRun<T>, min_oa: T) -> T {
    times(
        loop_results::flow_of(run.supply),
        loop_results::oa_fraction_of(run.signals.coil_setpoints@, min_oa),
    )
}

/// The results of a loop with those of its heat recovery unit and the saving by it.
pub open spec fn with_recovery<T: Scalar>(
    results: Map<Seq<char>, Map<Seq<char>, T>>,
    li: LoopInfo<T>,
    zones: ZoneData<T>,
    run: LoopRun<T>,
    min_oa: T,
) -> Map<Seq<char>, Map<Seq<char>, T>> {
    let flow = recovery_flow(run, min_oa);
    let credit = loop_results::recovery_credit(
        li,
        zones,
        run.signals.sat_setpoint,
        loop_results::oa_fraction_of(run.signals.coil_setpoints@, min_oa),
        loop_results::flow_of(run.supply),
        run.outdoor.t_db,
        recovered_heat(flow, run.recovered),
    );
    match li.heat_recovery_name {
        None => results,
        Some(name) => {
            let credited = match loop_results::credit_entry(li.name@, credit) {
                Some((entry, outputs)) => results.insert(entry, outputs),
                None => results,
            };
            credited.insert(name@, recovery_outputs(flow, run.outdoor, run.recovered))
        },
    }
}

/// What came of a loop in a timestep.
#[derive(Clone, Copy, Debug)]
pub struct LoopOutcome<T> {
    /// The part load.
    pub plr: T,
    /// The air delivered, if any component ran.
    pub air: Option<Supply<T>>,
}

/// The part load of a loop and the air that it delivers.
pub open spec fn outcome<T: Scalar>(
    results: Map<Seq<char>, Map<Seq<char>, T>>,
    li: LoopInfo<T>,
    zones: ZoneData<T>,
    start: LoopStart<T>,
    run: LoopRun<T>,
) -> LoopOutcome<T> {
    let rise = loop_results::fan_heat_rise(li, results, loop_results::flow_of(run.supply));
    let plr = loop_results::part_load(
        li,
        zones,
        start.modes@,
        run.signals.coil_setpoints@,
        run.supply,
        rise,
        start.min_oa,
    );
    LoopOutcome {
        plr,
        air: match run.supply {
            Some(supply) => Some(loop_results::delivered(li, zones, supply, plr, rise)),
            None => None,
        },
    }
}

fn add_recovery<T: Scalar>(
    results: &mut Table<Table<T>>,
    li: &LoopInfo<T>,
    zones: &ZoneData<T>,
    run: &LoopRun<T>,
    min_oa: T,
)
    ensures
        loop_results::outputs_of(*final(results)) == with_recovery(
            loop_results::outputs_of(*old(results)),
            *li,
            *zones,
            *run,
            min_oa,
        ),
{
    let name = match &li.heat_recovery_name {
        Some(name) => name,
        None => {
            return ;
        },
    };
    let flow = heat_recovery_flow(&run.signals, &run.supply, min_oa);
    let passes = gt(flow, num(0));
    let heat = match &run.recovered {
        Some(done) => if passes {
            done.thermal
        } else {
            num(0)
        },
        None => num(0),
    };
    let credit = heat_recovery_credit(
        li,
        zones,
        &run.signals,
        &run.supply,
        min_oa,
        run.outdoor.t_db,
        heat,
    );
    let outputs = if passes {
        match &run.recovered {
            Some(done) => heat_recovery_outputs(
                &AirStream { mass_flow: flow, ..done.outlet },
                done.electric,
                done.thermal,
            ),
            None => Table::new(),
        }
    } else {
        heat_recovery_outputs(&AirStream { mass_flow: num(0), ..run.outdoor }, num(0), num(0))
    };
    let ghost before = loop_results::outputs_of(*results);
    let ghost mut credited = before;
    if let Some((entry, saved)) = credit_outputs(li.name.as_str(), &credit) {
        let ghost saved_view = saved@;
        let ghost entry_view = entry@;
        results.insert(entry.as_str(), saved);
        proof {
            credited = before.insert(entry_view, saved_view);
            assert(loop_results::outputs_of(*results) =~= credited);
        }
    }
    let ghost outputs_view = outputs@;
    results.insert(name.as_str(), outputs);
    assert(loop_results::outputs_of(*results) =~= credited.insert(name@, outputs_view));
}

/// Settles a loop: adds the results of heat recovery, finds the part load, averages the
/// results of its components over the timestep, and says what air it delivers.
pub fn settle_loop<T: Scalar>(
    results: &mut Table<Table<T>>,
    li: &LoopInfo<T>,
    zones: &ZoneData<T>,
    start: &LoopStart<T>,
    run: &LoopRun<T>,
) -> (r: LoopOutcome<T>)
    requires
        loop_results::part_load_in_order(
            *li,
            *zones,
            start.modes@,
            run.supply,
            start.min_oa,
        ),
    ensures
        ({
            let full = with_recovery(
                loop_results::outputs_of(*old(results)),
                *li,
                *zones,
                *run,
                start.min_oa,
            );
            let rule = ScalingRule {
                fan_mode: li.fan_operating_mode,
                plr: r.plr,
                min_oa: start.min_oa,
            };
            &&& r == outcome(full, *li, *zones, *start, *run)
            &&& loop_results::outputs_of(*final(results)) == loop_results::scaled_results(
                rule,
                full,
                li.fan_names@,
            )
        }),
{
    add_recovery(results, li, zones, run, start.min_oa);
    let rise = continuous_fan_heat_rise(li, results, &run.supply);
    let plr = loop_part_load(
        li,
        zones,
        &start.modes,
        &run.signals,
        &run.supply,
        rise,
        start.min_oa,
    );
    let rule = ScalingRule { fan_mode: li.fan_operating_mode, plr, min_oa: start.min_oa };
    scale_results(&rule, results, &li.fan_names);
    let air = match &run.supply {
        Some(supply) => Some(delivered_air(li, zones, supply, plr, rise)),
        None => None,
    };
    LoopOutcome { plr, air }
}

} // verus!
