//! How components are run one after the other: what each of them is told, and what is
//! reported of it.
use crate::air_loop::ControlSignals;
use crate::air_side::AirStream;
use crate::loop_results;
use crate::scalar;
use crate::scalar::{minus, num, plus, times, Scalar};
use crate::table;
use crate::table::Table;
use crate::text::same_text;
use std::collections::HashMap;
use vstd::prelude::*;
use vstd::string::*;

verus! {

// ---------------------------------------------------------------------------
// Air loops

/// The temperature of the air that enters a loop, where its control sets one.
pub open spec fn set_inlet_temp<T: Scalar>(setpoints: Map<Seq<char>, T>) -> Option<T> {
    if setpoints.contains_key("__pszac_mixed_air_temp__"@) {
        Some(setpoints["__pszac_mixed_air_temp__"@])
    } else if setpoints.contains_key("__fcu_recirculation_temp__"@) {
        Some(setpoints["__fcu_recirculation_temp__"@])
    } else if setpoints.contains_key("__vav_mixed_air_temp__"@) {
        Some(setpoints["__vav_mixed_air_temp__"@])
    } else {
        None
    }
}

pub fn inlet_temp<T: Scalar>(signals: &ControlSignals<T>) -> (r: Option<T>)
    ensures
        r == set_inlet_temp(signals.coil_setpoints@),
{
    if let Some(t) = signals.coil_setpoints.get("__pszac_mixed_air_temp__") {
        return Some(*t);
    }
    if let Some(t) = signals.coil_setpoints.get("__fcu_recirculation_temp__") {
        return Some(*t);
    }
    if let Some(t) = signals.coil_setpoints.get("__vav_mixed_air_temp__") {
        return Some(*t);
    }
    None
}

/// The humidity of the air that enters a loop: indoor air mixed with the outdoor air
/// fraction of the loop, which is one where the loop sets none.
pub open spec fn blended_humidity<T: Scalar>(
    setpoints: Map<Seq<char>, T>,
    outdoor_w: T,
    indoor_w: T,
) -> T {
    let oa = table::value_or(setpoints, "__oa_fraction__"@, num(1));
    let w_oa = table::value_or(setpoints, "__effective_oa_w__"@, outdoor_w);
    plus(times(oa, w_oa), times(minus(num(1), oa), indoor_w))
}

pub fn inlet_humidity<T: Scalar>(
    signals: &ControlSignals<T>,
    outdoor_w: T,
    indoor_w: T,
) -> (r: T)
    ensures
        r == blended_humidity(signals.coil_setpoints@, outdoor_w, indoor_w),
{
    let oa = signals.coil_setpoints.get_or("__oa_fraction__", num(1));
    let w_oa = signals.coil_setpoints.get_or("__effective_oa_w__", outdoor_w);
    plus(times(oa, w_oa), times(minus(num(1), oa), indoor_w))
}

/// The temperature around a duct that runs through `place`: outdoors, in the ground or in
/// a zone; outdoors where the zone is not known.
pub open spec fn surroundings<T: Scalar>(
    place: Seq<char>,
    zone_temps: Map<Seq<char>, T>,
    t_outdoor: T,
) -> T {
    if place == "outdoor"@ {
        t_outdoor
    } else if place == "ground"@ {
        num(18)
    } else {
        table::value_or(zone_temps, place, t_outdoor)
    }
}

pub fn ambient_temp<T: Scalar>(place: &str, zone_temps: &Table<T>, t_outdoor: T) -> (r: T)
    ensures
        r == surroundings(place@, zone_temps@, t_outdoor),
{
    if same_text(place, "outdoor") {
        t_outdoor
    } else if same_text(place, "ground") {
        num(18)
    } else {
        zone_temps.get_or(place, t_outdoor)
    }
}

/// What a component is told before it runs.
#[derive(Clone, Copy, Debug)]
pub struct Command<T> {
    /// The new setpoint, where there is one.
    pub setpoint: Option<T>,
    /// The air that enters it.
    pub inlet: AirStream<T>,
}

pub open spec fn looked_up<T>(values: Map<Seq<char>, T>, key: Seq<char>) -> Option<T> {
    if values.contains_key(key) {
        Some(values[key])
    } else {
        None
    }
}

/// The command for a component that the air `upstream` reaches: its setpoint, and its
/// flow in place of the flow upstream.
pub open spec fn commanded<T: Scalar>(
    signals: ControlSignals<T>,
    name: Seq<char>,
    upstream: AirStream<T>,
) -> Command<T> {
    Command {
        setpoint: looked_up(signals.coil_setpoints@, name),
        inlet: AirStream {
            mass_flow: table::value_or(signals.air_mass_flows@, name, upstream.mass_flow),
            ..upstream
        },
    }
}

fn copied<T: Scalar>(values: &Table<T>, key: &str) -> (r: Option<T>)
    ensures
        r == looked_up(values@, key@),
{
    match values.get(key) {
        Some(v) => Some(*v),
        None => None,
    }
}

pub fn command<T: Scalar>(
    signals: &ControlSignals<T>,
    name: &str,
    upstream: &AirStream<T>,
) -> (r: Command<T>)
    ensures
        r == commanded(*signals, name@, *upstream),
{
    Command {
        setpoint: copied(&signals.coil_setpoints, name),
        inlet: AirStream {
            mass_flow: signals.air_mass_flows.get_or(name, upstream.mass_flow),
            ..*upstream
        },
    }
}

/// What a component consumed and gave in a timestep [W].
#[derive(Clone, Copy, Debug)]
pub struct Energy<T> {
    pub electric: T,
    pub fuel: T,
    pub thermal: T,
}

/// The outputs of a component in an air stream.
pub open spec fn air_report<T: Scalar>(
    inlet: AirStream<T>,
    outlet: AirStream<T>,
    energy: Energy<T>,
    detailed: Map<Seq<char>, T>,
) -> Map<Seq<char>, T> {
    Map::empty().insert("outlet_temperature"@, outlet.t_db).insert(
        "outlet_temp"@,
        outlet.t_db,
    ).insert("outlet_humidity_ratio"@, outlet.w).insert("outlet_w"@, outlet.w).insert(
        "mass_flow"@,
        outlet.mass_flow,
    ).insert("outlet_enthalpy"@, outlet.h).insert("inlet_temperature"@, inlet.t_db).insert(
        "inlet_humidity_ratio"@,
        inlet.w,
    ).insert("inlet_enthalpy"@, inlet.h).insert("electric_power"@, energy.electric).insert(
        "fuel_power"@,
        energy.fuel,
    ).insert("thermal_output"@, energy.thermal).union_prefer_right(detailed)
}

/// The outputs of a component in an air stream; what the component reports in detail
/// comes last.
pub fn air_outputs<T: Scalar>(
    inlet: &AirStream<T>,
    outlet: &AirStream<T>,
    energy: &Energy<T>,
    detailed: &Table<T>,
) -> (r: Table<T>)
    ensures
        r@ == air_report(*inlet, *outlet, *energy, detailed@),
{
    let mut outputs: Table<T> = Table::new();
    outputs.insert("outlet_temperature", outlet.t_db);
    outputs.insert("outlet_temp", outlet.t_db);
    outputs.insert("outlet_humidity_ratio", outlet.w);
    outputs.insert("outlet_w", outlet.w);
    outputs.insert("mass_flow", outlet.mass_flow);
    outputs.insert("outlet_enthalpy", outlet.h);
    outputs.insert("inlet_temperature", inlet.t_db);
    outputs.insert("inlet_humidity_ratio", inlet.w);
    outputs.insert("inlet_enthalpy", inlet.h);
    outputs.insert("electric_power", energy.electric);
    outputs.insert("fuel_power", energy.fuel);
    outputs.insert("thermal_output", energy.thermal);
    outputs.merge(detailed);
    outputs
}

/// A run through the components of an air loop, up to some component.
pub struct ChainRun<T> {
    /// The air that enters the loop.
    pub inlet: AirStream<T>,
    /// The air that left the last component that ran.
    pub last_outlet: Option<AirStream<T>>,
    pub outputs: Table<Table<T>>,
}

/// The air that reaches the next component.
pub open spec fn upstream_of<T: Scalar>(run: ChainRun<T>) -> AirStream<T> {
    match run.last_outlet {
        Some(outlet) => outlet,
        None => run.inlet,
    }
}

impl<T: Scalar> ChainRun<T> {
    pub fn start(inlet: AirStream<T>) -> (r: Self)
        ensures
            r.inlet == inlet,
            r.last_outlet is None,
            r.outputs@ == Map::<Seq<char>, Table<T>>::empty(),
    {
        ChainRun { inlet, last_outlet: None, outputs: Table::new() }
    }

    /// What the next component of the loop is told.
    pub fn next(&self, signals: &ControlSignals<T>, name: &str) -> (r: Command<T>)
        ensures
            r == commanded(*signals, name@, upstream_of(*self)),
    {
        let upstream = match self.last_outlet {
            Some(outlet) => outlet,
            None => self.inlet,
        };
        command(signals, name, &upstream)
    }

    /// Takes up the result of the component that ran last.
    pub fn record(
        &mut self,
        name: &str,
        inlet: &AirStream<T>,
        outlet: &AirStream<T>,
        energy: &Energy<T>,
        detailed: &Table<T>,
    )
        ensures
            final(self).inlet == old(self).inlet,
            final(self).last_outlet == Some(*outlet),
            loop_results::outputs_of(final(self).outputs) == loop_results::outputs_of(
                old(self).outputs,
            ).insert(name@, air_report(*inlet, *outlet, *energy, detailed@)),
    {
        self.outputs.insert(name, air_outputs(inlet, outlet, energy, detailed));
        self.last_outlet = Some(*outlet);
        assert(loop_results::outputs_of(self.outputs) =~= loop_results::outputs_of(
            old(self).outputs,
        ).insert(name@, air_report(*inlet, *outlet, *energy, detailed@)));
    }
}

// ---------------------------------------------------------------------------
// Graphs of components

/// Water that leaves a plant component.
#[derive(Clone, Copy, Debug)]
pub struct WaterStream<T> {
    /// Temperature [C].
    pub temp: T,
    /// Mass flow [kg/s].
    pub mass_flow: T,
}

/// The outputs of a plant component.
pub open spec fn plant_report<T: Scalar>(
    outlet: WaterStream<T>,
    energy: Energy<T>,
    detailed: Map<Seq<char>, T>,
) -> Map<Seq<char>, T> {
    Map::empty().insert("outlet_temperature"@, outlet.temp).insert(
        "outlet_temp"@,
        outlet.temp,
    ).insert("mass_flow"@, outlet.mass_flow).insert("electric_power"@, energy.electric).insert(
        "fuel_power"@,
        energy.fuel,
    ).insert("thermal_output"@, energy.thermal).union_prefer_right(detailed)
}

pub fn plant_outputs<T: Scalar>(
    outlet: &WaterStream<T>,
    energy: &Energy<T>,
    detailed: &Table<T>,
) -> (r: Table<T>)
    ensures
        r@ == plant_report(*outlet, *energy, detailed@),
{
    let mut outputs: Table<T> = Table::new();
    outputs.insert("outlet_temperature", outlet.temp);
    outputs.insert("outlet_temp", outlet.temp);
    outputs.insert("mass_flow", outlet.mass_flow);
    outputs.insert("electric_power", energy.electric);
    outputs.insert("fuel_power", energy.fuel);
    outputs.insert("thermal_output", energy.thermal);
    outputs.merge(detailed);
    outputs
}

/// A run through a graph of components in the order of the simulation. Components are
/// known by their place in the graph.
pub struct GraphRun<T> {
    /// Air that enters a component without a predecessor.
    pub default_air: AirStream<T>,
    /// Water that enters a component without a predecessor.
    pub default_water: WaterStream<T>,
    pub air: HashMap<usize, AirStream<T>>,
    pub water: HashMap<usize, WaterStream<T>>,
    pub outputs: Table<Table<T>>,
    pub last_air_outlet: Option<AirStream<T>>,
}

/// What the first predecessor of a component gives it, or `default`.
pub open spec fn from_first<V>(states: Map<usize, V>, predecessors: Seq<usize>, default: V) -> V {
    if predecessors.len() > 0 && states.contains_key(predecessors[0]) {
        states[predecessors[0]]
    } else {
        default
    }
}

fn first_state<V: Copy>(states: &HashMap<usize, V>, predecessors: &Vec<usize>, default: V) -> (r: V)
    ensures
        r == from_first(states@, predecessors@, default),
{
    broadcast use vstd::std_specs::hash::group_hash_axioms;

    if predecessors.len() == 0 {
        return default;
    }
    match states.get(&predecessors[0]) {
        Some(state) => *state,
        None => default,
    }
}

impl<T: Scalar> GraphRun<T> {
    pub fn start(default_air: AirStream<T>, default_water: WaterStream<T>) -> (r: Self)
        ensures
            r.default_air == default_air,
            r.default_water == default_water,
            r.air@ == Map::<usize, AirStream<T>>::empty(),
            r.water@ == Map::<usize, WaterStream<T>>::empty(),
            r.outputs@ == Map::<Seq<char>, Table<T>>::empty(),
            r.last_air_outlet is None,
    {
        broadcast use vstd::std_specs::hash::group_hash_axioms;

        GraphRun {
            default_air,
            default_water,
            air: HashMap::new(),
            water: HashMap::new(),
            outputs: Table::new(),
            last_air_outlet: None,
        }
    }

    /// What an air component is told: it takes the air of its first predecessor.
    pub fn next_air(
        &self,
        signals: &ControlSignals<T>,
        name: &str,
        predecessors: &Vec<usize>,
    ) -> (r: Command<T>)
        ensures
            r == commanded(
                *signals,
                name@,
                from_first(self.air@, predecessors@, self.default_air),
            ),
    {
        let upstream = first_state(&self.air, predecessors, self.default_air);
        command(signals, name, &upstream)
    }

    /// The water that enters a plant component, and its load [W].
    pub fn next_plant(
        &self,
        signals: &ControlSignals<T>,
        name: &str,
        predecessors: &Vec<usize>,
    ) -> (r: (WaterStream<T>, T))
        ensures
            r.0 == from_first(self.water@, predecessors@, self.default_water),
            r.1 == table::value_or(signals.plant_loads@, name@, num(0)),
    {
        (
            first_state(&self.water, predecessors, self.default_water),
            signals.plant_loads.get_or(name, num(0)),
        )
    }

    /// Takes up the result of an air component.
    pub fn record_air(
        &mut self,
        node: usize,
        name: &str,
        inlet: &AirStream<T>,
        outlet: &AirStream<T>,
        energy: &Energy<T>,
        detailed: &Table<T>,
    )
        ensures
            final(self).air@ == old(self).air@.insert(node, *outlet),
            final(self).water@ == old(self).water@,
            final(self).default_air == old(self).default_air,
            final(self).default_water == old(self).default_water,
            final(self).last_air_outlet == Some(*outlet),
            loop_results::outputs_of(final(self).outputs) == loop_results::outputs_of(
                old(self).outputs,
            ).insert(name@, air_report(*inlet, *outlet, *energy, detailed@)),
    {
        broadcast use vstd::std_specs::hash::group_hash_axioms;

        self.outputs.insert(name, air_outputs(inlet, outlet, energy, detailed));
        self.last_air_outlet = Some(*outlet);
        self.air.insert(node, *outlet);
        assert(loop_results::outputs_of(self.outputs) =~= loop_results::outputs_of(
            old(self).outputs,
        ).insert(name@, air_report(*inlet, *outlet, *energy, detailed@)));
    }

    /// Takes up the result of a plant component.
    pub fn record_plant(
        &mut self,
        node: usize,
        name: &str,
        outlet: &WaterStream<T>,
        energy: &Energy<T>,
        detailed: &Table<T>,
    )
        ensures
            final(self).water@ == old(self).water@.insert(node, *outlet),
            final(self).air@ == old(self).air@,
            final(self).default_air == old(self).default_air,
            final(self).default_water == old(self).default_water,
            final(self).last_air_outlet == old(self).last_air_outlet,
            loop_results::outputs_of(final(self).outputs) == loop_results::outputs_of(
                old(self).outputs,
            ).insert(name@, plant_report(*outlet, *energy, detailed@)),
    {
        broadcast use vstd::std_specs::hash::group_hash_axioms;

        self.outputs.insert(name, plant_outputs(outlet, energy, detailed));
        self.water.insert(node, *outlet);
        assert(loop_results::outputs_of(self.outputs) =~= loop_results::outputs_of(
            old(self).outputs,
        ).insert(name@, plant_report(*outlet, *energy, detailed@)));
    }
}

} // verus!
