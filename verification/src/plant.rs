//! Plant loops in a timestep: their load, the water that returns to their equipment, the
//! sizes of pumps and towers, and how the load is shared among the units.
use crate::control;
use crate::control::apply_plant_reset;
use crate::loop_results;
use crate::model;
use crate::model::{
    AirLoopInput, EquipmentInput, EquipmentKind, PlantEquipmentInput, PlantEquipmentKind,
    PlantLoopInput, StagingMode, TerminalKind, ZoneConnection,
};
use crate::scalar;
use crate::scalar::{absolute, count, gt, least, lt, minus, most, num, over, plus, times, Scalar};
use crate::table;
use crate::table::Table;
use vstd::prelude::*;
use vstd::string::*;

verus! {

/// The outputs of components by their names.
pub type Outputs<T> = Map<Seq<char>, Map<Seq<char>, T>>;

// ---------------------------------------------------------------------------
// Load of a loop

/// One output of a component, or zero.
pub open spec fn output_or_zero<T: Scalar>(outputs: Map<Seq<char>, T>, key: Seq<char>) -> T {
    table::value_or(outputs, key, num(0))
}

/// What a component takes from its plant loop [W], for all copies of its zones; zero where
/// it has no results.
pub open spec fn drawn_by<T: Scalar>(
    name: Seq<char>,
    outputs: Outputs<T>,
    multipliers: Map<Seq<char>, T>,
) -> Option<T> {
    if outputs.contains_key(name) {
        Some(
            times(
                output_or_zero(outputs[name], "thermal_output"@),
                table::value_or(multipliers, name, num(1)),
            ),
        )
    } else {
        None
    }
}

/// A load with that of one more component, if it has any.
pub open spec fn with_load<T: Scalar>(total: T, more: Option<T>) -> T {
    match more {
        Some(load) => plus(total, load),
        None => total,
    }
}

/// A coil on the plant loop.
pub open spec fn coil_on<T>(e: EquipmentInput<T>, loop_name: Seq<char>) -> bool {
    (e.kind == EquipmentKind::CoolingCoil || e.kind == EquipmentKind::HeatingCoil)
        && model::text_of(e.plant_loop) == Some(loop_name)
}

/// `total` with the loads of the first `n` coils of an air loop on the plant loop.
pub open spec fn with_coils<T: Scalar>(
    total: T,
    equipment: Seq<EquipmentInput<T>>,
    loop_name: Seq<char>,
    outputs: Outputs<T>,
    multipliers: Map<Seq<char>, T>,
    n: nat,
) -> T
    decreases n,
{
    if n == 0 {
        total
    } else {
        let rest = with_coils(total, equipment, loop_name, outputs, multipliers, (n - 1) as nat);
        if coil_on(equipment[n - 1], loop_name) {
            with_load(rest, drawn_by(equipment[n - 1].name@, outputs, multipliers))
        } else {
            rest
        }
    }
}

/// A VAV box with its reheat coil on the plant loop.
pub open spec fn reheat_on<T>(c: ZoneConnection<T>, loop_name: Seq<char>) -> bool {
    match c.terminal {
        Some(t) => t.kind == TerminalKind::VavBox && model::text_of(t.plant_loop) == Some(
            loop_name,
        ),
        None => false,
    }
}

/// `total` with the loads of the boxes of the first `n` zones of an air loop.
pub open spec fn with_boxes<T: Scalar>(
    total: T,
    connections: Seq<ZoneConnection<T>>,
    loop_name: Seq<char>,
    outputs: Outputs<T>,
    multipliers: Map<Seq<char>, T>,
    n: nat,
) -> T
    decreases n,
{
    if n == 0 {
        total
    } else {
        let rest = with_boxes(
            total,
            connections,
            loop_name,
            outputs,
            multipliers,
            (n - 1) as nat,
        );
        if reheat_on(connections[n - 1], loop_name) {
            with_load(
                rest,
                drawn_by(connections[n - 1].terminal->Some_0.name@, outputs, multipliers),
            )
        } else {
            rest
        }
    }
}

/// The loads of the coils and boxes of the first `n` air loops on the plant loop.
pub open spec fn air_side_load<T: Scalar>(
    loops: Seq<AirLoopInput<T>>,
    loop_name: Seq<char>,
    outputs: Outputs<T>,
    multipliers: Map<Seq<char>, T>,
    n: nat,
) -> T
    decreases n,
{
    if n == 0 {
        num(0)
    } else {
        let rest = air_side_load(loops, loop_name, outputs, multipliers, (n - 1) as nat);
        let al = loops[n - 1];
        with_boxes(
            with_coils(
                rest,
                al.equipment@,
                loop_name,
                outputs,
                multipliers,
                al.equipment@.len(),
            ),
            al.zone_terminals@,
            loop_name,
            outputs,
            multipliers,
            al.zone_terminals@.len(),
        )
    }
}

fn find_drawn<T: Scalar>(name: &str, outputs: &Table<Table<T>>, multipliers: &Table<T>) -> (r:
    Option<T>)
    ensures
        r == drawn_by(name@, loop_results::outputs_of(*outputs), multipliers@),
{
    match outputs.get(name) {
        Some(own) => Some(
            times(own.get_or("thermal_output", num(0)), multipliers.get_or(name, num(1))),
        ),
        None => None,
    }
}

fn is_on(plant_loop: &Option<String>, loop_name: &String) -> (r: bool)
    ensures
        r == (model::text_of(*plant_loop) == Some(loop_name@)),
{
    match plant_loop {
        Some(name) => *name == *loop_name,
        None => false,
    }
}

fn sum_air_side_load<T: Scalar>(
    loops: &Vec<AirLoopInput<T>>,
    loop_name: &String,
    outputs: &Table<Table<T>>,
    multipliers: &Table<T>,
) -> (r: T)
    ensures
        r == air_side_load(
            loops@,
            loop_name@,
            loop_results::outputs_of(*outputs),
            multipliers@,
            loops@.len(),
        ),
{
    let ghost o = loop_results::outputs_of(*outputs);
    let ghost m = multipliers@;
    let mut total: T = num(0);
    for i in 0..loops.len()
        invariant
            o == loop_results::outputs_of(*outputs),
            m == multipliers@,
            total == air_side_load(loops@, loop_name@, o, m, i as nat),
    {
        let equipment = &loops[i].equipment;
        let ghost start = total;
        for j in 0..equipment.len()
            invariant
                o == loop_results::outputs_of(*outputs),
                m == multipliers@,
                total == with_coils(start, equipment@, loop_name@, o, m, j as nat),
        {
            let e = &equipment[j];
            if (e.kind == EquipmentKind::CoolingCoil || e.kind == EquipmentKind::HeatingCoil)
                && is_on(&e.plant_loop, loop_name) {
                if let Some(load) = find_drawn(e.name.as_str(), outputs, multipliers) {
                    total = plus(total, load);
                }
            }
        }
        let connections = &loops[i].zone_terminals;
        let ghost middle = total;
        for j in 0..connections.len()
            invariant
                o == loop_results::outputs_of(*outputs),
                m == multipliers@,
                total == with_boxes(middle, connections@, loop_name@, o, m, j as nat),
        {
            if let Some(t) = &connections[j].terminal {
                if t.kind == TerminalKind::VavBox && is_on(&t.plant_loop, loop_name) {
                    if let Some(load) = find_drawn(t.name.as_str(), outputs, multipliers) {
                        total = plus(total, load);
                    }
                }
            }
        }
    }
    total
}

/// A radiant panel as a load on a plant loop.
pub struct PanelLoad<T> {
    pub plant_loop: Option<String>,
    /// Heat given to the zone [W]; negative in cooling.
    pub thermal_output: T,
}

/// `total` with the loads of the first `n` panels on the plant loop.
pub open spec fn with_panels<T: Scalar>(
    total: T,
    panels: Seq<PanelLoad<T>>,
    loop_name: Seq<char>,
    n: nat,
) -> T
    decreases n,
{
    if n == 0 {
        total
    } else {
        let rest = with_panels(total, panels, loop_name, (n - 1) as nat);
        if model::text_of(panels[n - 1].plant_loop) == Some(loop_name) {
            plus(rest, panels[n - 1].thermal_output)
        } else {
            rest
        }
    }
}

/// A chiller whose condenser is on the plant loop.
pub open spec fn condenser_on<T>(e: PlantEquipmentInput<T>, loop_name: Seq<char>) -> bool {
    e.kind == PlantEquipmentKind::Chiller && model::text_of(e.condenser_plant_loop) == Some(
        loop_name,
    )
}

/// `total` with the heat rejected by those of the first `n` pieces of equipment that are
/// chillers on the plant loop: what they take from the chilled water and their power.
pub open spec fn with_condensers<T: Scalar>(
    total: T,
    equipment: Seq<PlantEquipmentInput<T>>,
    loop_name: Seq<char>,
    outputs: Outputs<T>,
    n: nat,
) -> T
    decreases n,
{
    if n == 0 {
        total
    } else {
        let rest = with_condensers(total, equipment, loop_name, outputs, (n - 1) as nat);
        let name = equipment[n - 1].name@;
        if condenser_on(equipment[n - 1], loop_name) && outputs.contains_key(name) {
            plus(
                rest,
                plus(
                    output_or_zero(outputs[name], "thermal_output"@),
                    output_or_zero(outputs[name], "electric_power"@),
                ),
            )
        } else {
            rest
        }
    }
}

/// The heat that the chillers of the first `n` plant loops reject to a loop.
pub open spec fn condenser_load<T: Scalar>(
    plants: Seq<PlantLoopInput<T>>,
    loop_name: Seq<char>,
    outputs: Outputs<T>,
    n: nat,
) -> T
    decreases n,
{
    if n == 0 {
        num(0)
    } else {
        with_condensers(
            condenser_load(plants, loop_name, outputs, (n - 1) as nat),
            plants[n - 1].supply_equipment@,
            loop_name,
            outputs,
            plants[n - 1].supply_equipment@.len(),
        )
    }
}

fn sum_condenser_load<T: Scalar>(
    plants: &Vec<PlantLoopInput<T>>,
    loop_name: &String,
    outputs: &Table<Table<T>>,
) -> (r: T)
    ensures
        r == condenser_load(
            plants@,
            loop_name@,
            loop_results::outputs_of(*outputs),
            plants@.len(),
        ),
{
    let ghost o = loop_results::outputs_of(*outputs);
    let mut total: T = num(0);
    for i in 0..plants.len()
        invariant
            o == loop_results::outputs_of(*outputs),
            total == condenser_load(plants@, loop_name@, o, i as nat),
    {
        let equipment = &plants[i].supply_equipment;
        let ghost start = total;
        for j in 0..equipment.len()
            invariant
                o == loop_results::outputs_of(*outputs),
                total == with_condensers(start, equipment@, loop_name@, o, j as nat),
        {
            let e = &equipment[j];
            if e.kind == PlantEquipmentKind::Chiller && is_on(&e.condenser_plant_loop, loop_name) {
                if let Some(own) = outputs.get(e.name.as_str()) {
                    total = plus(
                        total,
                        plus(
                            own.get_or("thermal_output", num(0)),
                            own.get_or("electric_power", num(0)),
                        ),
                    );
                }
            }
        }
    }
    total
}

/// The load of a plant loop in a timestep.
#[derive(Clone, Copy, Debug)]
pub struct LoopLoad<T> {
    /// Heat to be supplied [W]; negative for cooling.
    pub total: T,
    /// The loop takes heat from condensers.
    pub is_condenser: bool,
}

/// The load of a plant loop: what the air side and the panels take, or the heat of
/// condensers, where there is any.
pub open spec fn loop_load<T: Scalar>(
    loops: Seq<AirLoopInput<T>>,
    plants: Seq<PlantLoopInput<T>>,
    panels: Seq<PanelLoad<T>>,
    loop_name: Seq<char>,
    outputs: Outputs<T>,
    multipliers: Map<Seq<char>, T>,
) -> LoopLoad<T> {
    let demand = with_panels(
        air_side_load(loops, loop_name, outputs, multipliers, loops.len()),
        panels,
        loop_name,
        panels.len(),
    );
    let rejected = condenser_load(plants, loop_name, outputs, plants.len());
    if gt(rejected, num(0)) {
        LoopLoad { total: rejected, is_condenser: true }
    } else {
        LoopLoad { total: demand, is_condenser: false }
    }
}

/// The load of a plant loop. `outputs` are the results so far in this timestep, and
/// `multipliers` say how many times a component counts.
pub fn plant_loop_load<T: Scalar>(
    loops: &Vec<AirLoopInput<T>>,
    plants: &Vec<PlantLoopInput<T>>,
    panels: &Vec<PanelLoad<T>>,
    loop_name: &String,
    outputs: &Table<Table<T>>,
    multipliers: &Table<T>,
) -> (r: LoopLoad<T>)
    ensures
        r == loop_load(
            loops@,
            plants@,
            panels@,
            loop_name@,
            loop_results::outputs_of(*outputs),
            multipliers@,
        ),
{
    let mut demand = sum_air_side_load(loops, loop_name, outputs, multipliers);
    let ghost start = demand;
    for i in 0..panels.len()
        invariant
            demand == with_panels(start, panels@, loop_name@, i as nat),
    {
        if is_on(&panels[i].plant_loop, loop_name) {
            demand = plus(demand, panels[i].thermal_output);
        }
    }
    let rejected = sum_condenser_load(plants, loop_name, outputs);
    if gt(rejected, num(0)) {
        LoopLoad { total: rejected, is_condenser: true }
    } else {
        LoopLoad { total: demand, is_condenser: false }
    }
}

// ---------------------------------------------------------------------------
// Water in the loop

/// The heat capacity of water [J/(kg K)].
#[verifier::allow_in_spec]
pub fn water_cp<T: Scalar>() -> T
    returns
        num::<T>(4186),
{
    num(4186)
}

/// The design temperature difference of a loop [K], at least one.
#[verifier::allow_in_spec]
pub fn loop_delta_t<T: Scalar>(design: T) -> T
    returns
        most(design, num(1)),
{
    most(design, num(1))
}

/// The water that returns to the equipment of a loop.
#[derive(Clone, Copy, Debug)]
pub struct ReturnWater<T> {
    /// Temperature [C].
    pub temp: T,
    /// Mass flow [kg/s].
    pub flow: T,
}

/// The setpoint of a plant loop.
pub open spec fn plant_setpoint<T: Scalar>(plant: PlantLoopInput<T>, t_outdoor: T) -> T {
    match plant.setpoint_reset {
        Some(reset) => control::plant_reset(reset, t_outdoor),
        None => plant.design_supply_temp,
    }
}

/// The water that returns to the equipment of a loop under load; nothing without a load.
/// It is colder than the setpoint in heating, and warmer in cooling and from condensers.
pub open spec fn return_water<T: Scalar>(
    plant: PlantLoopInput<T>,
    load: LoopLoad<T>,
    t_outdoor: T,
) -> Option<ReturnWater<T>> {
    let delta = loop_delta_t(plant.design_delta_t);
    let setpoint = plant_setpoint(plant, t_outdoor);
    if gt(absolute(load.total), num(0)) {
        Some(
            ReturnWater {
                temp: if !load.is_condenser && gt(load.total, num(0)) {
                    minus(setpoint, delta)
                } else {
                    plus(setpoint, delta)
                },
                flow: over(absolute(load.total), times(water_cp(), delta)),
            },
        )
    } else {
        None
    }
}

pub fn loop_return_water<T: Scalar>(
    plant: &PlantLoopInput<T>,
    load: &LoopLoad<T>,
    t_outdoor: T,
) -> (r: Option<ReturnWater<T>>)
    ensures
        r == return_water(*plant, *load, t_outdoor),
{
    if !gt(absolute(load.total), num(0)) {
        return None;
    }
    let delta = loop_delta_t(plant.design_delta_t);
    let setpoint = match &plant.setpoint_reset {
        Some(reset) => apply_plant_reset(reset, t_outdoor),
        None => plant.design_supply_temp,
    };
    let temp = if !load.is_condenser && gt(load.total, num(0)) {
        minus(setpoint, delta)
    } else {
        plus(setpoint, delta)
    };
    Some(ReturnWater { temp, flow: over(absolute(load.total), times(water_cp(), delta)) })
}

/// The water that a heat exchanger gets from its source loop; still water of 20 C until
/// that loop has run.
pub fn source_water<T: Scalar>(
    supplied: &Table<ReturnWater<T>>,
    source_loop: &str,
) -> (r: ReturnWater<T>)
    ensures
        r == table::value_or(
            supplied@,
            source_loop@,
            (ReturnWater { temp: num(20), flow: num(0) }),
        ),
{
    supplied.get_or(source_loop, ReturnWater { temp: num(20), flow: num(0) })
}

/// The temperature of the water that enters the radiant panels on a loop [C].
pub fn panel_water_temp<T: Scalar>(
    supplied: &Table<ReturnWater<T>>,
    plant: &PlantLoopInput<T>,
) -> (r: T)
    ensures
        r == if supplied@.contains_key(plant.name@) {
            supplied@[plant.name@].temp
        } else {
            plant.design_supply_temp
        },
{
    match supplied.get(plant.name.as_str()) {
        Some(water) => water.temp,
        None => plant.design_supply_temp,
    }
}

// ---------------------------------------------------------------------------
// Pumps and towers

/// `total` with the condenser capacities of those of the first `n` pieces of equipment that
/// are chillers of known capacity on the loop.
pub open spec fn with_condenser_caps<T: Scalar>(
    total: T,
    equipment: Seq<PlantEquipmentInput<T>>,
    loop_name: Seq<char>,
    n: nat,
) -> T
    decreases n,
{
    if n == 0 {
        total
    } else {
        let rest = with_condenser_caps(total, equipment, loop_name, (n - 1) as nat);
        let e = equipment[n - 1];
        if condenser_on(e, loop_name) && gt(e.capacity, num(0)) {
            plus(rest, times(e.capacity, plus(num(1), over(num(1), e.cop))))
        } else {
            rest
        }
    }
}

/// The condenser capacity of the chillers of the first `n` plant loops on a loop [W].
pub open spec fn condenser_capacity<T: Scalar>(
    plants: Seq<PlantLoopInput<T>>,
    loop_name: Seq<char>,
    n: nat,
) -> T
    decreases n,
{
    if n == 0 {
        num(0)
    } else {
        with_condenser_caps(
            condenser_capacity(plants, loop_name, (n - 1) as nat),
            plants[n - 1].supply_equipment@,
            loop_name,
            plants[n - 1].supply_equipment@.len(),
        )
    }
}

fn sum_condenser_capacity<T: Scalar>(plants: &Vec<PlantLoopInput<T>>, loop_name: &String) -> (r: T)
    ensures
        r == condenser_capacity(plants@, loop_name@, plants@.len()),
{
    let mut total: T = num(0);
    for i in 0..plants.len()
        invariant
            total == condenser_capacity(plants@, loop_name@, i as nat),
    {
        let equipment = &plants[i].supply_equipment;
        let ghost start = total;
        for j in 0..equipment.len()
            invariant
                total == with_condenser_caps(start, equipment@, loop_name@, j as nat),
        {
            let e = &equipment[j];
            if e.kind == PlantEquipmentKind::Chiller && is_on(&e.condenser_plant_loop, loop_name)
                && gt(e.capacity, num(0)) {
                total = plus(total, times(e.capacity, plus(num(1), over(num(1), e.cop))));
            }
        }
    }
    total
}

/// Some equipment is of the kind.
pub open spec fn has_kind<T>(
    equipment: Seq<PlantEquipmentInput<T>>,
    kind: PlantEquipmentKind,
) -> bool {
    exists|i: int| 0 <= i < equipment.len() && (#[trigger] equipment[i]).kind == kind
}

fn any_of_kind<T>(equipment: &Vec<PlantEquipmentInput<T>>, kind: PlantEquipmentKind) -> (r: bool)
    ensures
        r == has_kind(equipment@, kind),
{
    for i in 0..equipment.len()
        invariant
            forall|k: int| 0 <= k < i ==> (#[trigger] equipment@[k]).kind != kind,
    {
        if equipment[i].kind == kind {
            assert(equipment@[i as int].kind == kind);
            return true;
        }
    }
    false
}

/// The capacities of those of the first `n` pieces of equipment that are boilers or chillers
/// of known capacity, added up [W].
pub open spec fn installed_capacity<T: Scalar>(
    equipment: Seq<PlantEquipmentInput<T>>,
    n: nat,
) -> T
    decreases n,
{
    if n == 0 {
        num(0)
    } else {
        let rest = installed_capacity(equipment, (n - 1) as nat);
        let e = equipment[n - 1];
        if (e.kind == PlantEquipmentKind::Boiler || e.kind == PlantEquipmentKind::Chiller) && gt(
            e.capacity,
            num(0),
        ) {
            plus(rest, e.capacity)
        } else {
            rest
        }
    }
}

/// The coincident peak loads of the building [W].
#[derive(Clone, Copy, Debug)]
pub struct PeakLoads<T> {
    pub heating: T,
    pub cooling: T,
}

/// The load that the pumps of a loop are sized for [W]: the condensers on a condenser loop,
/// the peak demand on a heating or cooling loop, and else what is installed.
pub open spec fn pump_capacity<T: Scalar>(
    plant: PlantLoopInput<T>,
    plants: Seq<PlantLoopInput<T>>,
    is_condenser: bool,
    peaks: PeakLoads<T>,
) -> T {
    let equipment = plant.supply_equipment@;
    let boiler = has_kind(equipment, PlantEquipmentKind::Boiler);
    let chiller = has_kind(equipment, PlantEquipmentKind::Chiller);
    if is_condenser {
        condenser_capacity(plants, plant.name@, plants.len())
    } else if boiler && !chiller {
        peaks.heating
    } else if chiller && !boiler {
        peaks.cooling
    } else {
        installed_capacity(equipment, equipment.len())
    }
}

/// The water flow [m3/s] that carries a load at the design temperature difference.
pub open spec fn design_flow<T: Scalar>(plant: PlantLoopInput<T>, load: T) -> T {
    over(load, times(times(num(998), water_cp()), loop_delta_t(plant.design_delta_t)))
}

/// The design flow of a pump that is to be sized [m3/s].
pub fn size_pump<T: Scalar>(
    plant: &PlantLoopInput<T>,
    plants: &Vec<PlantLoopInput<T>>,
    is_condenser: bool,
    peaks: &PeakLoads<T>,
) -> (r: T)
    ensures
        r == design_flow(*plant, pump_capacity(*plant, plants@, is_condenser, *peaks)),
{
    let equipment = &plant.supply_equipment;
    let load = if is_condenser {
        sum_condenser_capacity(plants, &plant.name)
    } else {
        let boiler = any_of_kind(equipment, PlantEquipmentKind::Boiler);
        let chiller = any_of_kind(equipment, PlantEquipmentKind::Chiller);
        if boiler && !chiller {
            peaks.heating
        } else if chiller && !boiler {
            peaks.cooling
        } else {
            let mut total: T = num(0);
            for i in 0..equipment.len()
                invariant
                    total == installed_capacity(equipment@, i as nat),
            {
                let e = &equipment[i];
                if (e.kind == PlantEquipmentKind::Boiler || e.kind == PlantEquipmentKind::Chiller)
                    && gt(e.capacity, num(0)) {
                    total = plus(total, e.capacity);
                }
            }
            total
        }
    };
    over(load, times(times(num(998), water_cp()), loop_delta_t(plant.design_delta_t)))
}

/// The design flow of a cooling tower that is to be sized [m3/s].
pub fn size_tower<T: Scalar>(plant: &PlantLoopInput<T>, plants: &Vec<PlantLoopInput<T>>) -> (r: T)
    ensures
        r == design_flow(*plant, condenser_capacity(plants@, plant.name@, plants@.len())),
{
    let load = sum_condenser_capacity(plants, &plant.name);
    over(load, times(times(num(998), water_cp()), loop_delta_t(plant.design_delta_t)))
}

// ---------------------------------------------------------------------------
// Staging

/// How many of the first `n` pieces of equipment are no pumps.
pub open spec fn units<T>(equipment: Seq<PlantEquipmentInput<T>>, n: nat) -> nat
    decreases n,
{
    if n == 0 {
        0
    } else {
        units(equipment, (n - 1) as nat) + if equipment[n - 1].kind == PlantEquipmentKind::Pump {
            0nat
        } else {
            1nat
        }
    }
}

/// The load of a loop on its way through the equipment.
#[derive(Clone, Copy, Debug)]
pub struct Staging<T> {
    pub total: T,
    /// What is left to be supplied [W]; negative for cooling.
    pub remaining: T,
    /// The part load of the last unit.
    pub last_part_load: T,
    /// The share of each unit where all run alike [W].
    pub per_unit: T,
}

/// The share of each unit of a loop, where all run alike.
pub open spec fn equal_share<T: Scalar>(plant: PlantLoopInput<T>, total: T) -> T {
    let n = units(plant.supply_equipment@, plant.supply_equipment@.len());
    if plant.staging_mode == StagingMode::EqualSplit && n > 0 {
        over(absolute(total), T::whole(n))
    } else {
        num(0)
    }
}

/// The load that the next piece of equipment gets [W], or nothing where the loop stops
/// before it: when the load is met, or when the last unit is below the staging threshold.
/// Pumps always carry the whole load.
pub open spec fn next_duty<T: Scalar>(
    s: Staging<T>,
    plant: PlantLoopInput<T>,
    kind: PlantEquipmentKind,
) -> Option<T> {
    if kind == PlantEquipmentKind::Pump {
        Some(absolute(s.total))
    } else if lt(absolute(s.remaining), num(1)) {
        None
    } else if plant.staging_mode == StagingMode::Sequential && lt(
        s.last_part_load,
        plant.staging_threshold,
    ) {
        None
    } else if plant.staging_mode == StagingMode::EqualSplit {
        Some(s.per_unit)
    } else {
        Some(absolute(s.remaining))
    }
}

/// The load after a piece of equipment delivered [W]. The part load of a unit is measured
/// by its capacity, or by what was left where the capacity is not known.
pub open spec fn after_unit<T: Scalar>(
    s: Staging<T>,
    kind: PlantEquipmentKind,
    delivered: T,
    capacity: T,
) -> Staging<T> {
    let before = absolute(s.remaining);
    Staging {
        remaining: if gt(s.remaining, num(0)) {
            minus(s.remaining, delivered)
        } else {
            plus(s.remaining, delivered)
        },
        last_part_load: if kind == PlantEquipmentKind::Pump {
            s.last_part_load
        } else if gt(capacity, num(0)) && capacity.finite() {
            least(over(delivered, capacity), num(1))
        } else if gt(before, num(1)) {
            least(over(delivered, before), num(1))
        } else {
            num(1)
        },
        ..s
    }
}

impl<T: Scalar> Staging<T> {
    pub fn start(plant: &PlantLoopInput<T>, total: T) -> (r: Self)
        ensures
            r.total == total,
            r.remaining == total,
            r.last_part_load == num::<T>(1),
            r.per_unit == equal_share(*plant, total),
    {
        let equipment = &plant.supply_equipment;
        let mut n: usize = 0;
        for i in 0..equipment.len()
            invariant
                n <= i,
                n == units(equipment@, i as nat),
        {
            if equipment[i].kind != PlantEquipmentKind::Pump {
                n += 1;
            }
        }
        let per_unit = if plant.staging_mode == StagingMode::EqualSplit && n > 0 {
            over(absolute(total), count(n))
        } else {
            num(0)
        };
        Staging { total, remaining: total, last_part_load: num(1), per_unit }
    }

    /// The load that the next piece of equipment gets, or nothing where the loop stops.
    pub fn next(&self, plant: &PlantLoopInput<T>, kind: PlantEquipmentKind) -> (r: Option<T>)
        ensures
            r == next_duty(*self, *plant, kind),
    {
        if kind == PlantEquipmentKind::Pump {
            return Some(absolute(self.total));
        }
        if lt(absolute(self.remaining), num(1)) {
            return None;
        }
        if plant.staging_mode == StagingMode::Sequential && lt(
            self.last_part_load,
            plant.staging_threshold,
        ) {
            return None;
        }
        if plant.staging_mode == StagingMode::EqualSplit {
            Some(self.per_unit)
        } else {
            Some(absolute(self.remaining))
        }
    }

    /// Takes up what a piece of equipment delivered.
    pub fn record(&mut self, kind: PlantEquipmentKind, delivered: T, capacity: T)
        ensures
            *final(self) == after_unit(*old(self), kind, delivered, capacity),
    {
        let before = absolute(self.remaining);
        if kind != PlantEquipmentKind::Pump {
            self.last_part_load = if gt(capacity, num(0)) && capacity.is_finite() {
                least(over(delivered, capacity), num(1))
            } else if gt(before, num(1)) {
                least(over(delivered, before), num(1))
            } else {
                num(1)
            };
        }
        self.remaining = if gt(self.remaining, num(0)) {
            minus(self.remaining, delivered)
        } else {
            plus(self.remaining, delivered)
        };
    }
}

/// The outputs of a piece of plant equipment.
pub fn unit_outputs<T: Scalar>(electric: T, fuel: T, delivered: T) -> (r: Table<T>)
    ensures
        r@ == map![
            "electric_power"@ => electric,
            "fuel_power"@ => fuel,
            "thermal_output"@ => delivered
        ],
{
    let mut outputs: Table<T> = Table::new();
    outputs.insert("electric_power", electric);
    outputs.insert("fuel_power", fuel);
    outputs.insert("thermal_output", delivered);
    outputs
}

} // verus!
