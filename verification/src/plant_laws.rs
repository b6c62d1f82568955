//! What plant loops do: whose loads they carry, what water they return, how pumps and towers are
//! sized, and how the load is shared.
use crate::control;
use crate::fixed;
use crate::fixed::Fixed;
use crate::model::{
    AirLoopInput, EquipmentInput, EquipmentKind, PlantEquipmentInput, PlantEquipmentKind,
    PlantLoopInput, StagingMode, TerminalKind, ZoneConnection,
};
use crate::plant;
use crate::plant::{LoopLoad, PanelLoad, PeakLoads, Staging};
use crate::plant_order;
use crate::scalar::{gt, num, over, plus, times, Scalar};
use vstd::arithmetic::div_mod::*;
use vstd::prelude::*;

verus! {

// ---------------------------------------------------------------------------
// Staging

/// The equipment that shares a load: everything but pumps.
pub open spec fn sharing<T>(equipment: Seq<PlantEquipmentInput<T>>) -> Seq<
    PlantEquipmentInput<T>,
> {
    equipment.filter(|e: PlantEquipmentInput<T>| e.kind != PlantEquipmentKind::Pump)
}

proof fn units_are_what_shares<T>(equipment: Seq<PlantEquipmentInput<T>>, n: nat)
    requires
        n <= equipment.len(),
    ensures
        plant::units(equipment, n) == sharing(equipment.take(n as int)).len(),
    decreases n,
{
    let keep = |e: PlantEquipmentInput<T>| e.kind != PlantEquipmentKind::Pump;
    if n == 0 {
        reveal(Seq::filter);
        assert(equipment.take(0).filter(keep).len() == 0);
    } else {
        units_are_what_shares(equipment, (n - 1) as nat);
        assert(equipment.take(n as int).drop_last() =~= equipment.take(n - 1));
        assert(equipment.take(n as int).last() == equipment[n - 1]);
        reveal(Seq::filter);
    }
}

proof fn all_units_share<T>(equipment: Seq<PlantEquipmentInput<T>>)
    ensures
        plant::units(equipment, equipment.len()) == sharing(equipment).len(),
{
    units_are_what_shares(equipment, equipment.len());
    assert(equipment.take(equipment.len() as int) =~= equipment);
}

/// Where all units run alike, the share of each times the number of pieces of equipment that are
/// no pumps is the whole load, but for rounding: units that all deliver their share leave nothing.
pub proof fn equal_shares_make_up_the_load(plant_loop: PlantLoopInput<Fixed>, total: Fixed)
    requires
        plant_loop.staging_mode == StagingMode::EqualSplit,
        sharing(plant_loop.supply_equipment@).len() > 0,
        i64::MIN < total.units,
        sharing(plant_loop.supply_equipment@).len() <= 1_000_000_000,
    ensures
        ({
            let units = sharing(plant_loop.supply_equipment@).len() as int;
            let share = plant::equal_share(plant_loop, total).units;
            let load = if total.units < 0 {
                -total.units
            } else {
                total.units as int
            };
            share * units <= load < share * units + units && 0 <= share
        }),
{
    all_units_share(plant_loop.supply_equipment@);
    let k = sharing(plant_loop.supply_equipment@).len();
    let size = total.magnitude();
    let whole = Fixed::whole(k);
    assert(whole.units == k * fixed::SCALE);
    let by = k as int;
    let q = size.units as int / by;
    lemma_fundamental_div_mod(size.units as int, by);
    lemma_mod_bound(size.units as int, by);
    lemma_div_pos_is_pos(size.units as int, by);
    let r = size.units as int % by;
    assert(size.units * fixed::SCALE == q * (by * fixed::SCALE) + fixed::SCALE * r)
        by (nonlinear_arith)
        requires
            size.units == by * q + r,
    ;
    assert(0 <= fixed::SCALE * r < by * fixed::SCALE) by (nonlinear_arith)
        requires
            0 <= r < by,
            0 < fixed::SCALE,
    ;
    lemma_fundamental_div_mod_converse(
        size.units * fixed::SCALE,
        by * fixed::SCALE,
        q,
        fixed::SCALE * r,
    );
    assert(q <= size.units) by (nonlinear_arith)
        requires
            size.units == by * q + r,
            0 <= r,
            1 <= by,
            0 <= q,
    ;
    assert(by * q == q * by) by (nonlinear_arith);
}

/// Pumps make no difference to the share of a unit: two loops with the same other equipment, in
/// number, share a load alike.
pub proof fn pumps_take_no_share<T: Scalar>(
    a: PlantLoopInput<T>,
    b: PlantLoopInput<T>,
    total: T,
)
    requires
        a.staging_mode == b.staging_mode,
        sharing(a.supply_equipment@).len() == sharing(b.supply_equipment@).len(),
    ensures
        plant::equal_share(a, total) == plant::equal_share(b, total),
{
    all_units_share(a.supply_equipment@);
    all_units_share(b.supply_equipment@);
}

/// What a piece of equipment is asked for: a pump for the whole load; a unit for nothing where
/// less than a watt is left; else, where all run alike, for its share, and in sequence for all
/// that is left, unless the unit before it is below the threshold.
pub proof fn equipment_is_asked_for_its_duty(
    s: Staging<Fixed>,
    plant_loop: PlantLoopInput<Fixed>,
    kind: PlantEquipmentKind,
)
    requires
        i64::MIN < s.total.units,
        i64::MIN < s.remaining.units,
    ensures
        ({
            let duty = plant::next_duty(s, plant_loop, kind);
            let left = if s.remaining.units < 0 {
                -s.remaining.units
            } else {
                s.remaining.units as int
            };
            let load = if s.total.units < 0 {
                -s.total.units
            } else {
                s.total.units as int
            };
            let waits = s.last_part_load.units < plant_loop.staging_threshold.units;
            &&& kind == PlantEquipmentKind::Pump ==> duty is Some && duty->Some_0.units == load
            &&& kind != PlantEquipmentKind::Pump && left < 1_000_000_000 ==> duty is None
            &&& kind != PlantEquipmentKind::Pump && left >= 1_000_000_000 ==> {
                match plant_loop.staging_mode {
                    StagingMode::Sequential => {
                        &&& waits ==> duty is None
                        &&& !waits ==> duty is Some && duty->Some_0.units == left
                    },
                    StagingMode::EqualSplit => duty == Some(s.per_unit),
                }
            }
        }),
{
    assert(num::<Fixed>(1).units == 1_000_000_000);
}

/// In sequence, a unit that delivers what it is asked for leaves nothing for the others.
pub proof fn unit_that_delivers_ends_the_sequence(
    s: Staging<Fixed>,
    plant_loop: PlantLoopInput<Fixed>,
    kind: PlantEquipmentKind,
    next: PlantEquipmentKind,
    capacity: Fixed,
)
    requires
        plant_loop.staging_mode == StagingMode::Sequential,
        kind != PlantEquipmentKind::Pump,
        next != PlantEquipmentKind::Pump,
        i64::MIN < s.remaining.units,
        plant::next_duty(s, plant_loop, kind) is Some,
    ensures
        ({
            let duty = plant::next_duty(s, plant_loop, kind)->Some_0;
            let after = plant::after_unit(s, kind, duty, capacity);
            after.remaining.units == 0 && plant::next_duty(after, plant_loop, next) is None
        }),
{
    assert(num::<Fixed>(1).units == 1_000_000_000);
}

/// The part load of a unit is what it delivered over its capacity, or over what was left where
/// its capacity is not known, and never more than one. A pump does not change it.
pub proof fn part_load_is_delivery_over_capacity(
    s: Staging<Fixed>,
    kind: PlantEquipmentKind,
    delivered: Fixed,
    capacity: Fixed,
)
    requires
        0 <= delivered.units <= 9_000_000_000_000_000_000,
        i64::MIN < s.remaining.units,
    ensures
        ({
            let part = plant::after_unit(s, kind, delivered, capacity).last_part_load.units;
            let left = s.remaining.magnitude().units;
            let known = 0 < capacity.units < i64::MAX;
            &&& kind == PlantEquipmentKind::Pump ==> part == s.last_part_load.units
            &&& kind != PlantEquipmentKind::Pump && known ==> {
                &&& delivered.units >= capacity.units ==> part == 1_000_000_000
                &&& delivered.units < capacity.units ==> part * capacity.units <= delivered.units
                    * 1_000_000_000 < part * capacity.units + capacity.units
            }
            &&& kind != PlantEquipmentKind::Pump && !known && left > 1_000_000_000 ==> {
                &&& delivered.units >= left ==> part == 1_000_000_000
                &&& delivered.units < left ==> part * left <= delivered.units * 1_000_000_000 < part
                    * left + left
            }
            &&& kind != PlantEquipmentKind::Pump && !known && left <= 1_000_000_000 ==> part
                == 1_000_000_000
        }),
{
    assert(num::<Fixed>(1).units == 1_000_000_000);
    if capacity.units > 0 {
        part_of(delivered, capacity);
    }
    if s.remaining.magnitude().units > 0 {
        part_of(delivered, s.remaining.magnitude());
    }
}

proof fn part_of(a: Fixed, by: Fixed)
    requires
        0 <= a.units <= 9_000_000_000_000_000_000,
        0 < by.units,
    ensures
        ({
            let q = a.quotient(by).lesser(num(1)).units;
            &&& a.units >= by.units ==> q == 1_000_000_000
            &&& a.units < by.units ==> q * by.units <= a.units * 1_000_000_000 < q * by.units
                + by.units
        }),
{
    assert(num::<Fixed>(1).units == 1_000_000_000);
    let exact = a.units * 1_000_000_000;
    let d = by.units as int;
    let q = exact / d;
    lemma_fundamental_div_mod(exact, d);
    lemma_mod_bound(exact, d);
    lemma_div_pos_is_pos(exact, d);
    assert(d * q == q * d) by (nonlinear_arith);
    if a.units >= d {
        assert(q >= 1_000_000_000) by (nonlinear_arith)
            requires
                exact < d * q + d,
                exact >= 1_000_000_000 * d,
                d > 0,
        ;
    } else {
        assert(q < 1_000_000_000) by (nonlinear_arith)
            requires
                d * q <= exact,
                exact < 1_000_000_000 * d,
                d > 0,
        ;
    }
}

// ---------------------------------------------------------------------------
// The load of a loop

/// The load that a named component puts on its loop: its thermal output, as often as it counts.
pub open spec fn draw_of<T: Scalar>(
    name: Seq<char>,
    outputs: plant::Outputs<T>,
    multipliers: Map<Seq<char>, T>,
) -> T {
    let thermal = if outputs[name].contains_key("thermal_output"@) {
        outputs[name]["thermal_output"@]
    } else {
        num(0)
    };
    let copies = if multipliers.contains_key(name) {
        multipliers[name]
    } else {
        num(1)
    };
    times(thermal, copies)
}

/// A name is that of a loop.
pub open spec fn names_loop(text: Option<String>, loop_name: Seq<char>) -> bool {
    text is Some && text->Some_0@ == loop_name
}

/// Of the equipment of an air loop, heating and cooling coils on a plant loop add their thermal
/// output to its load, as often as they count; all else, and coils without results, add nothing.
pub proof fn coils_load_their_loop<T: Scalar>(
    total: T,
    equipment: Seq<EquipmentInput<T>>,
    loop_name: Seq<char>,
    outputs: plant::Outputs<T>,
    multipliers: Map<Seq<char>, T>,
    n: nat,
)
    requires
        n < equipment.len(),
    ensures
        plant::with_coils(total, equipment, loop_name, outputs, multipliers, 0) == total,
        ({
            let before = plant::with_coils(total, equipment, loop_name, outputs, multipliers, n);
            let after = plant::with_coils(total, equipment, loop_name, outputs, multipliers, n + 1);
            let e = equipment[n as int];
            let on = (e.kind == EquipmentKind::HeatingCoil || e.kind == EquipmentKind::CoolingCoil)
                && names_loop(e.plant_loop, loop_name) && outputs.contains_key(e.name@);
            &&& on ==> after == plus(before, draw_of(e.name@, outputs, multipliers))
            &&& !on ==> after == before
        }),
{
}

/// Of the terminals of an air loop, VAV boxes with their reheat coil on a plant loop add their
/// thermal output to its load; all else adds nothing.
pub proof fn reheat_boxes_load_their_loop<T: Scalar>(
    total: T,
    connections: Seq<ZoneConnection<T>>,
    loop_name: Seq<char>,
    outputs: plant::Outputs<T>,
    multipliers: Map<Seq<char>, T>,
    n: nat,
)
    requires
        n < connections.len(),
    ensures
        plant::with_boxes(total, connections, loop_name, outputs, multipliers, 0) == total,
        ({
            let before = plant::with_boxes(total, connections, loop_name, outputs, multipliers, n);
            let after = plant::with_boxes(
                total,
                connections,
                loop_name,
                outputs,
                multipliers,
                n + 1,
            );
            match connections[n as int].terminal {
                Some(t) => {
                    let on = t.kind == TerminalKind::VavBox && names_loop(t.plant_loop, loop_name)
                        && outputs.contains_key(t.name@);
                    &&& on ==> after == plus(before, draw_of(t.name@, outputs, multipliers))
                    &&& !on ==> after == before
                },
                None => after == before,
            }
        }),
{
}

/// Each air loop adds its coils and then its boxes to the load of a plant loop.
pub proof fn air_loops_load_a_plant_loop<T: Scalar>(
    loops: Seq<AirLoopInput<T>>,
    loop_name: Seq<char>,
    outputs: plant::Outputs<T>,
    multipliers: Map<Seq<char>, T>,
    n: nat,
)
    requires
        n < loops.len(),
    ensures
        plant::air_side_load(loops, loop_name, outputs, multipliers, 0) == num::<T>(0),
        ({
            let al = loops[n as int];
            let start = plant::air_side_load(loops, loop_name, outputs, multipliers, n);
            let coils = plant::with_coils(
                start,
                al.equipment@,
                loop_name,
                outputs,
                multipliers,
                al.equipment@.len(),
            );
            plant::air_side_load(loops, loop_name, outputs, multipliers, n + 1)
                == plant::with_boxes(
                coils,
                al.zone_terminals@,
                loop_name,
                outputs,
                multipliers,
                al.zone_terminals@.len(),
            )
        }),
{
}

/// Radiant panels on a plant loop add what they give to their zones; others add nothing.
pub proof fn panels_load_their_loop<T: Scalar>(
    total: T,
    panels: Seq<PanelLoad<T>>,
    loop_name: Seq<char>,
    n: nat,
)
    requires
        n < panels.len(),
    ensures
        plant::with_panels(total, panels, loop_name, 0) == total,
        ({
            let before = plant::with_panels(total, panels, loop_name, n);
            let after = plant::with_panels(total, panels, loop_name, n + 1);
            let p = panels[n as int];
            &&& names_loop(p.plant_loop, loop_name) ==> after == plus(before, p.thermal_output)
            &&& !names_loop(p.plant_loop, loop_name) ==> after == before
        }),
{
}

/// An output of a component, or nothing.
pub open spec fn output_of<T: Scalar>(outputs: Map<Seq<char>, T>, key: Seq<char>) -> T {
    if outputs.contains_key(key) {
        outputs[key]
    } else {
        num(0)
    }
}

/// Chillers with their condenser on a loop reject to it what they take from the chilled water and
/// what they draw; other equipment rejects nothing.
pub proof fn chillers_reject_heat_and_power<T: Scalar>(
    total: T,
    equipment: Seq<PlantEquipmentInput<T>>,
    loop_name: Seq<char>,
    outputs: plant::Outputs<T>,
    n: nat,
)
    requires
        n < equipment.len(),
    ensures
        plant::with_condensers(total, equipment, loop_name, outputs, 0) == total,
        ({
            let before = plant::with_condensers(total, equipment, loop_name, outputs, n);
            let after = plant::with_condensers(total, equipment, loop_name, outputs, n + 1);
            let e = equipment[n as int];
            let on = e.kind == PlantEquipmentKind::Chiller && names_loop(
                e.condenser_plant_loop,
                loop_name,
            ) && outputs.contains_key(e.name@);
            &&& on ==> after == plus(
                before,
                plus(
                    output_of(outputs[e.name@], "thermal_output"@),
                    output_of(outputs[e.name@], "electric_power"@),
                ),
            )
            &&& !on ==> after == before
        }),
{
}

/// Each plant loop adds its chillers to the heat that is rejected to a loop.
pub proof fn plant_loops_reject_to_a_loop<T: Scalar>(
    plants: Seq<PlantLoopInput<T>>,
    loop_name: Seq<char>,
    outputs: plant::Outputs<T>,
    n: nat,
)
    requires
        n < plants.len(),
    ensures
        plant::condenser_load(plants, loop_name, outputs, 0) == num::<T>(0),
        plant::condenser_load(plants, loop_name, outputs, n + 1) == plant::with_condensers(
            plant::condenser_load(plants, loop_name, outputs, n),
            plants[n as int].supply_equipment@,
            loop_name,
            outputs,
            plants[n as int].supply_equipment@.len(),
        ),
{
}

/// A loop to which heat is rejected carries that heat; any other carries what the air side and the
/// panels take from it.
pub proof fn rejected_heat_makes_a_condenser_loop(
    loops: Seq<AirLoopInput<Fixed>>,
    plants: Seq<PlantLoopInput<Fixed>>,
    panels: Seq<PanelLoad<Fixed>>,
    loop_name: Seq<char>,
    outputs: plant::Outputs<Fixed>,
    multipliers: Map<Seq<char>, Fixed>,
)
    ensures
        ({
            let load = plant::loop_load(loops, plants, panels, loop_name, outputs, multipliers);
            let rejected = plant::condenser_load(plants, loop_name, outputs, plants.len());
            let taken = plant::with_panels(
                plant::air_side_load(loops, loop_name, outputs, multipliers, loops.len()),
                panels,
                loop_name,
                panels.len(),
            );
            &&& rejected.units > 0 ==> load.is_condenser && load.total == rejected
            &&& rejected.units <= 0 ==> !load.is_condenser && load.total == taken
        }),
{
}

// ---------------------------------------------------------------------------
// Water

/// A flow of water carries a load over a temperature difference: flow times 4186 J/(kg K) times
/// the difference is the load, but for rounding. `size` is that of the load.
proof fn flow_carries(size: Fixed, delta: Fixed, factor: Fixed)
    requires
        0 <= size.units,
        1_000_000_000 <= factor.units <= 9_000_000_000_000_000,
        1_000_000_000 <= delta.units <= 1_000_000_000_000,
        size.units <= 9_000_000_000_000_000_000,
    ensures
        ({
            let per = factor.product(delta).units;
            let flow = size.quotient(factor.product(delta)).units;
            &&& flow * per <= size.units * 1_000_000_000 < flow * per + per
            &&& factor.units * delta.units - 1_000_000_000 < 1_000_000_000 * per <= factor.units
                * delta.units
        }),
{
    let exact = factor.units * delta.units;
    assert(1_000_000_000_000_000_000 <= exact <= 9_000_000_000_000_000_000_000_000_000)
        by (nonlinear_arith)
        requires
            exact == factor.units * delta.units,
            1_000_000_000 <= factor.units <= 9_000_000_000_000_000,
            1_000_000_000 <= delta.units <= 1_000_000_000_000,
    ;
    lemma_fundamental_div_mod(exact, fixed::SCALE as int);
    lemma_mod_bound(exact, fixed::SCALE as int);
    let per = factor.product(delta);
    assert(per.units >= 1_000_000_000);
    let top = size.units * 1_000_000_000;
    let d = per.units as int;
    lemma_fundamental_div_mod(top, d);
    lemma_mod_bound(top, d);
    lemma_div_pos_is_pos(top, d);
    let q = top / d;
    assert(q <= size.units) by (nonlinear_arith)
        requires
            top == d * q + top % d,
            0 <= top % d,
            d >= 1_000_000_000,
            top == size.units * 1_000_000_000,
            0 <= q,
    ;
    assert(d * q == q * d) by (nonlinear_arith);
}

/// The water that returns to the equipment of a loop under load carries it: it is colder than the
/// setpoint by the design difference where the loop heats, and warmer by it where the loop cools
/// or takes heat from condensers; its flow times 4186 J/(kg K) times the difference is the load,
/// but for rounding. Without a load nothing returns. A difference of less than one counts as one.
pub proof fn return_water_carries_the_load(
    plant_loop: PlantLoopInput<Fixed>,
    load: LoopLoad<Fixed>,
    t_outdoor: Fixed,
)
    requires
        plant_loop.setpoint_reset is None,
        -1_000_000_000_000_000 <= plant_loop.design_supply_temp.units <= 1_000_000_000_000_000,
        plant_loop.design_delta_t.units <= 1_000_000_000_000,
        -9_000_000_000_000_000_000 <= load.total.units <= 9_000_000_000_000_000_000,
    ensures
        ({
            let water = plant::return_water(plant_loop, load, t_outdoor);
            let delta = if plant_loop.design_delta_t.units > 1_000_000_000 {
                plant_loop.design_delta_t.units as int
            } else {
                1_000_000_000
            };
            let size = if load.total.units < 0 {
                -load.total.units
            } else {
                load.total.units as int
            };
            &&& load.total.units == 0 ==> water is None
            &&& load.total.units != 0 ==> {
                let (temp, flow) = (water->Some_0.temp.units, water->Some_0.flow.units);
                let per = 4186 * delta;
                &&& water is Some
                &&& load.total.units > 0 && !load.is_condenser ==> temp
                    == plant_loop.design_supply_temp.units - delta
                &&& load.total.units < 0 || load.is_condenser ==> temp
                    == plant_loop.design_supply_temp.units + delta
                &&& flow * per <= size * 1_000_000_000 < flow * per + per
            }
        }),
{
    assert(num::<Fixed>(1).units == 1_000_000_000);
    assert(num::<Fixed>(4186).units == 4_186_000_000_000);
    if load.total.units != 0 {
        let delta = plant_loop.design_delta_t.greater(num(1));
        flow_carries(load.total.magnitude(), delta, num(4186));
        assert(num::<Fixed>(4186).units * delta.units == 1_000_000_000 * (4186 * delta.units))
            by (nonlinear_arith)
            requires
                num::<Fixed>(4186).units == 4_186_000_000_000,
        ;
    }
}

/// A pump or tower is sized for a flow that carries its load over the design difference: 998
/// kg/m3 times 4186 J/(kg K) times the difference, but for rounding.
pub proof fn design_flow_carries_the_load(plant_loop: PlantLoopInput<Fixed>, load: Fixed)
    requires
        0 <= load.units <= 9_000_000_000_000_000_000,
        plant_loop.design_delta_t.units <= 1_000_000_000_000,
    ensures
        ({
            let flow = plant::design_flow(plant_loop, load).units;
            let delta = if plant_loop.design_delta_t.units > 1_000_000_000 {
                plant_loop.design_delta_t.units as int
            } else {
                1_000_000_000
            };
            let per = 998 * 4186 * delta;
            flow * per <= load.units * 1_000_000_000 < flow * per + per
        }),
{
    assert(num::<Fixed>(1).units == 1_000_000_000);
    assert(num::<Fixed>(4186).units == 4_186_000_000_000);
    assert(num::<Fixed>(998).units == 998_000_000_000);
    let factor = num::<Fixed>(998).product(num(4186));
    assert(factor.units == 4_177_628_000_000_000) by {
        assert(998_000_000_000int * 4_186_000_000_000int / 1_000_000_000
            == 4_177_628_000_000_000);
    }
    let delta = plant_loop.design_delta_t.greater(num(1));
    flow_carries(load, delta, factor);
    assert(factor.units * delta.units == 1_000_000_000 * (998 * 4186 * delta.units))
        by (nonlinear_arith)
        requires
            factor.units == 4_177_628_000_000_000,
    ;
}

// ---------------------------------------------------------------------------
// Sizes

/// Pumps are sized for the condensers on a condenser loop, for the heating peak on a loop with
/// boilers and no chillers, for the cooling peak on one with chillers and no boilers, and else
/// for what is installed.
pub proof fn pumps_are_sized_for_their_loop<T: Scalar>(
    plant_loop: PlantLoopInput<T>,
    plants: Seq<PlantLoopInput<T>>,
    is_condenser: bool,
    peaks: PeakLoads<T>,
)
    ensures
        ({
            let equipment = plant_loop.supply_equipment@;
            let boiler = exists|i: int|
                0 <= i < equipment.len() && (#[trigger] equipment[i]).kind
                    == PlantEquipmentKind::Boiler;
            let chiller = exists|i: int|
                0 <= i < equipment.len() && (#[trigger] equipment[i]).kind
                    == PlantEquipmentKind::Chiller;
            let load = plant::pump_capacity(plant_loop, plants, is_condenser, peaks);
            &&& is_condenser ==> load == plant::condenser_capacity(
                plants,
                plant_loop.name@,
                plants.len(),
            )
            &&& !is_condenser && boiler && !chiller ==> load == peaks.heating
            &&& !is_condenser && chiller && !boiler ==> load == peaks.cooling
            &&& !is_condenser && boiler == chiller ==> load == plant::installed_capacity(
                equipment,
                equipment.len(),
            )
        }),
{
}

/// What is installed is the capacity of boilers and chillers, where it is known.
pub proof fn boilers_and_chillers_are_installed<T: Scalar>(
    equipment: Seq<PlantEquipmentInput<T>>,
    n: nat,
)
    requires
        n < equipment.len(),
    ensures
        plant::installed_capacity(equipment, 0) == num::<T>(0),
        ({
            let before = plant::installed_capacity(equipment, n);
            let after = plant::installed_capacity(equipment, n + 1);
            let e = equipment[n as int];
            let counts = (e.kind == PlantEquipmentKind::Boiler || e.kind
                == PlantEquipmentKind::Chiller) && gt(e.capacity, num(0));
            &&& counts ==> after == plus(before, e.capacity)
            &&& !counts ==> after == before
        }),
{
}

/// The condenser of a chiller of known capacity on a loop rejects its capacity and what it draws
/// for it: the capacity times one and one over the COP.
pub proof fn condensers_reject_capacity_and_power<T: Scalar>(
    total: T,
    equipment: Seq<PlantEquipmentInput<T>>,
    loop_name: Seq<char>,
    n: nat,
)
    requires
        n < equipment.len(),
    ensures
        plant::with_condenser_caps(total, equipment, loop_name, 0) == total,
        ({
            let before = plant::with_condenser_caps(total, equipment, loop_name, n);
            let after = plant::with_condenser_caps(total, equipment, loop_name, n + 1);
            let e = equipment[n as int];
            let on = e.kind == PlantEquipmentKind::Chiller && names_loop(
                e.condenser_plant_loop,
                loop_name,
            ) && gt(e.capacity, num(0));
            &&& on ==> after == plus(
                before,
                times(e.capacity, plus(num(1), over(num(1), e.cop))),
            )
            &&& !on ==> after == before
        }),
{
}

/// Each plant loop adds its chillers to the condenser capacity of a loop.
pub proof fn plant_loops_have_condensers<T: Scalar>(
    plants: Seq<PlantLoopInput<T>>,
    loop_name: Seq<char>,
    n: nat,
)
    requires
        n < plants.len(),
    ensures
        plant::condenser_capacity(plants, loop_name, 0) == num::<T>(0),
        plant::condenser_capacity(plants, loop_name, n + 1) == plant::with_condenser_caps(
            plant::condenser_capacity(plants, loop_name, n),
            plants[n as int].supply_equipment@,
            loop_name,
            plants[n as int].supply_equipment@.len(),
        ),
{
}

/// Without a reset a loop is held at its design supply temperature; with one, at what the reset
/// says.
pub proof fn plant_setpoint_is_design_or_reset<T: Scalar>(
    plant_loop: PlantLoopInput<T>,
    t_outdoor: T,
)
    ensures
        plant_loop.setpoint_reset is None ==> plant::plant_setpoint(plant_loop, t_outdoor)
            == plant_loop.design_supply_temp,
        plant_loop.setpoint_reset matches Some(reset) ==> plant::plant_setpoint(
            plant_loop,
            t_outdoor,
        ) == control::plant_reset(reset, t_outdoor),
{
}

// ---------------------------------------------------------------------------
// Links between loops

/// A loop is found by its name at the last place that has it.
pub proof fn loops_are_found_by_name<T>(
    plants: Seq<PlantLoopInput<T>>,
    name: Seq<char>,
    n: nat,
)
    requires
        n <= plants.len(),
        plants.len() <= usize::MAX,
    ensures
        ({
            let r = plant_order::loop_named(plants, name, n);
            &&& r is Some ==> r->Some_0 < n && plants[r->Some_0 as int].name@ == name && forall|i:
                int| r->Some_0 < i < n ==> (#[trigger] plants[i]).name@ != name
            &&& r is None ==> forall|i: int| 0 <= i < n ==> (#[trigger] plants[i]).name@ != name
        }),
    decreases n,
{
    if n > 0 {
        loops_are_found_by_name(plants, name, (n - 1) as nat);
    }
}

/// A heat exchanger links its source loop to its own, and a water-cooled chiller its own loop to that
/// of its condenser; one link each, where the loop it names exists, and no other equipment links.
pub proof fn exchangers_and_chillers_link_loops<T>(
    plants: Seq<PlantLoopInput<T>>,
    links: plant_order::Links,
    i: int,
    m: nat,
)
    requires
        0 <= i < plants.len() <= usize::MAX,
        links.len() == plants.len(),
        m < plants[i].supply_equipment@.len(),
    ensures
        plant_order::with_loop(links, plants, i, 0) == links,
        ({
            let before = plant_order::with_loop(links, plants, i, m);
            let after = plant_order::with_loop(links, plants, i, m + 1);
            let e = plants[i].supply_equipment@[m as int];
            let exchanger = e.kind == PlantEquipmentKind::HeatExchanger;
            let chiller = e.kind == PlantEquipmentKind::Chiller && e.condenser_plant_loop is Some;
            let source = plant_order::loop_named(plants, e.source_loop@, plants.len());
            let sink = plant_order::loop_named(
                plants,
                e.condenser_plant_loop->Some_0@,
                plants.len(),
            );
            &&& after.len() == before.len()
            &&& exchanger && source is Some ==> after == before.update(
                source->Some_0 as int,
                before[source->Some_0 as int].push(i as usize),
            )
            &&& chiller && sink is Some ==> after == before.update(
                i,
                before[i].push(sink->Some_0),
            )
            &&& !(exchanger && source is Some) && !(chiller && sink is Some) ==> after == before
        }),
{
    links_stay_as_many(plants, links, i, m);
    let e = plants[i].supply_equipment@[m as int];
    loops_are_found_by_name(plants, e.source_loop@, plants.len());
    if e.condenser_plant_loop is Some {
        loops_are_found_by_name(plants, e.condenser_plant_loop->Some_0@, plants.len());
    }
}

proof fn links_stay_as_many<T>(
    plants: Seq<PlantLoopInput<T>>,
    links: plant_order::Links,
    i: int,
    m: nat,
)
    requires
        0 <= i < plants.len() <= usize::MAX,
        links.len() == plants.len(),
        m <= plants[i].supply_equipment@.len(),
    ensures
        plant_order::with_loop(links, plants, i, m).len() == plants.len(),
    decreases m,
{
    if m > 0 {
        links_stay_as_many(plants, links, i, (m - 1) as nat);
        let e = plants[i].supply_equipment@[m - 1];
        loops_are_found_by_name(plants, e.source_loop@, plants.len());
        if e.condenser_plant_loop is Some {
            loops_are_found_by_name(plants, e.condenser_plant_loop->Some_0@, plants.len());
        }
    }
}

/// Loops begin without links, and each loop in turn adds those of all its equipment.
pub proof fn each_loop_adds_its_links<T>(plants: Seq<PlantLoopInput<T>>, n: nat)
    requires
        n < plants.len(),
    ensures
        plant_order::loop_links(plants, 0).len() == plants.len(),
        forall|i: int|
            0 <= i < plants.len() ==> (#[trigger] plant_order::loop_links(plants, 0)[i]).len() == 0,
        plant_order::loop_links(plants, n + 1) == plant_order::with_loop(
            plant_order::loop_links(plants, n),
            plants,
            n as int,
            plants[n as int].supply_equipment@.len(),
        ),
{
}

proof fn released_are_behind(s: plant_order::Sort, list: Seq<usize>, m: nat)
    ensures
        ({
            let r = plant_order::released(s, list, m);
            &&& r.placed == s.placed
            &&& r.ready.len() >= s.ready.len()
            &&& forall|i: int| 0 <= i < s.ready.len() ==> r.ready[i] == s.ready[i]
        }),
    decreases m,
{
    if m > 0 {
        released_are_behind(s, list, (m - 1) as nat);
    }
}

proof fn first_ready_is_placed_first(links: plant_order::Links, k: nat)
    requires
        forall|j: nat| j < k ==> (#[trigger] plant_order::sorted_for(links, j)).ready.len() > 0,
    ensures
        ({
            let first = plant_order::start(links).ready;
            let s = plant_order::sorted_for(links, k);
            let all = s.placed + s.ready;
            &&& all.len() >= first.len()
            &&& forall|i: int| 0 <= i < first.len() ==> all[i] == first[i]
        }),
    decreases k,
{
    if k > 0 {
        let j = (k - 1) as nat;
        first_ready_is_placed_first(links, j);
        let s = plant_order::sorted_for(links, j);
        assert(s.ready.len() > 0);
        let a = s.ready[0];
        let moved = plant_order::Sort {
            ready: s.ready.drop_first(),
            open: s.open,
            placed: s.placed.push(a),
        };
        released_are_behind(moved, links[a as int], links[a as int].len());
        let t = plant_order::sorted_for(links, k);
        let before = s.placed + s.ready;
        let after = t.placed + t.ready;
        assert forall|i: int| 0 <= i < before.len() implies after[i] == before[i] by {
            if i < s.placed.len() {
                assert(after[i] == moved.placed[i]);
            } else if i == s.placed.len() {
                assert(after[i] == a);
            } else {
                assert(after[i] == t.ready[i - s.placed.len() - 1]);
                assert(moved.ready[i - s.placed.len() - 1] == s.ready[i - s.placed.len()]);
            }
        }
    }
}

proof fn sources_are_in_order(links: plant_order::Links, n: nat)
    requires
        n <= usize::MAX,
    ensures
        ({
            let r = plant_order::without_links(links, n);
            &&& forall|i: int, j: int| 0 <= i < j < r.len() ==> r[i] < r[j]
            &&& forall|i: int| 0 <= i < r.len() ==> r[i] < n
            &&& forall|b: usize|
                b < n ==> (#[trigger] r.contains(b) <==> plant_order::open_links(
                    links,
                    Seq::empty(),
                    b,
                    links.len(),
                ) == 0)
        }),
    decreases n,
{
    if n > 0 {
        let m = (n - 1) as nat;
        sources_are_in_order(links, m);
        let rest = plant_order::without_links(links, m);
        let r = plant_order::without_links(links, n);
        assert forall|b: usize| b < n implies (#[trigger] r.contains(b)
            <==> plant_order::open_links(links, Seq::empty(), b, links.len()) == 0) by {
            if rest.contains(b) {
                let i = choose|i: int| 0 <= i < rest.len() && rest[i] == b;
                assert(r[i] == b);
            }
            if r.contains(b) {
                let i = choose|i: int| 0 <= i < r.len() && r[i] == b;
                if i < rest.len() {
                    assert(rest[i] == b);
                    assert(rest.contains(b));
                }
            }
            if b == m && r.len() > rest.len() {
                assert(r[rest.len() as int] == b);
            }
        }
    }
}

proof fn no_link_is_open(links: plant_order::Links, b: usize, n: nat)
    requires
        n <= links.len(),
    ensures
        plant_order::open_links(links, Seq::empty(), b, n) == 0 <==> forall|a: int|
            0 <= a < n ==> !(#[trigger] links[a]).contains(b),
    decreases n,
{
    if n > 0 {
        no_link_is_open(links, b, (n - 1) as nat);
        plant_order::times_in_positive(links[n - 1], b);
        let last = links[n - 1];
        if exists|a: int| 0 <= a < n - 1 && (#[trigger] links[a]).contains(b) {
            let a = choose|a: int| 0 <= a < n - 1 && (#[trigger] links[a]).contains(b);
            assert(links[a].contains(b));
        }
    }
}

/// Loops that no other loop links to come first, in the order of the model, so that loops without any
/// links stay in their order.
pub proof fn loops_without_sources_come_first(
    links: plant_order::Links,
    order: Seq<usize>,
    steps: nat,
) -> (r: Seq<usize>)
    requires
        links.len() <= usize::MAX,
        plant_order::is_loop_order(links, order, steps),
    ensures
        r.len() <= order.len(),
        order.take(r.len() as int) == r,
        forall|i: int, j: int| 0 <= i < j < r.len() ==> r[i] < r[j],
        forall|b: usize|
            b < links.len() ==> (#[trigger] r.contains(b) <==> forall|a: int|
                0 <= a < links.len() ==> !(#[trigger] links[a]).contains(b)),
{
    let r = plant_order::start(links).ready;
    first_ready_is_placed_first(links, steps);
    sources_are_in_order(links, links.len());
    let s = plant_order::sorted_for(links, steps);
    assert(s.placed + s.ready =~= s.placed);
    assert(order.take(r.len() as int) =~= r);
    assert forall|b: usize| b < links.len() implies (#[trigger] r.contains(b) <==> forall|a: int|
        0 <= a < links.len() ==> !(#[trigger] links[a]).contains(b)) by {
        no_link_is_open(links, b, links.len());
    }
    r
}

} // verus!
