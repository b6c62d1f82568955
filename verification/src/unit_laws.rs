//! What a ground-source heat pump does in a timestep, on fixed-point numbers: which way it runs,
//! how much heat it moves, what becomes of the air, and what it draws for it.
use crate::fixed;
use crate::fixed::Fixed;
use crate::gshp;
use crate::gshp::{AirPort, CurveValues, GroundSourceHeatPump, GshpMode};
use crate::rounding::product_rounds_down;
use crate::scalar::{lit, minus, num, plus, Monotone, Scalar};
use vstd::arithmetic::div_mod::*;
use vstd::prelude::*;

verus! {

// ---------------------------------------------------------------------------
// Products and quotients of numbers that are not negative

proof fn product_of_positive(a: Fixed, b: Fixed)
    requires
        0 <= a.units,
        0 <= b.units,
        a.units * b.units <= 9_000_000_000_000_000_000 * 1_000_000_000,
    ensures
        fixed::SCALE * a.product(b).units <= a.units * b.units < fixed::SCALE * a.product(b).units
            + fixed::SCALE,
        0 <= a.product(b).units,
{
    let exact = a.units * b.units;
    assert(exact >= 0) by (nonlinear_arith)
        requires
            exact == a.units * b.units,
            0 <= a.units,
            0 <= b.units,
    ;
    lemma_fundamental_div_mod(exact, fixed::SCALE as int);
    lemma_mod_bound(exact, fixed::SCALE as int);
    lemma_div_pos_is_pos(exact, fixed::SCALE as int);
}

proof fn quotient_of_positive(a: Fixed, d: Fixed)
    requires
        0 <= a.units,
        0 < d.units,
        a.units * 1_000_000_000 <= 9_000_000_000_000_000_000 * d.units,
    ensures
        ({
            let q = a.quotient(d).units;
            &&& q * d.units <= a.units * 1_000_000_000 < q * d.units + d.units
            &&& 0 <= q
        }),
{
    let exact = a.units * 1_000_000_000;
    let by = d.units as int;
    let q = exact / by;
    lemma_fundamental_div_mod(exact, by);
    lemma_mod_bound(exact, by);
    lemma_div_pos_is_pos(exact, by);
    assert(by * q == q * by) by (nonlinear_arith);
    assert(q <= 9_000_000_000_000_000_000) by (nonlinear_arith)
        requires
            exact == by * q + exact % by,
            0 <= exact % by < by,
            exact <= 9_000_000_000_000_000_000 * by,
            0 < by,
    ;
}

// ---------------------------------------------------------------------------
// The mode

/// The unit heats where the setpoint is more than a tenth of a degree above the air, cools where
/// it is more than that below, and is off in between, without flow, and where the setpoint is out
/// of the range from -50 C to 90 C.
pub proof fn unit_runs_towards_its_setpoint(
    unit: GroundSourceHeatPump<Fixed>,
    inlet: AirPort<Fixed>,
    day: u32,
    cp: Fixed,
    curves: CurveValues<Fixed>,
)
    requires
        -1_000_000_000_000_000 <= inlet.t_db.units <= 1_000_000_000_000_000,
    ensures
        ({
            let sp = unit.outlet_temp_setpoint.units;
            let t = inlet.t_db.units;
            let live = inlet.mass_flow.units > 0 && -50_000_000_000 < sp < 90_000_000_000;
            let mode = gshp::after_air(unit, inlet, day, cp, curves).0.mode;
            &&& mode == GshpMode::Heating <==> live && sp > t + 100_000_000
            &&& mode == GshpMode::Cooling <==> live && sp < t - 100_000_000
        }),
{
    assert(lit::<Fixed>(1, 10).units == 100_000_000);
    assert(num::<Fixed>(90).units == 90_000_000_000);
    assert(num::<Fixed>(50).units == 50_000_000_000);
}

/// The water that enters a unit comes from the loop of the ground: above the ground temperature
/// while it cools, and below it while it heats.
pub proof fn water_comes_from_the_ground<T: Scalar>(
    unit: GroundSourceHeatPump<T>,
    inlet: AirPort<T>,
    day: u32,
    cp: T,
    curves: CurveValues<T>,
)
    ensures
        ({
            let after = gshp::after_air(unit, inlet, day, cp, curves).0;
            let ground = gshp::ground_temp(unit, day);
            match after.mode {
                GshpMode::Cooling => after.current_ewt == plus(
                    ground,
                    unit.loop_approach_cooling_k,
                ),
                GshpMode::Heating => after.current_ewt == minus(
                    ground,
                    unit.loop_approach_heating_k,
                ),
                GshpMode::Off => after.current_ewt == unit.current_ewt,
            }
        }),
{
}

// ---------------------------------------------------------------------------
// Heat

/// The heat that the unit moves, whichever way.
pub open spec fn heat_of(unit: GroundSourceHeatPump<Fixed>) -> Fixed {
    if unit.mode == GshpMode::Cooling {
        unit.air_thermal_output.opposite()
    } else {
        unit.air_thermal_output
    }
}

/// The capacity modifier that counts: that of the curve, or else the built-in one at the entering
/// water temperature.
pub open spec fn capacity_modifier(
    after: GroundSourceHeatPump<Fixed>,
    curves: CurveValues<Fixed>,
) -> Fixed {
    match curves.cap {
        Some(cap) => cap,
        None => gshp::rating_modifiers(after.mode, after.current_ewt).0,
    }
}

/// The energy-input modifier that counts.
pub open spec fn input_modifier(
    after: GroundSourceHeatPump<Fixed>,
    curves: CurveValues<Fixed>,
) -> Fixed {
    match curves.eir {
        Some(eir) => eir,
        None => gshp::rating_modifiers(after.mode, after.current_ewt).1,
    }
}

/// Heat goes to the air in heating and from it in cooling, as much as brings the air to the
/// setpoint, but never more than the rated capacity of the mode times its modifier. A unit that
/// is off moves none.
pub proof fn heat_is_what_is_needed_or_can_be_had(
    unit: GroundSourceHeatPump<Fixed>,
    inlet: AirPort<Fixed>,
    day: u32,
    cp: Fixed,
    curves: CurveValues<Fixed>,
)
    ensures
        ({
            let after = gshp::after_air(unit, inlet, day, cp, curves).0;
            let stream = inlet.mass_flow.product(cp);
            let heat = heat_of(after).units;
            let cap = capacity_modifier(after, curves);
            match after.mode {
                GshpMode::Off => after.air_thermal_output.units == 0,
                GshpMode::Heating => {
                    let needed = stream.product(
                        unit.outlet_temp_setpoint.difference(inlet.t_db),
                    ).units;
                    let available = unit.rated_heating_capacity.product(cap).units;
                    &&& after.air_thermal_output.units >= 0
                    &&& needed <= 0 || available <= 0 ==> heat == 0
                    &&& 0 <= needed <= available ==> heat == needed
                    &&& 0 <= available <= needed ==> heat == available
                },
                GshpMode::Cooling => {
                    let needed = stream.product(
                        inlet.t_db.difference(unit.outlet_temp_setpoint),
                    ).units;
                    let available = unit.rated_cooling_capacity.product(cap).units;
                    &&& after.air_thermal_output.units <= 0
                    &&& needed <= 0 || available <= 0 ==> heat == 0
                    &&& 0 <= needed <= available ==> heat == needed
                    &&& 0 <= available <= needed ==> heat == available
                },
            }
        }),
{
}

/// The air takes up the heat that is given to it, and gives up the heat that is taken from it:
/// the change of its temperature times its flow and heat capacity is the heat, but for rounding.
/// Its humidity, pressure and flow stay as they were.
pub proof fn air_takes_up_the_heat(
    unit: GroundSourceHeatPump<Fixed>,
    inlet: AirPort<Fixed>,
    day: u32,
    cp: Fixed,
    curves: CurveValues<Fixed>,
)
    requires
        inlet.mass_flow.product(cp).units >= 1000,
        -1_000_000_000_000_000 <= inlet.t_db.units <= 1_000_000_000_000_000,
        heat_of(gshp::after_air(unit, inlet, day, cp, curves).0).units
            <= 1_000_000 * inlet.mass_flow.product(cp).units,
    ensures
        ({
            let (after, outlet) = gshp::after_air(unit, inlet, day, cp, curves);
            let stream = inlet.mass_flow.product(cp).units;
            let heat = heat_of(after).units;
            let warmed = outlet.t_db.units - inlet.t_db.units;
            &&& outlet.w == inlet.w && outlet.p_b == inlet.p_b && outlet.mass_flow
                == inlet.mass_flow
            &&& match after.mode {
                GshpMode::Off => warmed == 0,
                GshpMode::Heating => heat * 1_000_000_000 - stream < warmed * stream <= heat
                    * 1_000_000_000,
                GshpMode::Cooling => heat * 1_000_000_000 - stream < -warmed * stream <= heat
                    * 1_000_000_000,
            }
        }),
{
    let (after, outlet) = gshp::after_air(unit, inlet, day, cp, curves);
    if after.mode != GshpMode::Off {
        let stream = inlet.mass_flow.product(cp);
        let heat = heat_of(after);
        assert(lit::<Fixed>(1, 1_000_000).units == 1000);
        assert(stream.greater(lit(1, 1_000_000)) == stream);
        quotient_of_positive(heat, stream);
        let change = heat.quotient(stream);
        assert(change.units <= 1_000_000_000_000_000) by (nonlinear_arith)
            requires
                change.units * stream.units <= heat.units * 1_000_000_000,
                heat.units <= 1_000_000 * stream.units,
                stream.units > 0,
        ;
    }
}

// ---------------------------------------------------------------------------
// Power

/// The compressor of a unit for a heat, a modifier and a COP.
proof fn compressor_for(heat: Fixed, eir: Fixed, cop: Fixed)
    requires
        0 <= heat.units <= 10_000_000_000_000_000,
        0 <= eir.units <= 10_000_000_000,
        100_000_000 <= cop.units,
    ensures
        ({
            let c = heat.product(eir).quotient(cop.greater(lit(1, 10))).units;
            &&& heat.units * eir.units - 1_000_000_000 - cop.units < c * cop.units <= heat.units
                * eir.units
            &&& 0 <= c <= 1_000_000_000_000_000_000
        }),
{
    assert(lit::<Fixed>(1, 10).units == 100_000_000);
    assert(cop.greater(lit(1, 10)).units == cop.units);
    assert(heat.units * eir.units <= 100_000_000_000_000_000_000_000_000) by (nonlinear_arith)
        requires
            0 <= heat.units <= 10_000_000_000_000_000,
            0 <= eir.units <= 10_000_000_000,
    ;
    product_of_positive(heat, eir);
    let p = heat.product(eir);
    assert(p.units <= 100_000_000_000_000_000);
    assert(p.units * 1_000_000_000 <= 9_000_000_000_000_000_000 * cop.units) by (nonlinear_arith)
        requires
            p.units <= 100_000_000_000_000_000,
            100_000_000 <= cop.units,
    ;
    quotient_of_positive(p, cop);
    let c = p.quotient(cop).units;
    assert(c <= 1_000_000_000_000_000_000) by (nonlinear_arith)
        requires
            c * cop.units <= p.units * 1_000_000_000,
            p.units <= 100_000_000_000_000_000,
            100_000_000 <= cop.units,
    ;
}

/// Heat, modifiers and COPs of a size that a machine has.
pub open spec fn is_machine_sized(
    unit: GroundSourceHeatPump<Fixed>,
    heat: Fixed,
    eir: Fixed,
) -> bool {
    &&& 0 <= heat.units <= 10_000_000_000_000_000
    &&& 0 <= eir.units <= 10_000_000_000
    &&& 100_000_000 <= unit.cop_cooling.units
    &&& 100_000_000 <= unit.cop_heating.units
}

/// What the compressor draws, times the rated COP of the mode, is the heat that it moves times its
/// energy-input modifier, but for rounding. What the unit draws beside it is the loop pump, by the
/// rated capacity of the mode.
pub proof fn compressor_draws_by_the_cop(
    unit: GroundSourceHeatPump<Fixed>,
    inlet: AirPort<Fixed>,
    day: u32,
    cp: Fixed,
    curves: CurveValues<Fixed>,
)
    requires
        ({
            let after = gshp::after_air(unit, inlet, day, cp, curves).0;
            is_machine_sized(unit, heat_of(after), input_modifier(after, curves))
        }),
        0 <= unit.loop_pump_w_per_kw.units <= 500_000_000_000,
        0 <= unit.rated_cooling_capacity.units <= 10_000_000_000_000_000,
        0 <= unit.rated_heating_capacity.units <= 10_000_000_000_000_000,
    ensures
        ({
            let after = gshp::after_air(unit, inlet, day, cp, curves).0;
            let work = heat_of(after).units * input_modifier(after, curves).units;
            let compressor = after.power.units - after.loop_pump_power.units;
            let pump = after.loop_pump_power.units;
            let (cop, rated) = if after.mode == GshpMode::Cooling {
                (unit.cop_cooling.units, unit.rated_cooling_capacity.units)
            } else {
                (unit.cop_heating.units, unit.rated_heating_capacity.units)
            };
            if after.mode == GshpMode::Off {
                after.power.units == 0 && pump == 0
            } else {
                let per_kw = unit.loop_pump_w_per_kw.units * rated;
                &&& work - 1_000_000_000 - cop < compressor * cop <= work
                &&& per_kw - 1_001_000_000_000 < 1_000_000_000_000 * pump <= per_kw
            }
        }),
{
    let after = gshp::after_air(unit, inlet, day, cp, curves).0;
    if after.mode != GshpMode::Off {
        let heat = heat_of(after);
        let eir = input_modifier(after, curves);
        compressor_for(heat, eir, unit.cop_cooling);
        compressor_for(heat, eir, unit.cop_heating);
        pump_for(unit.loop_pump_w_per_kw, unit.rated_cooling_capacity);
        pump_for(unit.loop_pump_w_per_kw, unit.rated_heating_capacity);
    }
}

proof fn pump_for(per_kw: Fixed, rated: Fixed)
    requires
        0 <= per_kw.units <= 500_000_000_000,
        0 <= rated.units <= 10_000_000_000_000_000,
    ensures
        ({
            let pump = per_kw.product(rated).quotient(num(1000)).units;
            let exact = per_kw.units * rated.units;
            &&& exact - 1_001_000_000_000 < 1_000_000_000_000 * pump <= exact
            &&& 0 <= pump <= 1_000_000_000_000_000_000
        }),
{
    assert(num::<Fixed>(1000).units == 1_000_000_000_000);
    let exact = per_kw.units * rated.units;
    assert(0 <= exact <= 5_000_000_000_000_000_000_000_000_000) by (nonlinear_arith)
        requires
            exact == per_kw.units * rated.units,
            0 <= per_kw.units <= 500_000_000_000,
            0 <= rated.units <= 10_000_000_000_000_000,
    ;
    product_of_positive(per_kw, rated);
    quotient_of_positive(per_kw.product(rated), num(1000));
}

/// With a modifier of one the operating COP of a unit that runs is the rated COP of its mode, but
/// for rounding: it is never less, and more by no more than stated.
pub proof fn operating_cop_is_the_rated_one(
    unit: GroundSourceHeatPump<Fixed>,
    inlet: AirPort<Fixed>,
    day: u32,
    cp: Fixed,
    curves: CurveValues<Fixed>,
)
    requires
        ({
            let after = gshp::after_air(unit, inlet, day, cp, curves).0;
            &&& is_machine_sized(unit, heat_of(after), input_modifier(after, curves))
            &&& input_modifier(after, curves).units == 1_000_000_000
            &&& after.mode != GshpMode::Off
            &&& 1_000_000_000 <= after.power.units - after.loop_pump_power.units
        }),
        0 <= unit.loop_pump_w_per_kw.units <= 500_000_000_000,
        0 <= unit.rated_cooling_capacity.units <= 10_000_000_000_000_000,
        0 <= unit.rated_heating_capacity.units <= 10_000_000_000_000_000,
    ensures
        ({
            let after = gshp::after_air(unit, inlet, day, cp, curves).0;
            let compressor = after.power.units - after.loop_pump_power.units;
            let operating = gshp::operating_cop(after).units;
            let cop = if after.mode == GshpMode::Cooling {
                unit.cop_cooling.units
            } else {
                unit.cop_heating.units
            };
            &&& cop <= operating
            &&& (operating - cop) * compressor <= 1_000_000_000 + cop
        }),
{
    compressor_draws_by_the_cop(unit, inlet, day, cp, curves);
    heat_is_what_is_needed_or_can_be_had(unit, inlet, day, cp, curves);
    let after = gshp::after_air(unit, inlet, day, cp, curves).0;
    let heat = heat_of(after);
    let compressor = after.power.difference(after.loop_pump_power);
    let cop = if after.mode == GshpMode::Cooling {
        unit.cop_cooling.units
    } else {
        unit.cop_heating.units
    };
    assert(after.air_thermal_output.magnitude() == heat);
    pump_for(unit.loop_pump_w_per_kw, unit.rated_cooling_capacity);
    pump_for(unit.loop_pump_w_per_kw, unit.rated_heating_capacity);
    compressor_for(heat, input_modifier(after, curves), unit.cop_cooling);
    compressor_for(heat, input_modifier(after, curves), unit.cop_heating);
    quotient_of_positive(heat, compressor);
    let operating = heat.quotient(compressor).units;
    let c = compressor.units as int;
    assert(heat.units * 1_000_000_000 - 1_000_000_000 - cop < c * cop <= heat.units
        * 1_000_000_000);
    assert(operating >= cop) by (nonlinear_arith)
        requires
            c * cop <= heat.units * 1_000_000_000,
            heat.units * 1_000_000_000 < operating * c + c,
            0 < c,
    ;
    assert((operating - cop) * c <= 1_000_000_000 + cop) by (nonlinear_arith)
        requires
            operating * c <= heat.units * 1_000_000_000,
            heat.units * 1_000_000_000 - 1_000_000_000 - cop < c * cop,
    ;
}

// ---------------------------------------------------------------------------
// Operation at a part load

/// A unit that is run at a part load on given water moves its rated heat times the part load and
/// the modifier of its curve, draws it divided by the COP of the mode, and supplies air at its
/// setpoint. Off, it moves and draws nothing and passes the room air on at rest.
pub proof fn part_load_sets_the_heat(
    unit: GroundSourceHeatPump<Fixed>,
    mode: GshpMode,
    load_fraction: Fixed,
    indoor_temp: Fixed,
    ewt: Fixed,
    cp: Fixed,
    curves: CurveValues<Fixed>,
)
    requires
        100_000_000 <= unit.cop_cooling.units,
        100_000_000 <= unit.cop_heating.units,
        0 <= unit.rated_cooling_capacity.units <= 1_000_000_000_000_000,
        0 <= unit.rated_heating_capacity.units <= 1_000_000_000_000_000,
        curves.cap matches Some(cap) ==> 0 <= cap.units <= 10_000_000_000,
        curves.eir matches Some(eir) ==> 0 <= eir.units <= 10_000_000_000,
    ensures
        ({
            let (after, (t_supply, flow)) = gshp::after_ground(
                unit,
                mode,
                load_fraction,
                indoor_temp,
                ewt,
                cp,
                curves,
            );
            let (rated, cop) = if mode == GshpMode::Cooling {
                (unit.rated_cooling_capacity.units, unit.cop_cooling.units)
            } else {
                (unit.rated_heating_capacity.units, unit.cop_heating.units)
            };
            let heat = heat_of(after).units;
            let eir = match curves.eir {
                Some(eir) => eir.units,
                None => 1_000_000_000,
            };
            &&& after.mode == mode && after.current_ewt == ewt
            &&& mode == GshpMode::Off ==> after.power.units == 0 && after.air_thermal_output.units
                == 0 && t_supply == indoor_temp && flow.units == 0
            &&& mode != GshpMode::Off ==> {
                &&& t_supply == unit.outlet_temp_setpoint
                &&& flow.units >= 10_000_000
                &&& heat * eir - 1_000_000_000 - cop < after.power.units * cop <= heat * eir
                &&& load_fraction.units >= 1_000_000_000 && curves.cap is None ==> heat == rated
                &&& load_fraction.units <= 0 ==> heat == 0
                &&& curves.cap is None && 0 <= load_fraction.units <= 1_000_000_000 ==> rated
                    * load_fraction.units - 1_000_000_000 < 1_000_000_000 * heat <= rated
                    * load_fraction.units
            }
            &&& mode == GshpMode::Heating ==> after.air_thermal_output.units >= 0
            &&& mode == GshpMode::Cooling ==> after.air_thermal_output.units <= 0
        }),
{
    let (after, (t_supply, flow)) = gshp::after_ground(
        unit,
        mode,
        load_fraction,
        indoor_temp,
        ewt,
        cp,
        curves,
    );
    if mode != GshpMode::Off {
        let rated = if mode == GshpMode::Cooling {
            unit.rated_cooling_capacity
        } else {
            unit.rated_heating_capacity
        };
        let one: Fixed = num(1);
        assert(one.units == 1_000_000_000);
        assert(lit::<Fixed>(1, 100).units == 10_000_000);
        let share = crate::scalar::clamp(load_fraction, num(0), one);
        assert(0 <= share.units <= 1_000_000_000);
        let cap = gshp::curve_or(curves.cap, one);
        assert(0 <= rated.units * share.units <= 1_000_000_000_000_000_000_000_000)
            by (nonlinear_arith)
            requires
                0 <= rated.units <= 1_000_000_000_000_000,
                0 <= share.units <= 1_000_000_000,
        ;
        product_of_positive(rated, share);
        let part = rated.product(share);
        assert(0 <= part.units * cap.units <= 10_000_000_000_000_000_000_000_000)
            by (nonlinear_arith)
            requires
                0 <= part.units <= 1_000_000_000_000_000,
                0 <= cap.units <= 10_000_000_000,
        ;
        product_of_positive(part, cap);
        let heat = part.product(cap);
        let eir = gshp::curve_or(curves.eir, one);
        compressor_for(heat, eir, unit.cop_cooling);
        compressor_for(heat, eir, unit.cop_heating);
        if curves.cap is None {
            assert(cap.units == 1_000_000_000);
            assert(part.units * cap.units == 1_000_000_000 * part.units) by (nonlinear_arith)
                requires
                    cap.units == 1_000_000_000,
            ;
            assert(heat.units == part.units);
        }
        if load_fraction.units <= 0 {
            assert(share.units == 0);
            assert(rated.units * 0 == 0);
            assert(part.units == 0);
            assert(0 * cap.units == 0);
        }
        if load_fraction.units >= 1_000_000_000 {
            assert(share.units == 1_000_000_000);
            assert(rated.units * share.units == 1_000_000_000 * rated.units) by (nonlinear_arith)
                requires
                    share.units == 1_000_000_000,
            ;
        }
    }
}

/// The air that a unit supplies at a part load carries its heat: its flow times its heat capacity
/// times how far it is from the room is the heat, but for rounding, where it is not the least
/// flow.
pub proof fn supply_flow_carries_the_heat(
    unit: GroundSourceHeatPump<Fixed>,
    mode: GshpMode,
    load_fraction: Fixed,
    indoor_temp: Fixed,
    ewt: Fixed,
    cp: Fixed,
    curves: CurveValues<Fixed>,
)
    requires
        mode != GshpMode::Off,
        ({
            let after = gshp::after_ground(
                unit,
                mode,
                load_fraction,
                indoor_temp,
                ewt,
                cp,
                curves,
            ).0;
            let per_flow = cp.product(
                indoor_temp.difference(unit.outlet_temp_setpoint).magnitude(),
            ).units;
            &&& 0 <= heat_of(after).units <= 1_000_000_000 * per_flow
            &&& 0 < per_flow
            &&& heat_of(after).units < i64::MAX
        }),
        -1_000_000_000_000_000 <= indoor_temp.units <= 1_000_000_000_000_000,
        -1_000_000_000_000_000 <= unit.outlet_temp_setpoint.units <= 1_000_000_000_000_000,
    ensures
        ({
            let (after, (t_supply, flow)) = gshp::after_ground(
                unit,
                mode,
                load_fraction,
                indoor_temp,
                ewt,
                cp,
                curves,
            );
            let per_flow = cp.product(
                indoor_temp.difference(unit.outlet_temp_setpoint).magnitude(),
            ).units;
            let heat = heat_of(after).units;
            flow.units > 10_000_000 ==> heat * 1_000_000_000 - per_flow < flow.units * per_flow
                <= heat * 1_000_000_000
        }),
{
    let after = gshp::after_ground(unit, mode, load_fraction, indoor_temp, ewt, cp, curves).0;
    let per_flow = cp.product(indoor_temp.difference(unit.outlet_temp_setpoint).magnitude());
    assert(unit.outlet_temp_setpoint.difference(indoor_temp).magnitude()
        == indoor_temp.difference(unit.outlet_temp_setpoint).magnitude());
    assert(lit::<Fixed>(1, 100).units == 10_000_000);
    quotient_of_positive(heat_of(after), per_flow);
}

// ---------------------------------------------------------------------------
// The sinusoidal ground temperature

/// At the surface the ground is coldest on its phase day, by the whole swing; without a swing, or
/// without a diffusivity, it keeps its mean all year and at every depth.
pub proof fn ground_swings_about_its_mean(
    unit: GroundSourceHeatPump<Fixed>,
    day: Fixed,
    depth: Fixed,
)
    requires
        -1_000_000_000_000_000 <= unit.kusuda_t_mean.units <= 1_000_000_000_000_000,
        -1_000_000_000_000_000 <= unit.kusuda_amplitude.units <= 1_000_000_000_000_000,
    ensures
        unit.kusuda_diffusivity.units <= 0 ==> gshp::sinusoidal(unit, day, depth)
            == unit.kusuda_t_mean,
        unit.kusuda_amplitude.units == 0 ==> gshp::sinusoidal(unit, day, depth)
            == unit.kusuda_t_mean,
        depth.units == 0 && day == unit.kusuda_phase_day && unit.kusuda_diffusivity.units > 0
            ==> gshp::sinusoidal(unit, day, depth).units == unit.kusuda_t_mean.units
            - unit.kusuda_amplitude.units,
{
    let zero = Fixed { units: 0 };
    let one: Fixed = num(1);
    assert(one.units == 1_000_000_000);
    if unit.kusuda_diffusivity.units > 0 {
        let e = gshp::damping_exponent(unit, depth);
        let a = gshp::season_angle(unit, day, depth);
        if unit.kusuda_amplitude.units == 0 {
            assert(0 * e.exponential().units == 0);
            assert(0 * a.cosine().units == 0);
        }
        if depth.units == 0 && day == unit.kusuda_phase_day {
            zero_times(crate::scalar::root(
                crate::scalar::over(
                    crate::scalar::pi(),
                    crate::scalar::times(num(365), unit.kusuda_diffusivity),
                ),
            ));
            assert(e == zero);
            assert(depth.quotient(num(2)) == zero) by {
                assert(num::<Fixed>(2).units == 2_000_000_000);
            }
            zero_times(crate::scalar::root(
                crate::scalar::over(
                    num(365),
                    crate::scalar::times(crate::scalar::pi(), unit.kusuda_diffusivity),
                ),
            ));
            times_zero(
                crate::scalar::over(
                    crate::scalar::times(num(2), crate::scalar::pi()),
                    num(365),
                ),
            );
            assert(a == zero);
            exponential_of_zero();
            cosine_of_zero();
            let swing = unit.kusuda_amplitude;
            lemma_div_multiples_vanish(swing.units as int, fixed::SCALE as int);
            assert(swing.units * one.units == fixed::SCALE * swing.units) by (nonlinear_arith)
                requires
                    one.units == fixed::SCALE,
            ;
            assert(swing.product(one) == swing);
        }
    }
}

proof fn zero_times(x: Fixed)
    ensures
        (Fixed { units: 0 }).product(x) == (Fixed { units: 0 }),
{
    assert(0 * x.units == 0);
}

proof fn times_zero(x: Fixed)
    ensures
        x.product(Fixed { units: 0 }) == (Fixed { units: 0 }),
{
    assert(x.units * 0 == 0);
}

proof fn series_without_step(term: Fixed, stride: int, index: int, terms: nat)
    requires
        stride == 1 || stride == 2,
        1 <= index,
        term.units == 0 || terms >= 1,
    ensures
        fixed::series(term, Fixed { units: 0 }, stride, index, terms) == term,
    decreases terms,
{
    if terms > 0 {
        let zero = Fixed { units: 0 };
        times_zero(term);
        let d = if stride == 1 {
            index
        } else {
            index * (index + 1)
        };
        assert(d >= 1) by (nonlinear_arith)
            requires
                d == index || d == index * (index + 1),
                1 <= index,
        ;
        assert(Fixed::fraction(d, 1).units > 0);
        let by = Fixed::fraction(d, 1).units as int;
        assert(0int / by == 0) by {
            lemma_div_basics(by);
        }
        assert(zero.quotient(Fixed::fraction(d, 1)) == zero);
        series_without_step(zero, stride, index + stride, (terms - 1) as nat);
    }
}

proof fn exponential_of_zero()
    ensures
        (Fixed { units: 0 }).exponential() == num::<Fixed>(1),
{
    series_without_step(Fixed::fraction(1, 1), 1, 1, 40);
}

proof fn cosine_of_zero()
    ensures
        (Fixed { units: 0 }).cosine() == num::<Fixed>(1),
{
    times_zero(Fixed { units: 0 });
    assert((Fixed { units: 0 }).opposite() == (Fixed { units: 0 }));
    series_without_step(Fixed::fraction(1, 1), 2, 1, 20);
}

/// Deeper in the ground the swing of the temperature is smaller and comes later.
pub proof fn depth_dampens_and_delays(
    unit: GroundSourceHeatPump<Fixed>,
    day: Fixed,
    shallow: Fixed,
    deep: Fixed,
)
    requires
        0 <= shallow.units <= deep.units,
        unit.kusuda_diffusivity.units > 0,
    ensures
        gshp::damping_exponent(unit, deep).units <= gshp::damping_exponent(unit, shallow).units
            <= 0,
        gshp::season_angle(unit, day, deep).units <= gshp::season_angle(unit, day, shallow).units,
{
    let a = crate::scalar::root(
        crate::scalar::over(
            crate::scalar::pi::<Fixed>(),
            crate::scalar::times(num(365), unit.kusuda_diffusivity),
        ),
    );
    let b = crate::scalar::root(
        crate::scalar::over(
            num::<Fixed>(365),
            crate::scalar::times(crate::scalar::pi(), unit.kusuda_diffusivity),
        ),
    );
    root_not_negative(
        crate::scalar::over(
            crate::scalar::pi::<Fixed>(),
            crate::scalar::times(num(365), unit.kusuda_diffusivity),
        ),
    );
    root_not_negative(
        crate::scalar::over(
            num::<Fixed>(365),
            crate::scalar::times(crate::scalar::pi(), unit.kusuda_diffusivity),
        ),
    );
    Fixed::product_monotone(shallow, a, deep, a);
    assert(num::<Fixed>(2).units == 2_000_000_000);
    Fixed::quotient_monotone(shallow, deep, num(2));
    Fixed::quotient_not_negative(shallow, num(2));
    Fixed::product_monotone(shallow.quotient(num(2)), b, deep.quotient(num(2)), b);
    let since = day.difference(unit.kusuda_phase_day);
    let (early, late) = (
        shallow.quotient(num(2)).product(b),
        deep.quotient(num(2)).product(b),
    );
    Fixed::difference_monotone(since, late, since, early);
    let per_day = crate::scalar::over(
        crate::scalar::times(num(2), crate::scalar::pi::<Fixed>()),
        num(365),
    );
    assert(crate::scalar::pi::<Fixed>().units == 3_141_592_653);
    Fixed::product_monotone(num(2), crate::scalar::pi(), num(2), crate::scalar::pi());
    assert(num::<Fixed>(365).units == 365_000_000_000);
    Fixed::quotient_not_negative(
        crate::scalar::times(num(2), crate::scalar::pi::<Fixed>()),
        num(365),
    );
    Fixed::scaling_monotone(per_day, since.difference(late), since.difference(early));
}

proof fn root_not_negative(x: Fixed)
    ensures
        x.square_root().units >= 0,
{
    if x.units > 0 {
        crate::frame_laws::integer_root_exists(x.units * fixed::SCALE);
    }
}

/// Each kelvin of warmer water takes half a percent of the cooling capacity and adds 2.7 % to the
/// power of cooling, from 25 C on; it adds 1.2 % to the heating capacity and takes 2.7 % of the power
/// of heating, from 0 C on. All this but for rounding, and within the ranges of the modifiers.
pub proof fn modifiers_follow_the_water(ewt: Fixed)
    requires
        -1_000_000_000_000 <= ewt.units <= 1_000_000_000_000,
    ensures
        ({
            let (cap_c, eir_c) = gshp::rating_modifiers(GshpMode::Cooling, ewt);
            let (cap_h, eir_h) = gshp::rating_modifiers(GshpMode::Heating, ewt);
            let (off_cap, off_eir) = gshp::rating_modifiers(GshpMode::Off, ewt);
            let c = ewt.units - 25_000_000_000;
            let h = ewt.units as int;
            &&& follows(cap_c.units as int, -5 * c, 600_000_000, 1_200_000_000)
            &&& follows(eir_c.units as int, 27 * c, 500_000_000, 2_000_000_000)
            &&& follows(cap_h.units as int, 12 * h, 600_000_000, 1_500_000_000)
            &&& follows(eir_h.units as int, -27 * h, 500_000_000, 2_000_000_000)
            &&& off_cap.units == 1_000_000_000 && off_eir.units == 1_000_000_000
        }),
{
    assert(num::<Fixed>(gshp::ISO_GLHP_COOLING_EWT_C).units == 25_000_000_000);
    assert(num::<Fixed>(gshp::ISO_GLHP_HEATING_EWT_C).units == 0);
    assert(num::<Fixed>(1).units == 1_000_000_000 && num::<Fixed>(2).units == 2_000_000_000);
    assert(lit::<Fixed>(5, 1000).units == 5_000_000 && lit::<Fixed>(27, 1000).units == 27_000_000);
    assert(lit::<Fixed>(12, 1000).units == 12_000_000);
    assert(lit::<Fixed>(5, 10).units == 500_000_000 && lit::<Fixed>(6, 10).units == 600_000_000);
    assert(lit::<Fixed>(12, 10).units == 1_200_000_000 && lit::<Fixed>(15, 10).units
        == 1_500_000_000);
    let c = ewt.difference(num(gshp::ISO_GLHP_COOLING_EWT_C));
    let h = ewt.difference(num(gshp::ISO_GLHP_HEATING_EWT_C));
    thousandths_of(5, lit(5, 1000), c);
    thousandths_of(27, lit(27, 1000), c);
    thousandths_of(12, lit(12, 1000), h);
    thousandths_of(27, lit(27, 1000), h);
}

proof fn thousandths_of(n: int, k: Fixed, d: Fixed)
    requires
        0 <= n <= 100,
        k.units == n * 1_000_000,
        -2_000_000_000_000 <= d.units <= 2_000_000_000_000,
    ensures
        1000 * k.product(d).units <= n * d.units < 1000 * k.product(d).units + 1000,
{
    product_rounds_down(k, d, 100_000_000, 2_000_000_000_000);
    assert(k.units * d.units == 1_000_000 * (n * d.units)) by (nonlinear_arith)
        requires
            k.units == n * 1_000_000,
    ;
}

/// A modifier is one and the given thousandths of a thousandth, but for rounding, between two limits.
pub open spec fn follows(modifier: int, by: int, low: int, high: int) -> bool {
    let exact = 1_000_000_000_000 + by;
    &&& low <= modifier <= high
    &&& low < modifier < high ==> exact - 1000 <= 1000 * modifier <= exact + 1000
    &&& exact <= 1000 * low - 1000 ==> modifier == low
    &&& exact >= 1000 * high + 1000 ==> modifier == high
}

/// A unit reports one while it heats, minus one while it cools, and nothing while it is off.
pub proof fn modes_are_reported_by_number()
    ensures
        gshp::mode_number::<Fixed>(GshpMode::Heating).units == 1_000_000_000,
        gshp::mode_number::<Fixed>(GshpMode::Cooling).units == -1_000_000_000,
        gshp::mode_number::<Fixed>(GshpMode::Off).units == 0,
{
    assert(num::<Fixed>(1).units == 1_000_000_000 && num::<Fixed>(0).units == 0);
}

} // verus!
