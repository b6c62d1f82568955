//! What holds of the control of air loops and plants: for every number type where nothing
//! needs arithmetic, for those that keep the order where that is enough, and else for [`Fixed`].
use crate::air_loop::{FanOperatingMode, LoopInfo};
use crate::air_side;
use crate::air_side::AirStream;
use crate::control;
use crate::control::{
    cooling_off, free_cooling_fraction, heating_off, reset_share, AirReading, Economizer,
    EconomizerType, HvacMode, PlantResetConfig, SatResetConfig,
};
use crate::dual_duct;
use crate::dual_duct::BoxRequest;
use crate::fixed;
use crate::fixed::Fixed;
use crate::loop_results;
use crate::loop_results::{CyclingZone, ScalingRule};
use crate::model::{PlantEquipmentKind, PlantLoopInput, StagingMode};
use crate::plant;
use crate::plant::Staging;
use crate::scalar;
use crate::scalar::{clamp, gt, lit, lt, num, Monotone, Ordered, Scalar};
use crate::services;
use crate::services::PanelSource;
use crate::signals;
use crate::vav;
use crate::zones;
use crate::zones::ZoneData;
use vstd::arithmetic::div_mod::*;
use vstd::prelude::*;

verus! {

// ---------------------------------------------------------------------------
// Resets

/// The share of a reset lies between zero and one.
proof fn reset_share_in_range(t_outdoor: Fixed, oa_low: Fixed, oa_high: Fixed)
    ensures
        0 <= reset_share(t_outdoor, oa_low, oa_high).units <= fixed::SCALE,
{
}

/// Going a share of the way from `low` up to `high` ends between the two.
proof fn share_of_span(share: Fixed, low: Fixed, high: Fixed)
    requires
        0 <= share.units <= fixed::SCALE,
        low.units <= high.units,
        high.units - low.units <= i64::MAX,
    ensures
        0 <= share.product(high.difference(low)).units <= high.units - low.units,
{
    let span = high.units - low.units;
    assert(0 <= share.units * span <= 1_000_000_000 * span) by (nonlinear_arith)
        requires
            0 <= share.units <= 1_000_000_000,
            0 <= span,
    ;
    lemma_div_pos_is_pos(share.units * span, fixed::SCALE as int);
    lemma_div_is_ordered(share.units * span, fixed::SCALE * span, fixed::SCALE as int);
    lemma_div_multiples_vanish(span, fixed::SCALE as int);
}

proof fn whole_span(low: Fixed, high: Fixed)
    requires
        low.units <= high.units,
        high.units - low.units <= i64::MAX,
    ensures
        num::<Fixed>(1).product(high.difference(low)).units == high.units - low.units,
{
    let span = high.units - low.units;
    lemma_div_multiples_vanish(span, fixed::SCALE as int);
    assert(num::<Fixed>(1).units == fixed::SCALE);
}

/// A supply temperature that is reset by the outdoor temperature stays between its limits,
/// in cooling and in heating.
pub proof fn outdoor_reset_stays_between_limits(
    sat_min: Fixed,
    sat_max: Fixed,
    oa_low: Fixed,
    oa_high: Fixed,
    t_outdoor: Fixed,
    current: Fixed,
    plrs: Seq<Fixed>,
)
    requires
        sat_min.units <= sat_max.units,
        sat_max.units - sat_min.units <= i64::MAX,
    ensures
        ({
            let reset = SatResetConfig::OaReset { sat_min, sat_max, oa_low, oa_high };
            &&& sat_min.units <= control::cooling_reset(reset, t_outdoor, current, plrs).units
                <= sat_max.units
            &&& sat_min.units <= control::heating_reset(reset, t_outdoor, current, plrs).units
                <= sat_max.units
        }),
{
    let share = reset_share(t_outdoor, oa_low, oa_high);
    reset_share_in_range(t_outdoor, oa_low, oa_high);
    share_of_span(share, sat_min, sat_max);
    share_of_span(num::<Fixed>(1).difference(share), sat_min, sat_max);
}

/// At or below its low outdoor temperature a reset gives the highest supply temperature, and
/// at or above its high one the lowest.
pub proof fn outdoor_reset_meets_its_ends(
    sat_min: Fixed,
    sat_max: Fixed,
    oa_low: Fixed,
    oa_high: Fixed,
    t_outdoor: Fixed,
    current: Fixed,
    plrs: Seq<Fixed>,
)
    requires
        sat_min.units <= sat_max.units,
        sat_max.units - sat_min.units <= i64::MAX,
        oa_low.units < oa_high.units,
    ensures
        ({
            let reset = SatResetConfig::OaReset { sat_min, sat_max, oa_low, oa_high };
            let cooling = control::cooling_reset(reset, t_outdoor, current, plrs);
            let heating = control::heating_reset(reset, t_outdoor, current, plrs);
            &&& t_outdoor.units <= oa_low.units ==> cooling == sat_max && heating == sat_max
            &&& t_outdoor.units >= oa_high.units ==> cooling == sat_min && heating == sat_min
        }),
{
    let a = t_outdoor.difference(oa_low);
    let b = oa_high.difference(oa_low);
    let share = reset_share(t_outdoor, oa_low, oa_high);
    assert(b.units > 0);
    whole_span(sat_min, sat_max);
    if t_outdoor.units <= oa_low.units {
        assert(a.units * fixed::SCALE <= 0);
        lemma_div_is_ordered(a.units * fixed::SCALE, 0, b.units as int);
        lemma_div_of0(b.units as int);
        assert(a.quotient(b).units <= 0);
        assert(share.units == 0);
        lemma_div_of0(fixed::SCALE as int);
    }
    if t_outdoor.units >= oa_high.units {
        assert(a.units >= b.units);
        lemma_div_is_ordered(b.units * fixed::SCALE, a.units * fixed::SCALE, b.units as int);
        lemma_div_multiples_vanish(fixed::SCALE as int, b.units as int);
        assert(b.units * fixed::SCALE == fixed::SCALE * b.units);
        assert(a.quotient(b).units >= fixed::SCALE);
        assert(share.units == fixed::SCALE);
        lemma_div_of0(fixed::SCALE as int);
        assert(num::<Fixed>(1).difference(share).units == 0);
    }
}

proof fn lemma_div_of0(d: int)
    requires
        d != 0,
    ensures
        0int / d == 0,
{
}

/// A plant setpoint that is reset by the outdoor temperature stays between its limits.
pub proof fn plant_reset_stays_between_limits(
    sp_min: Fixed,
    sp_max: Fixed,
    oa_low: Fixed,
    oa_high: Fixed,
    t_outdoor: Fixed,
)
    requires
        sp_min.units <= sp_max.units,
        sp_max.units - sp_min.units <= i64::MAX,
    ensures
        sp_min.units <= control::plant_reset(
            PlantResetConfig::OaReset { sp_min, sp_max, oa_low, oa_high },
            t_outdoor,
        ).units <= sp_max.units,
{
    let share = reset_share(t_outdoor, oa_low, oa_high);
    reset_share_in_range(t_outdoor, oa_low, oa_high);
    share_of_span(num::<Fixed>(1).difference(share), sp_min, sp_max);
}

/// The share of a reset is a share, and grows with the outdoor temperature.
proof fn reset_share_grows<T: Monotone>(cold: T, warm: T, oa_low: T, oa_high: T)
    requires
        !warm.below(cold),
        oa_low.below(oa_high),
    ensures
        !reset_share(warm, oa_low, oa_high).below(reset_share(cold, oa_low, oa_high)),
        !reset_share(cold, oa_low, oa_high).below(num(0)),
        !num::<T>(1).below(reset_share(cold, oa_low, oa_high)),
{
    let (a, b) = (cold.difference(oa_low), warm.difference(oa_low));
    let span = oa_high.difference(oa_low);
    oa_low.below_irreflexive();
    T::difference_monotone(cold, oa_low, warm, oa_low);
    T::difference_goes_by_order(oa_high, oa_low);
    T::quotient_monotone(a, b, span);
    T::fractions_ordered(0, 1, 1, 1);
    scalar::clamp_monotone(a.quotient(span), b.quotient(span), num(0), num(1));
    scalar::clamp_stays_within(a.quotient(span), num(0), num(1));
}

/// What is left of one by a share is a share, and shrinks as the share grows.
proof fn rest_of_share<T: Monotone>(small: T, large: T)
    requires
        !large.below(small),
        !small.below(num(0)),
        !num::<T>(1).below(large),
    ensures
        !num::<T>(1).difference(large).below(num(0)),
        !num::<T>(1).below(num::<T>(1).difference(small)),
        !num::<T>(1).difference(small).below(num::<T>(1).difference(large)),
{
    let one: T = num(1);
    one.below_irreflexive();
    T::difference_goes_by_order(one, large);
    T::difference_goes_by_order(one, small);
    T::difference_monotone(one, large, one, small);
}

/// Warmer outdoor air never raises a temperature that is reset by it: a supply temperature in
/// cooling or in heating, or a plant setpoint.
pub proof fn warmer_outdoor_air_never_raises_a_reset<T: Monotone>(
    low: T,
    high: T,
    oa_low: T,
    oa_high: T,
    cold: T,
    warm: T,
    current: T,
    plrs: Seq<T>,
)
    requires
        !high.below(low),
        oa_low.below(oa_high),
        !warm.below(cold),
    ensures
        ({
            let air = SatResetConfig::OaReset { sat_min: low, sat_max: high, oa_low, oa_high };
            let plant = PlantResetConfig::OaReset { sp_min: low, sp_max: high, oa_low, oa_high };
            &&& !control::cooling_reset(air, cold, current, plrs).below(
                control::cooling_reset(air, warm, current, plrs),
            )
            &&& !control::heating_reset(air, cold, current, plrs).below(
                control::heating_reset(air, warm, current, plrs),
            )
            &&& !control::plant_reset(plant, cold).below(control::plant_reset(plant, warm))
        }),
{
    let (a, b) = (reset_share(cold, oa_low, oa_high), reset_share(warm, oa_low, oa_high));
    let one: T = num(1);
    let span = high.difference(low);
    warm.below_irreflexive();
    low.below_irreflexive();
    high.below_irreflexive();
    span.below_irreflexive();
    reset_share_grows(cold, warm, oa_low, oa_high);
    reset_share_grows(warm, warm, oa_low, oa_high);
    rest_of_share(a, b);
    T::difference_goes_by_order(high, low);
    T::product_monotone(a, span, b, span);
    T::product_monotone(one.difference(b), span, one.difference(a), span);
    T::sum_monotone(low, one.difference(b).product(span), low, one.difference(a).product(span));
    T::difference_monotone(high, b.product(span), high, a.product(span));
}

/// A temperature that is reset by the outdoor temperature never leaves its limits, as they are
/// found by going the whole way from one to the other: a supply temperature in cooling and a
/// plant setpoint start from the lower one, a supply temperature in heating from the upper one.
pub proof fn outdoor_reset_stays_on_its_way<T: Monotone>(
    low: T,
    high: T,
    oa_low: T,
    oa_high: T,
    t_outdoor: T,
    current: T,
    plrs: Seq<T>,
)
    requires
        !high.below(low),
        oa_low.below(oa_high),
    ensures
        ({
            let air = SatResetConfig::OaReset { sat_min: low, sat_max: high, oa_low, oa_high };
            let plant = PlantResetConfig::OaReset { sp_min: low, sp_max: high, oa_low, oa_high };
            let span = high.difference(low);
            let cooling = control::cooling_reset(air, t_outdoor, current, plrs);
            let heating = control::heating_reset(air, t_outdoor, current, plrs);
            let water = control::plant_reset(plant, t_outdoor);
            &&& !cooling.below(low) && !low.sum(span).below(cooling)
            &&& !water.below(low) && !low.sum(span).below(water)
            &&& !high.below(heating) && !heating.below(high.difference(span))
        }),
{
    let share = reset_share(t_outdoor, oa_low, oa_high);
    let rest = num::<T>(1).difference(share);
    let span = high.difference(low);
    t_outdoor.below_irreflexive();
    low.below_irreflexive();
    high.below_irreflexive();
    share.below_irreflexive();
    reset_share_grows(t_outdoor, t_outdoor, oa_low, oa_high);
    rest_of_share(share, share);
    T::difference_goes_by_order(high, low);
    T::share_shrinks(rest, span);
    T::share_shrinks(share, span);
    T::sum_goes_by_sign(low, rest.product(span));
    T::sum_monotone(low, rest.product(span), low, span);
    T::difference_goes_by_order(high, share.product(span));
    T::difference_monotone(high, span, high, share.product(span));
}

/// A reset by the outdoor temperature goes by nothing but that.
pub proof fn outdoor_reset_goes_by_the_weather_alone<T: Scalar>(
    reset: SatResetConfig<T>,
    t_outdoor: T,
    current: T,
    other: T,
    plrs: Seq<T>,
    other_plrs: Seq<T>,
)
    requires
        reset is OaReset,
    ensures
        control::cooling_reset(reset, t_outdoor, current, plrs) == control::cooling_reset(
            reset,
            t_outdoor,
            other,
            other_plrs,
        ),
        control::heating_reset(reset, t_outdoor, current, plrs) == control::heating_reset(
            reset,
            t_outdoor,
            other,
            other_plrs,
        ),
{
}

/// A reset by demand never passes the limit that it moves towards.
pub proof fn demand_reset_respects_its_limit<T: Ordered>(
    sat_min: T,
    sat_max: T,
    step: T,
    t_outdoor: T,
    current: T,
    plrs: Seq<T>,
)
    ensures
        ({
            let reset = SatResetConfig::DemandReset { sat_min, sat_max, step };
            let cooling = control::cooling_reset(reset, t_outdoor, current, plrs);
            let heating = control::heating_reset(reset, t_outdoor, current, plrs);
            if control::zones_loaded(plrs) {
                !cooling.below(sat_min) && !sat_max.below(heating)
            } else {
                !sat_max.below(cooling) && !heating.below(sat_min)
            }
        }),
{
    current.difference(step).greater_is_greater(sat_min);
    current.sum(step).lesser_is_lesser(sat_max);
}

// ---------------------------------------------------------------------------
// Outdoor air

/// Demand-controlled ventilation never asks for more than the design fraction.
pub proof fn demand_control_only_lowers_outdoor_air<T: Ordered>(li: LoopInfo<T>, occupancy: Seq<T>)
    ensures
        !li.min_oa_fraction.below(air_side::min_oa_now(li, occupancy)),
{
    li.min_oa_fraction.below_irreflexive();
    let oa_data = li.zone_oa_data@;
    let flow = li.design_supply_flow;
    let wanted = clamp(
        air_side::occupied_outdoor_air(oa_data, occupancy, oa_data.len()).quotient(flow),
        num(0),
        num(1),
    );
    let floor = clamp(
        air_side::area_outdoor_air(oa_data, oa_data.len()).quotient(flow),
        num(0),
        num(1),
    );
    wanted.greater(floor).lesser_is_lesser(li.min_oa_fraction);
    li.min_oa_fraction.greater(num(0)).lesser_is_lesser(li.min_oa_fraction);
}

/// The fraction for free cooling lies between the minimum and one.
pub proof fn free_cooling_between_minimum_and_one<T: Ordered>(
    return_temp: T,
    t_outdoor: T,
    target: T,
    min_oa: T,
)
    requires
        !num::<T>(1).below(min_oa),
    ensures
        !free_cooling_fraction(return_temp, t_outdoor, target, min_oa).below(min_oa),
        !num::<T>(1).below(free_cooling_fraction(return_temp, t_outdoor, target, min_oa)),
{
    min_oa.below_irreflexive();
    scalar::clamp_stays_within(
        return_temp.difference(target).quotient(return_temp.difference(t_outdoor)),
        min_oa,
        num(1),
    );
}

/// A packaged unit brings in at least its minimum of outdoor air, and never more than all.
pub proof fn packaged_unit_keeps_minimum_outdoor_air<T: Ordered>(
    li: LoopInfo<T>,
    temp: T,
    outdoor: AirReading<T>,
    return_enthalpy: T,
    min_oa: T,
    mode: HvacMode,
)
    requires
        !num::<T>(1).below(min_oa),
    ensures
        ({
            let oa = signals::psz_oa_fraction(li, temp, outdoor, return_enthalpy, min_oa, mode);
            &&& !oa.below(min_oa)
            &&& !num::<T>(1).below(oa)
        }),
{
    min_oa.below_irreflexive();
    free_cooling_between_minimum_and_one(
        temp,
        outdoor.temp,
        li.cooling_supply_temp,
        min_oa,
    );
}

/// The multiple-zone procedure only raises the outdoor air fraction, to one at most.
pub proof fn ventilation_never_below_design<T: Ordered>(
    li: LoopInfo<T>,
    zones: ZoneData<T>,
    occupancy: Seq<T>,
    min_oa: T,
)
    requires
        !num::<T>(1).below(min_oa),
    ensures
        !vav::vav_ventilation(li, zones, occupancy, min_oa).below(min_oa),
        !num::<T>(1).below(vav::vav_ventilation(li, zones, occupancy, min_oa)),
{
    min_oa.below_irreflexive();
    let flows = vav::box_flows(
        li.served_zones@,
        zones,
        li.min_vav_fraction,
        vav::supply_setpoint(li, zones),
    );
    let oa_data = li.zone_oa_data@;
    let (outdoor, critical) = vav::ventilation_sums(oa_data, occupancy, flows, oa_data.len());
    let supply = vav::vav_flow(li, zones).quotient(vav::air_density());
    let mean = if gt(supply, lit(1, 100)) {
        outdoor.quotient(supply)
    } else {
        num(0)
    };
    let efficiency = clamp(
        num::<T>(1).sum(mean).difference(critical),
        lit(15, 100),
        num(1),
    );
    scalar::clamp_stays_within(
        outdoor.quotient(efficiency).quotient(supply),
        min_oa,
        num(1),
    );
    scalar::clamp_stays_within(min_oa, min_oa, num(1));
}

/// An economizer by enthalpy with a temperature limit opens exactly when one by enthalpy and
/// one by temperature both would.
pub proof fn enthalpy_limit_needs_both<T: Scalar>(
    economizer: Economizer<T>,
    outdoor: AirReading<T>,
    return_air: AirReading<T>,
)
    ensures
        ({
            let of = |kind: EconomizerType|
                control::outdoor_air_helps(
                    Economizer { economizer_type: kind, ..economizer },
                    outdoor,
                    return_air,
                );
            of(EconomizerType::EnthalpyWithHighLimit) == (of(EconomizerType::DifferentialEnthalpy)
                && of(EconomizerType::FixedDryBulb))
        }),
{
}

// ---------------------------------------------------------------------------
// Coils

/// A packaged unit never heats and cools at once.
pub proof fn packaged_unit_runs_one_way<T: Scalar>(
    li: LoopInfo<T>,
    zones: ZoneData<T>,
    zone: Seq<char>,
    mode: HvacMode,
    dehumidify: bool,
)
    ensures
        ({
            let rule = signals::psz_rule(li, zones, zone, mode, dehumidify);
            rule.heating == heating_off::<T>() || rule.cooling == cooling_off::<T>()
        }),
{
}

/// A fan coil or terminal unit never heats and cools at once.
pub proof fn fan_coil_runs_one_way<T: Scalar>(
    li: LoopInfo<T>,
    zones: ZoneData<T>,
    zone: Seq<char>,
    mode: HvacMode,
    dehumidify: bool,
)
    ensures
        ({
            let rule = signals::fcu_rule(li, zones, zone, mode, dehumidify);
            rule.heating == heating_off::<T>() || rule.cooling == cooling_off::<T>()
        }),
{
}

/// A packaged unit never heats a zone that is above its cooling setpoint, and never cools one
/// that is below its heating setpoint.
pub proof fn packaged_unit_works_towards_setpoints<T: Ordered>(
    zones: ZoneData<T>,
    zone: Seq<char>,
    modes: Map<Seq<char>, HvacMode>,
)
    requires
        !signals::cool_sp_of(zones, zone).below(signals::heat_sp_of(zones, zone)),
    ensures
        ({
            let (mode, dehumidify) = signals::psz_mode(zones, zone, modes);
            let temp = signals::temp_of(zones, zone);
            &&& mode == HvacMode::Heating ==> !gt(temp, signals::cool_sp_of(zones, zone))
            &&& mode == HvacMode::Cooling && !dehumidify ==> !lt(
                temp,
                signals::heat_sp_of(zones, zone),
            )
        }),
{
    let temp = signals::temp_of(zones, zone);
    let heat_sp = signals::heat_sp_of(zones, zone);
    let cool_sp = signals::cool_sp_of(zones, zone);
    if cool_sp.below(temp) && temp.below(heat_sp) {
        cool_sp.below_transitive(temp, heat_sp);
    }
}

// ---------------------------------------------------------------------------
// VAV systems

/// The supply setpoint of a VAV system stays in its range.
pub proof fn vav_supply_stays_in_range<T: Ordered>(li: LoopInfo<T>, zones: ZoneData<T>)
    requires
        !vav::warmest_supply::<T>().below(li.cooling_supply_temp),
    ensures
        !vav::supply_setpoint(li, zones).below(li.cooling_supply_temp),
        !vav::warmest_supply::<T>().below(vav::supply_setpoint(li, zones)),
{
    scalar::clamp_stays_within(
        vav::supply_needed(li.served_zones@, zones, li.served_zones@.len()),
        li.cooling_supply_temp,
        vav::warmest_supply(),
    );
}

proof fn box_flows_sum<T: Scalar>(
    served: Seq<String>,
    zones: ZoneData<T>,
    min_fraction: T,
    supply: T,
    default: T,
    n: nat,
)
    requires
        n <= served.len(),
    ensures
        zones::zone_total(
            served,
            vav::box_flows(served, zones, min_fraction, supply),
            default,
            n,
        ) == vav::box_flow_total(served, zones, min_fraction, supply, n),
    decreases n,
{
    if n > 0 {
        box_flows_sum(served, zones, min_fraction, supply, default, (n - 1) as nat);
        assert(crate::text::listed(served, served[n - 1]@));
    }
}

/// The fan of a VAV system moves what its zone boxes take: the flows that the zones are given
/// add up to the system flow, unless that is at its least.
pub proof fn vav_fan_flow_is_sum_of_zone_flows<T: Scalar>(
    li: LoopInfo<T>,
    zones: ZoneData<T>,
    default: T,
)
    ensures
        vav::vav_flow(li, zones) == zones::zone_total(
            li.served_zones@,
            vav::box_flows(
                li.served_zones@,
                zones,
                li.min_vav_fraction,
                vav::supply_setpoint(li, zones),
            ),
            default,
            li.served_zones@.len(),
        ).greater(lit(5, 100)),
{
    box_flows_sum(
        li.served_zones@,
        zones,
        li.min_vav_fraction,
        vav::supply_setpoint(li, zones),
        default,
        li.served_zones@.len(),
    );
}

/// A zone box of a VAV system that carries a cooling load stays between its least and its
/// design flow.
pub proof fn loaded_box_stays_in_range<T: Ordered>(
    zones: ZoneData<T>,
    zone: Seq<char>,
    min_fraction: T,
    supply: T,
)
    requires
        vav::box_mode(zones, zone) == HvacMode::Cooling,
        gt(signals::cool_load_of(zones, zone), num(100)),
        !vav::design_flow_of(zones, zone).below(
            vav::design_flow_of(zones, zone).product(min_fraction),
        ),
    ensures
        ({
            let design = vav::design_flow_of(zones, zone);
            let flow = vav::box_flow(zones, zone, min_fraction, supply);
            &&& !flow.below(design.product(min_fraction))
            &&& !design.below(flow)
        }),
{
    let design = vav::design_flow_of(zones, zone);
    let load = signals::cool_load_of(zones, zone);
    let temp = signals::temp_of(zones, zone);
    design.product(min_fraction).below_irreflexive();
    scalar::clamp_stays_within(
        load.quotient(vav::air_cp::<T>().product(temp.difference(supply).greater(num(1)))),
        design.product(min_fraction),
        design,
    );
}

proof fn flow_grows_with_share(design: Fixed, a: Fixed, b: Fixed)
    requires
        0 <= design.units,
        a.units <= b.units,
    ensures
        design.product(a).units <= design.product(b).units,
{
    assert(design.units * a.units <= design.units * b.units) by (nonlinear_arith)
        requires
            0 <= design.units,
            a.units <= b.units,
    ;
    lemma_div_is_ordered(
        design.units * a.units,
        design.units * b.units,
        fixed::SCALE as int,
    );
}

/// A ramp from the least flow stays between it and its top, and is never lower where the
/// zone is further from its setpoint.
proof fn ramp_stays_in_range(
    design: Fixed,
    min_fraction: Fixed,
    top: Fixed,
    near: Fixed,
    far: Fixed,
)
    requires
        0 <= design.units,
        0 <= min_fraction.units <= top.units,
        near.units <= far.units,
    ensures
        design.product(min_fraction).units <= vav::ramped_flow(
            design,
            min_fraction,
            top,
            near,
        ).units,
        vav::ramped_flow(design, min_fraction, top, near).units <= vav::ramped_flow(
            design,
            min_fraction,
            top,
            far,
        ).units,
        vav::ramped_flow(design, min_fraction, top, far).units <= design.product(top).units,
{
    assert(num::<Fixed>(5).units == 5 * fixed::SCALE);
    let a = clamp(near, num(0), num::<Fixed>(5));
    let b = clamp(far, num(0), num::<Fixed>(5));
    assert(0 <= a.units <= b.units <= 5 * fixed::SCALE);
    let low = a.quotient(num(5));
    let high = b.quotient(num(5));
    lemma_div_pos_is_pos(a.units * fixed::SCALE, 5 * fixed::SCALE);
    lemma_div_is_ordered(a.units * fixed::SCALE, b.units * fixed::SCALE, 5 * fixed::SCALE);
    lemma_div_is_ordered(
        b.units * fixed::SCALE,
        5 * fixed::SCALE * fixed::SCALE,
        5 * fixed::SCALE,
    );
    lemma_div_multiples_vanish(fixed::SCALE as int, 5 * fixed::SCALE);
    assert(high.units <= fixed::SCALE);
    assert(0 <= low.units);
    assert(low.units <= high.units);
    let span = top.difference(min_fraction);
    assert(0 <= span.units * low.units <= span.units * high.units <= 1_000_000_000 * span.units)
        by (nonlinear_arith)
        requires
            0 <= low.units <= high.units <= 1_000_000_000,
            0 <= span.units,
    ;
    lemma_div_pos_is_pos(span.units * low.units, fixed::SCALE as int);
    lemma_div_is_ordered(
        span.units * low.units,
        span.units * high.units,
        fixed::SCALE as int,
    );
    lemma_div_is_ordered(
        span.units * high.units,
        fixed::SCALE * span.units,
        fixed::SCALE as int,
    );
    lemma_div_multiples_vanish(span.units as int, fixed::SCALE as int);
    let x = min_fraction.sum(span.product(low));
    let y = min_fraction.sum(span.product(high));
    assert(min_fraction.units <= x.units <= y.units <= top.units);
    flow_grows_with_share(design, min_fraction, x);
    flow_grows_with_share(design, x, y);
    flow_grows_with_share(design, y, top);
}

/// A zone box of a VAV system in cooling stays between its least and its design flow.
pub proof fn cooling_box_stays_in_range(
    zones: ZoneData<Fixed>,
    zone: Seq<char>,
    min_fraction: Fixed,
    supply: Fixed,
)
    requires
        vav::box_mode(zones, zone) == HvacMode::Cooling,
        0 <= vav::design_flow_of(zones, zone).units,
        0 <= min_fraction.units <= num::<Fixed>(1).units,
    ensures
        ({
            let design = vav::design_flow_of(zones, zone);
            let flow = vav::box_flow(zones, zone, min_fraction, supply);
            design.product(min_fraction).units <= flow.units <= design.units
        }),
{
    let design = vav::design_flow_of(zones, zone);
    let one: Fixed = num(1);
    let error = signals::temp_of(zones, zone).difference(signals::cool_sp_of(zones, zone));
    assert(one.units == fixed::SCALE);
    lemma_div_multiples_vanish(design.units as int, fixed::SCALE as int);
    assert(design.product(one).units == design.units) by {
        assert(design.units * one.units == fixed::SCALE * design.units) by (nonlinear_arith)
            requires
                one.units == fixed::SCALE,
        ;
    }
    flow_grows_with_share(design, min_fraction, one);
    ramp_stays_in_range(design, min_fraction, one, error, error);
    if gt(signals::cool_load_of(zones, zone), num(100)) {
        loaded_box_stays_in_range(zones, zone, min_fraction, supply);
    }
}

/// A zone box of a VAV system in heating stays between its least flow and half of its design
/// flow.
pub proof fn heating_box_stays_in_range(
    zones: ZoneData<Fixed>,
    zone: Seq<char>,
    min_fraction: Fixed,
    supply: Fixed,
)
    requires
        vav::box_mode(zones, zone) == HvacMode::Heating,
        0 <= vav::design_flow_of(zones, zone).units,
        0 <= min_fraction.units <= lit::<Fixed>(5, 10).units,
    ensures
        ({
            let design = vav::design_flow_of(zones, zone);
            let flow = vav::box_flow(zones, zone, min_fraction, supply);
            design.product(min_fraction).units <= flow.units <= design.product(lit(5, 10)).units
        }),
{
    let error = signals::heat_sp_of(zones, zone).difference(signals::temp_of(zones, zone));
    ramp_stays_in_range(
        vav::design_flow_of(zones, zone),
        min_fraction,
        lit(5, 10),
        error,
        error,
    );
}

/// The further a zone is from its setpoint, the more air its ramped box gives it, and never
/// less than the least flow.
pub proof fn ramped_flow_grows_with_the_error<T: Monotone>(
    design: T,
    min_fraction: T,
    top: T,
    near: T,
    far: T,
)
    requires
        !design.below(num(0)),
        !top.below(min_fraction),
        !far.below(near),
    ensures
        !vav::ramped_flow(design, min_fraction, top, far).below(
            vav::ramped_flow(design, min_fraction, top, near),
        ),
        !vav::ramped_flow(design, min_fraction, top, near).below(design.product(min_fraction)),
{
    let (a, b) = (clamp(near, num(0), num(5)), clamp(far, num(0), num::<T>(5)));
    let five: T = num(5);
    T::fractions_ordered(0, 1, 5, 1);
    T::fraction_is_positive(5);
    scalar::clamp_monotone(near, far, num(0), five);
    scalar::clamp_stays_within(near, num(0), five);
    let (low, high) = (a.quotient(five), b.quotient(five));
    T::quotient_monotone(a, b, five);
    T::quotient_not_negative(a, five);
    let span = top.difference(min_fraction);
    T::difference_goes_by_order(top, min_fraction);
    span.below_irreflexive();
    min_fraction.below_irreflexive();
    T::product_monotone(span, low, span, high);
    T::sum_monotone(min_fraction, span.product(low), min_fraction, span.product(high));
    T::sum_goes_by_sign(min_fraction, span.product(low));
    let (x, y) = (min_fraction.sum(span.product(low)), min_fraction.sum(span.product(high)));
    T::scaling_monotone(design, x, y);
    T::scaling_monotone(design, min_fraction, x);
}

// ---------------------------------------------------------------------------
// Part load

/// The part load of a cycling unit stays between the least outdoor air fraction and one.
pub proof fn part_load_stays_in_range<T: Ordered>(
    z: CyclingZone<T>,
    supply: Option<AirStream<T>>,
    fan_rise: T,
    min_oa: T,
)
    requires
        !num::<T>(1).below(min_oa),
    ensures
        !loop_results::cycling_part_load(z, supply, fan_rise, min_oa).below(min_oa),
        !num::<T>(1).below(loop_results::cycling_part_load(z, supply, fan_rise, min_oa)),
{
    min_oa.below_irreflexive();
    if let Some(s) = supply {
        if let Some(capacity) = loop_results::running_capacity(z, s) {
            scalar::clamp_stays_within(
                loop_results::load_share(z, s, fan_rise, capacity),
                min_oa,
                num(1),
            );
        }
    }
}

/// A unit in the deadband does not run beyond its outdoor air.
pub proof fn deadband_part_load_is_minimum<T: Scalar>(
    z: CyclingZone<T>,
    supply: Option<AirStream<T>>,
    fan_rise: T,
    min_oa: T,
)
    requires
        z.mode == HvacMode::Deadband,
    ensures
        loop_results::cycling_part_load(z, supply, fan_rise, min_oa) == min_oa,
{
}

/// A compressor never runs shorter than its part load.
pub proof fn compressor_pays_for_its_starts(plr: Fixed)
    requires
        0 <= plr.units <= fixed::SCALE,
    ensures
        plr.units <= loop_results::run_time_fraction(plr).units,
{
    let rest = num::<Fixed>(1).difference(plr);
    let loss = lit::<Fixed>(15, 100).product(rest);
    assert(lit::<Fixed>(15, 100).units == 150_000_000);
    assert(lit::<Fixed>(7, 10).units == 700_000_000);
    assert(0 <= 150_000_000 * rest.units);
    lemma_div_pos_is_pos(150_000_000 * rest.units, fixed::SCALE as int);
    lemma_div_is_ordered(
        150_000_000 * rest.units,
        fixed::SCALE * rest.units,
        fixed::SCALE as int,
    );
    lemma_div_multiples_vanish(rest.units as int, fixed::SCALE as int);
    assert(0 <= loss.units <= rest.units);
    let plf = num::<Fixed>(1).difference(loss).greater(lit(7, 10));
    assert(0 < plf.units <= fixed::SCALE);
    assert(plr.units * plf.units <= plr.units * 1_000_000_000) by (nonlinear_arith)
        requires
            0 <= plr.units,
            plf.units <= 1_000_000_000,
    ;
    lemma_div_is_ordered(
        plf.units * plr.units,
        plr.units * fixed::SCALE,
        plf.units as int,
    );
    lemma_div_multiples_vanish(plr.units as int, plf.units as int);
    assert(plf.units * plr.units == plr.units * plf.units) by (nonlinear_arith);
}

/// The fan of a loop with a continuous fan keeps its outputs at any part load.
pub proof fn continuous_fan_keeps_running<T: Scalar>(
    rule: ScalingRule<T>,
    outputs: Map<Seq<char>, T>,
)
    requires
        rule.fan_mode == FanOperatingMode::Continuous,
    ensures
        loop_results::scaled_outputs(rule, outputs, true) == outputs,
{
}

// ---------------------------------------------------------------------------
// Dual duct

/// A zone of a dual-duct system without a box gets its design flow whatever is asked.
pub proof fn dual_duct_flow_is_constant<T: Scalar>(
    request: BoxRequest<T>,
    flow: T,
    hot: T,
    cold: T,
)
    ensures
        dual_duct::unboxed_supply(request, flow, hot, cold).flow == flow,
{
}

/// The share of a deck that is asked of a mixing box lies between zero and one.
pub proof fn box_request_between_zero_and_one<T: Ordered>(
    li: LoopInfo<T>,
    zones: ZoneData<T>,
    zone: Seq<char>,
)
    ensures
        !dual_duct::requested(li, zones, zone).plr.below(num(0)),
        !num::<T>(1).below(dual_duct::requested(li, zones, zone).plr),
{
    T::fractions_ordered(0, 1, 1, 1);
    num::<T>(0).below_irreflexive();
    let capacity = dual_duct::box_design_flow(li, zones, zone).product(vav::air_cp());
    let hot = li.heating_supply_temp.difference(signals::heat_sp_of(zones, zone)).greater(num(1));
    let cold = signals::cool_sp_of(zones, zone).difference(li.cooling_supply_temp).greater(num(1));
    scalar::clamp_stays_within(
        signals::heat_load_of(zones, zone).quotient(capacity.product(hot)),
        num(0),
        num(1),
    );
    scalar::clamp_stays_within(
        signals::cool_load_of(zones, zone).quotient(capacity.product(cold)),
        num(0),
        num(1),
    );
}

// ---------------------------------------------------------------------------
// Plants

/// What a unit delivers is taken off the load, and nothing else: a load that it does not
/// exceed comes closer to zero by just that much.
pub proof fn delivered_heat_is_taken_off(
    s: Staging<Fixed>,
    kind: PlantEquipmentKind,
    delivered: Fixed,
    capacity: Fixed,
)
    requires
        0 <= delivered.units,
        s.remaining.units > i64::MIN,
        delivered.units <= s.remaining.magnitude().units,
    ensures
        ({
            let after = plant::after_unit(s, kind, delivered, capacity);
            &&& after.remaining.magnitude().units == s.remaining.magnitude().units
                - delivered.units
            &&& after.total == s.total
            &&& after.per_unit == s.per_unit
        }),
{
}

/// In sequence, no unit starts while the one before it is below the staging threshold.
pub proof fn next_unit_waits_for_threshold<T: Scalar>(
    s: Staging<T>,
    plant_loop: PlantLoopInput<T>,
    kind: PlantEquipmentKind,
)
    requires
        plant_loop.staging_mode == StagingMode::Sequential,
        kind != PlantEquipmentKind::Pump,
        lt(s.last_part_load, plant_loop.staging_threshold),
    ensures
        plant::next_duty(s, plant_loop, kind) is None,
{
}

/// The part load of a radiant panel lies between zero and one.
pub proof fn panel_part_load_between_zero_and_one(
    source: PanelSource,
    temp: Fixed,
    heat_sp: Fixed,
    cool_sp: Fixed,
)
    requires
        i64::MIN + fixed::SCALE <= heat_sp.units,
        cool_sp.units <= i64::MAX - fixed::SCALE,
    ensures
        0 <= services::panel_share(source, temp, heat_sp, cool_sp).units <= fixed::SCALE,
{
    assert(lit::<Fixed>(5, 10).units == 500_000_000);
    let half: Fixed = lit(5, 10);
    if source == PanelSource::ChilledWater {
        if !gt(temp, cool_sp.sum(half)) && gt(temp, cool_sp) {
            half_degree_share(temp.difference(cool_sp));
        }
    } else {
        if !lt(temp, heat_sp.difference(half)) && lt(temp, heat_sp) {
            half_degree_share(heat_sp.difference(temp));
        }
    }
}

proof fn half_degree_share(d: Fixed)
    requires
        0 <= d.units <= 500_000_000,
    ensures
        0 <= d.quotient(lit(5, 10)).units <= fixed::SCALE,
{
    assert(lit::<Fixed>(5, 10).units == 500_000_000);
    lemma_div_pos_is_pos(d.units * fixed::SCALE, 500_000_000);
    lemma_div_is_ordered(d.units * fixed::SCALE, 500_000_000 * fixed::SCALE, 500_000_000);
}

} // verus!
