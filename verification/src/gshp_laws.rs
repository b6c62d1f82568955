//! What holds of the ground-source heat pump: for every number type where nothing needs
//! arithmetic, for those that keep the order where that is enough, and else for [`Fixed`].
use crate::calendar;
use crate::fixed;
use crate::fixed::Fixed;
use crate::gshp;
use crate::gshp::{AirPort, CurveValues, GroundSourceHeatPump, GroundTempSource, GshpMode};
use crate::scalar;
use crate::scalar::{
    clamp, ge, le, lit, minus, negated, num, plus, times, Monotone, Ordered, Scalar,
};
use crate::series_laws;
use crate::series_laws::size;
use vstd::arithmetic::div_mod::*;
use vstd::prelude::*;

verus! {

/// A unit parked by a setpoint out of range, or without air flow, is off: it draws no
/// power, moves no heat and passes the air on unchanged.
pub proof fn parked_unit_is_off<T: Scalar>(
    unit: GroundSourceHeatPump<T>,
    inlet: AirPort<T>,
    day: u32,
    cp: T,
    curves: CurveValues<T>,
)
    requires
        ge(unit.outlet_temp_setpoint, num(90)) || le(unit.outlet_temp_setpoint, negated(num(50)))
            || le(inlet.mass_flow, num(0)),
    ensures
        ({
            let (after, outlet) = gshp::after_air(unit, inlet, day, cp, curves);
            &&& after.mode == GshpMode::Off
            &&& after.power == num::<T>(0)
            &&& after.loop_pump_power == num::<T>(0)
            &&& after.air_thermal_output == num::<T>(0)
            &&& outlet == inlet
        }),
{
}

/// The power of the loop pump is part of the power of the unit, whichever of its two sides ran
/// last.
pub proof fn loop_pump_is_part_of_the_power(
    unit: GroundSourceHeatPump<Fixed>,
    inlet: AirPort<Fixed>,
    day: u32,
    mode: GshpMode,
    load_fraction: Fixed,
    indoor_temp: Fixed,
    ewt: Fixed,
    cp: Fixed,
    curves: CurveValues<Fixed>,
)
    requires
        unit.rated_cooling_capacity.units >= 0,
        unit.rated_heating_capacity.units >= 0,
        curves.cap matches Some(cap) ==> cap.units >= 0,
        curves.eir matches Some(eir) ==> eir.units >= 0,
    ensures
        ({
            let after = gshp::after_air(unit, inlet, day, cp, curves).0;
            after.loop_pump_power.units <= after.power.units
        }),
        ({
            let after = gshp::after_ground(
                unit,
                mode,
                load_fraction,
                indoor_temp,
                ewt,
                cp,
                curves,
            ).0;
            0 == after.loop_pump_power.units <= after.power.units
        }),
{
    let tenth: Fixed = lit(1, 10);
    assert(tenth.units == 100_000_000);
    let called = gshp::called_mode(unit.outlet_temp_setpoint, inlet);
    if called != GshpMode::Off {
        let loop_ewt = gshp::loop_temp(unit, called, day);
        let (default_cap, default_eir) = gshp::rating_modifiers(called, loop_ewt);
        modifiers_stay_in_range(called, loop_ewt);
        assert(lit::<Fixed>(5, 10).units == 500_000_000);
        let (rated, cop, lift) = if called == GshpMode::Cooling {
            (
                unit.rated_cooling_capacity,
                unit.cop_cooling,
                inlet.t_db.difference(unit.outlet_temp_setpoint),
            )
        } else {
            (
                unit.rated_heating_capacity,
                unit.cop_heating,
                unit.outlet_temp_setpoint.difference(inlet.t_db),
            )
        };
        let heat = gshp::heat_moved(
            inlet.mass_flow.product(cp).product(lift),
            rated.product(gshp::curve_or(curves.cap, default_cap)),
        );
        let eir = gshp::curve_or(curves.eir, default_eir);
        compressor_power_not_negative(heat, eir, cop.greater(tenth));
    }
    let rated = if mode == GshpMode::Cooling {
        unit.rated_cooling_capacity
    } else {
        unit.rated_heating_capacity
    };
    let cop = if mode == GshpMode::Cooling {
        unit.cop_cooling
    } else {
        unit.cop_heating
    };
    let share = clamp(load_fraction, num(0), num(1));
    let cap = gshp::curve_or(curves.cap, num(1));
    let part = rated.product(share);
    Fixed::product_monotone(rated, share, rated, share);
    Fixed::product_monotone(part, cap, part, cap);
    compressor_power_not_negative(
        part.product(cap),
        gshp::curve_or(curves.eir, num(1)),
        cop.greater(tenth),
    );
}

proof fn compressor_power_not_negative(heat: Fixed, eir: Fixed, cop: Fixed)
    requires
        heat.units >= 0,
        eir.units >= 0,
        cop.units > 0,
    ensures
        heat.product(eir).quotient(cop).units >= 0,
{
    Fixed::product_monotone(heat, eir, heat, eir);
    lemma_div_pos_is_pos(heat.product(eir).units * fixed::SCALE, cop.units as int);
}

/// Without ground temperatures in the weather file the unit uses the sinusoidal model.
pub proof fn missing_weather_data_falls_back<T: Scalar>(
    unit: GroundSourceHeatPump<T>,
    day: u32,
)
    requires
        unit.ground_temp_source is EpwMonthly,
        unit.epw_monthly_temps is None,
    ensures
        gshp::ground_temp(unit, day) == gshp::ground_temp(
            GroundSourceHeatPump { ground_temp_source: GroundTempSource::Auto, ..unit },
            day,
        ),
{
}

/// Ground temperatures from the weather file count like the same temperatures in a table of the
/// user.
pub proof fn weather_data_counts_like_a_table<T: Scalar>(
    unit: GroundSourceHeatPump<T>,
    temps: [T; 12],
    day: u32,
)
    requires
        unit.ground_temp_source is EpwMonthly,
        unit.epw_monthly_temps == Some(temps),
    ensures
        gshp::ground_temp(unit, day) == gshp::ground_temp(
            GroundSourceHeatPump { ground_temp_source: GroundTempSource::Monthly(temps), ..unit },
            day,
        ),
{
}

/// The sinusoidal model and a table of the user do not go by the weather file.
pub proof fn other_sources_ignore_weather_data<T: Scalar>(
    unit: GroundSourceHeatPump<T>,
    temps: Option<[T; 12]>,
    day: u32,
)
    requires
        !(unit.ground_temp_source is EpwMonthly),
    ensures
        gshp::ground_temp(unit, day) == gshp::ground_temp(
            GroundSourceHeatPump { epw_monthly_temps: temps, ..unit },
            day,
        ),
{
}

/// The built-in modifiers stay in their ranges at every temperature: capacity between
/// 0.6 and 1.2 in cooling and 1.5 in heating, energy input between 0.5 and 2.
pub proof fn modifiers_stay_in_range<T: Ordered>(mode: GshpMode, ewt: T)
    requires
        mode != GshpMode::Off,
    ensures
        ({
            let (cap, eir) = gshp::rating_modifiers(mode, ewt);
            let cap_limit: T = if mode == GshpMode::Cooling {
                lit(12, 10)
            } else {
                lit(15, 10)
            };
            &&& !cap.below(lit(6, 10))
            &&& !cap_limit.below(cap)
            &&& !eir.below(lit(5, 10))
            &&& !num::<T>(2).below(eir)
        }),
{
    T::fractions_ordered(6, 10, 12, 10);
    T::fractions_ordered(6, 10, 15, 10);
    T::fractions_ordered(5, 10, 2, 1);
    let d_cool = ewt.difference(num(gshp::ISO_GLHP_COOLING_EWT_C));
    let d_heat = ewt.difference(num(gshp::ISO_GLHP_HEATING_EWT_C));
    let cool_cap = num::<T>(1).difference(lit::<T>(5, 1000).product(d_cool));
    let cool_eir = num::<T>(1).sum(lit::<T>(27, 1000).product(d_cool));
    let heat_cap = num::<T>(1).sum(lit::<T>(12, 1000).product(d_heat));
    let heat_eir = num::<T>(1).difference(lit::<T>(27, 1000).product(d_heat));
    scalar::clamp_stays_within(cool_cap, lit(6, 10), lit(12, 10));
    scalar::clamp_stays_within(cool_eir, lit(5, 10), num(2));
    scalar::clamp_stays_within(heat_cap, lit(6, 10), lit(15, 10));
    scalar::clamp_stays_within(heat_eir, lit(5, 10), num(2));
}

/// Water that enters warmer never helps cooling and never hurts heating: in cooling
/// the capacity falls and the energy input rises, in heating the other way round.
pub proof fn warmer_loop_derates_cooling<T: Monotone>(mode: GshpMode, cold: T, warm: T)
    requires
        !warm.below(cold),
    ensures
        ({
            let (cap_cold, eir_cold) = gshp::rating_modifiers(mode, cold);
            let (cap_warm, eir_warm) = gshp::rating_modifiers(mode, warm);
            match mode {
                GshpMode::Cooling => !cap_cold.below(cap_warm) && !eir_warm.below(eir_cold),
                GshpMode::Heating => !cap_warm.below(cap_cold) && !eir_cold.below(eir_warm),
                GshpMode::Off => cap_cold == cap_warm && eir_cold == eir_warm,
            }
        }),
{
    let cool_at: T = num(gshp::ISO_GLHP_COOLING_EWT_C);
    let heat_at: T = num(gshp::ISO_GLHP_HEATING_EWT_C);
    cool_at.below_irreflexive();
    heat_at.below_irreflexive();
    T::difference_monotone(cold, cool_at, warm, cool_at);
    T::difference_monotone(cold, heat_at, warm, heat_at);
    let (a, b) = (cold.difference(cool_at), warm.difference(cool_at));
    let (c, d) = (cold.difference(heat_at), warm.difference(heat_at));
    rising_modifier(27, a, b, 5, 10, 2, 1);
    falling_modifier(5, a, b, 6, 10, 12, 10);
    rising_modifier(12, c, d, 6, 10, 15, 10);
    falling_modifier(27, c, d, 5, 10, 2, 1);
}

/// A modifier that rises with the temperature, by so many thousandths for each degree.
proof fn rising_modifier<T: Monotone>(
    slope: int,
    a: T,
    b: T,
    low_n: int,
    low_d: int,
    high_n: int,
    high_d: int,
)
    requires
        0 <= slope,
        !b.below(a),
        0 < low_d,
        0 < high_d,
        low_n * high_d <= high_n * low_d,
    ensures
        ({
            let (k, one) = (T::fraction(slope, 1000), T::fraction(1, 1));
            let (low, high) = (T::fraction(low_n, low_d), T::fraction(high_n, high_d));
            !clamp(one.sum(k.product(b)), low, high).below(
                clamp(one.sum(k.product(a)), low, high),
            )
        }),
{
    let (k, one) = (T::fraction(slope, 1000), T::fraction(1, 1));
    T::fractions_ordered(0, 1, slope, 1000);
    T::fractions_ordered(low_n, low_d, high_n, high_d);
    one.below_irreflexive();
    T::scaling_monotone(k, a, b);
    T::sum_monotone(one, k.product(a), one, k.product(b));
    scalar::clamp_monotone(
        one.sum(k.product(a)),
        one.sum(k.product(b)),
        T::fraction(low_n, low_d),
        T::fraction(high_n, high_d),
    );
}

/// A modifier that falls with the temperature, by so many thousandths for each degree.
proof fn falling_modifier<T: Monotone>(
    slope: int,
    a: T,
    b: T,
    low_n: int,
    low_d: int,
    high_n: int,
    high_d: int,
)
    requires
        0 <= slope,
        !b.below(a),
        0 < low_d,
        0 < high_d,
        low_n * high_d <= high_n * low_d,
    ensures
        ({
            let (k, one) = (T::fraction(slope, 1000), T::fraction(1, 1));
            let (low, high) = (T::fraction(low_n, low_d), T::fraction(high_n, high_d));
            !clamp(one.difference(k.product(a)), low, high).below(
                clamp(one.difference(k.product(b)), low, high),
            )
        }),
{
    let (k, one) = (T::fraction(slope, 1000), T::fraction(1, 1));
    T::fractions_ordered(0, 1, slope, 1000);
    T::fractions_ordered(low_n, low_d, high_n, high_d);
    one.below_irreflexive();
    T::scaling_monotone(k, a, b);
    T::difference_monotone(one, k.product(b), one, k.product(a));
    scalar::clamp_monotone(
        one.difference(k.product(b)),
        one.difference(k.product(a)),
        T::fraction(low_n, low_d),
        T::fraction(high_n, high_d),
    );
}

/// At the temperatures at which the unit is rated its modifiers are one, and so they are while
/// it is off.
pub proof fn rating_points_are_neutral(ewt: Fixed)
    ensures
        gshp::rating_modifiers(GshpMode::Cooling, num::<Fixed>(gshp::ISO_GLHP_COOLING_EWT_C)) == (
            num::<Fixed>(1),
            num::<Fixed>(1),
        ),
        gshp::rating_modifiers(GshpMode::Heating, num::<Fixed>(gshp::ISO_GLHP_HEATING_EWT_C)) == (
            num::<Fixed>(1),
            num::<Fixed>(1),
        ),
        gshp::rating_modifiers(GshpMode::Off, ewt) == (num::<Fixed>(1), num::<Fixed>(1)),
{
    let (cool_at, heat_at) = (
        num::<Fixed>(gshp::ISO_GLHP_COOLING_EWT_C),
        num::<Fixed>(gshp::ISO_GLHP_HEATING_EWT_C),
    );
    let zero = Fixed { units: 0 };
    assert(cool_at.difference(cool_at) == zero && heat_at.difference(heat_at) == zero);
    assert(lit::<Fixed>(5, 1000).product(zero) == zero);
    assert(lit::<Fixed>(12, 1000).product(zero) == zero);
    assert(lit::<Fixed>(27, 1000).product(zero) == zero);
    assert(num::<Fixed>(1).units == 1_000_000_000);
    assert(lit::<Fixed>(6, 10).units == 600_000_000);
    assert(lit::<Fixed>(12, 10).units == 1_200_000_000);
    assert(lit::<Fixed>(15, 10).units == 1_500_000_000);
    assert(lit::<Fixed>(5, 10).units == 500_000_000);
    assert(num::<Fixed>(2).units == 2_000_000_000);
}

/// What the unit does to the air never carries it past the setpoint.
pub proof fn supply_never_passes_setpoint(
    unit: GroundSourceHeatPump<Fixed>,
    inlet: AirPort<Fixed>,
    day: u32,
    cp: Fixed,
    curves: CurveValues<Fixed>,
)
    requires
        cp.units > 0,
    ensures
        ({
            let (after, outlet) = gshp::after_air(unit, inlet, day, cp, curves);
            match after.mode {
                GshpMode::Cooling => unit.outlet_temp_setpoint.units <= outlet.t_db.units
                    <= inlet.t_db.units,
                GshpMode::Heating => inlet.t_db.units <= outlet.t_db.units
                    <= unit.outlet_temp_setpoint.units,
                GshpMode::Off => outlet.t_db == inlet.t_db,
            }
        }),
{
    let (after, outlet) = gshp::after_air(unit, inlet, day, cp, curves);
    let mode = gshp::called_mode(unit.outlet_temp_setpoint, inlet);
    if mode != GshpMode::Off {
        assert(inlet.mass_flow.units > 0);
        let stream = inlet.mass_flow.product(cp);
        assert(0 <= inlet.mass_flow.units * cp.units) by (nonlinear_arith)
            requires
                inlet.mass_flow.units > 0,
                cp.units > 0,
        ;
        lemma_div_pos_is_pos(inlet.mass_flow.units * cp.units, fixed::SCALE as int);
        assert(stream.units >= 0);
        let ewt = gshp::loop_temp(unit, mode, day);
        let (default_cap, default_eir) = gshp::rating_modifiers(mode, ewt);
        let cap_mod = gshp::curve_or(curves.cap, default_cap);
        let (rated, lift) = if mode == GshpMode::Cooling {
            (
                unit.rated_cooling_capacity,
                inlet.t_db.difference(unit.outlet_temp_setpoint),
            )
        } else {
            (
                unit.rated_heating_capacity,
                unit.outlet_temp_setpoint.difference(inlet.t_db),
            )
        };
        assert(lit::<Fixed>(1, 10).units == 100_000_000);
        assert(lit::<Fixed>(1, 1_000_000).units == 1000);
        assert(lift.units >= 0);
        let needed = stream.product(lift);
        let heat = gshp::heat_moved(needed, rated.product(cap_mod));
        let floor = stream.greater(lit(1, 1_000_000));
        let change = heat.quotient(floor);
        assert(stream.units * lift.units >= 0) by (nonlinear_arith)
            requires
                stream.units >= 0,
                lift.units >= 0,
        ;
        lemma_div_pos_is_pos(stream.units * lift.units, fixed::SCALE as int);
        assert(0 <= heat.units <= needed.units);
        lemma_fundamental_div_mod(stream.units * lift.units, fixed::SCALE as int);
        lemma_mod_bound(stream.units * lift.units, fixed::SCALE as int);
        assert(heat.units * fixed::SCALE <= stream.units * lift.units);
        assert(stream.units * lift.units <= floor.units * lift.units) by (nonlinear_arith)
            requires
                stream.units <= floor.units,
                lift.units >= 0,
        ;
        lemma_div_is_ordered(
            heat.units * fixed::SCALE,
            floor.units * lift.units,
            floor.units as int,
        );
        lemma_div_multiples_vanish(lift.units as int, floor.units as int);
        lemma_div_pos_is_pos(heat.units * fixed::SCALE, floor.units as int);
        assert(0 <= change.units <= lift.units);
    }
}

/// The day of the year by month counts the days of the months before.
pub proof fn numbered_day_counts_months(month: u32, day: u32, dims: Seq<u32>)
    requires
        1 <= month <= 12,
        dims == seq![31u32, 28, 31, 30, 31, 30, 31, 31, 30, 31, 30, 31],
    ensures
        gshp::numbered_day(month, day) == calendar::days_to(dims, (month - 1) as nat) + day,
{
    reveal_with_fuel(calendar::days_to, 12);
}

/// When month `m` is half over, in halves of the `per_day` parts of a day.
pub open spec fn middle(m: nat, per_day: int) -> int {
    gshp::mid_month_doubled(m) * per_day
}

/// The first and the last middle of the year.
proof fn ends_of_the_year(per_day: int)
    ensures
        middle(0, per_day) == 31 * per_day,
        middle(11, per_day) == 699 * per_day,
{
    let (a, b) = (gshp::mid_month_doubled(0), gshp::mid_month_doubled(11));
    assert(a == 31 && b == 699);
    assert(a * per_day == 31 * per_day && b * per_day == 699 * per_day) by (nonlinear_arith)
        requires
            a == 31,
            b == 699,
    ;
}

proof fn middles_are_in_order(m: nat, per_day: int)
    requires
        m < 11,
        per_day > 0,
    ensures
        middle(m, per_day) < middle(m + 1, per_day),
        middle(m + 1, per_day) - middle(m, per_day) == (gshp::mid_month_doubled(m + 1)
            - gshp::mid_month_doubled(m)) * per_day,
        31 * per_day <= middle(m, per_day),
        middle(m + 1, per_day) <= 699 * per_day,
{
    let (a, b) = (gshp::mid_month_doubled(m), gshp::mid_month_doubled(m + 1));
    assert(31 <= a < b <= 699);
    assert(31 * per_day <= a * per_day < b * per_day <= 699 * per_day && b * per_day - a * per_day
        == (b - a) * per_day) by (nonlinear_arith)
        requires
            31 <= a < b <= 699,
            per_day > 0,
    ;
}

proof fn month_reached_brackets(at: int, per_day: int, m: nat)
    requires
        m <= 11,
        middle(0, per_day) <= at,
        m < 11 ==> at < middle(m + 1, per_day),
    ensures
        ({
            let r = gshp::month_reached(at, per_day, m);
            &&& r <= m
            &&& middle(r, per_day) <= at
            &&& r < 11 ==> at < middle(r + 1, per_day)
        }),
    decreases m,
{
    if m > 0 && middle(m, per_day) > at {
        month_reached_brackets(at, per_day, (m - 1) as nat);
    }
}

/// A moment of the year always stands between the middles of two neighbouring months.
pub proof fn moment_is_between_neighbouring_months(at: int, per_day: int)
    requires
        per_day > 0,
        0 <= at < 730 * per_day,
    ensures
        ({
            let (from, to, n, d) = gshp::between_months(at, per_day);
            &&& from < 12
            &&& to == (from + 1) % 12
            &&& 0 <= n <= d
            &&& d > 0
        }),
{
    ends_of_the_year(per_day);
    if middle(0, per_day) < at < middle(11, per_day) {
        month_reached_brackets(at, per_day, 11);
        let m = gshp::month_reached(at, per_day, 11);
        middles_are_in_order(m, per_day);
    }
}

/// Monthly values repeat every year.
pub proof fn monthly_values_repeat_every_year<T: Scalar>(temps: [T; 12], n: nat, per_day: nat)
    requires
        per_day > 0,
    ensures
        gshp::interpolated_after(temps, n + 365 * per_day, per_day) == gshp::interpolated_after(
            temps,
            n,
            per_day,
        ),
{
    let year = 730 * per_day as int;
    lemma_mod_multiples_vanish(1, (2 * n) as int, year);
    assert((2 * (n + 365 * per_day)) as int == year * 1 + (2 * n) as int);
}

proof fn month_reached_is(at: int, per_day: int, m: nat, from: nat)
    requires
        per_day > 0,
        m <= from <= 11,
        middle(m, per_day) <= at,
        m < 11 ==> at < middle(m + 1, per_day),
    ensures
        gshp::month_reached(at, per_day, from) == m,
    decreases from,
{
    if m < from {
        later_middles_are_later(m + 1, from, per_day);
        month_reached_is(at, per_day, m, (from - 1) as nat);
    }
}

proof fn later_middles_are_later(m: nat, later: nat, per_day: int)
    requires
        per_day > 0,
        m <= later <= 11,
    ensures
        middle(m, per_day) <= middle(later, per_day),
    decreases later,
{
    if m < later {
        later_middles_are_later(m, (later - 1) as nat, per_day);
        middles_are_in_order((later - 1) as nat, per_day);
    }
}

/// Between the middles of two months the value goes in a straight line from that of the one
/// to that of the other; from the middle of December it goes on to that of January, in the next
/// year. The moment may be any part of a day.
pub proof fn monthly_values_are_linear_between_middles<T: Scalar>(
    temps: [T; 12],
    at: int,
    per_day: int,
    m: nat,
)
    requires
        per_day > 0,
        m < 12,
        m < 11 ==> middle(m, per_day) < at < middle(m + 1, per_day),
        m == 11 ==> middle(11, per_day) <= at <= middle(0, per_day) + 730 * per_day,
    ensures
        ({
            let start = middle(m, per_day);
            let (next, end) = if m < 11 {
                (m as int + 1, middle(m + 1, per_day))
            } else {
                (0, middle(0, per_day) + 730 * per_day)
            };
            gshp::interpolated_at(temps, at % (730 * per_day), per_day) == plus(
                temps@[m as int],
                times(T::fraction(at - start, end - start), minus(temps@[next], temps@[m as int])),
            )
        }),
{
    ends_of_the_year(per_day);
    let year = 730 * per_day;
    if m < 11 {
        middles_are_in_order(m, per_day);
        later_middles_are_later(0, m, per_day);
        later_middles_are_later(m + 1, 11, per_day);
        lemma_small_mod(at as nat, year as nat);
        month_reached_is(at, per_day, m, 11);
    } else if at < year {
        lemma_small_mod(at as nat, year as nat);
    } else {
        lemma_mod_multiples_vanish(1, at - year, year);
        lemma_small_mod((at - year) as nat, year as nat);
    }
}

/// In the middle of a month the value is that of the month.
pub proof fn monthly_value_is_met_in_mid_month(temps: [Fixed; 12], m: nat, per_day: int)
    requires
        m < 12,
        per_day > 0,
        i64::MIN <= temps@[0].units - temps@[11].units <= i64::MAX,
    ensures
        gshp::interpolated_at(temps, middle(m, per_day), per_day) == temps@[m as int],
{
    ends_of_the_year(per_day);
    let at = middle(m, per_day);
    if m == 0 {
        let span = temps@[0].difference(temps@[11]);
        let d = 62 * per_day;
        lemma_div_multiples_vanish(fixed::SCALE as int, d);
        assert(d * fixed::SCALE == d * (fixed::SCALE as int));
        assert(Fixed::fraction(d, d).units == fixed::SCALE);
        lemma_div_multiples_vanish(span.units as int, fixed::SCALE as int);
        assert(fixed::SCALE * span.units == Fixed::fraction(d, d).units * span.units);
    } else {
        later_middles_are_later(0, (m - 1) as nat, per_day);
        middles_are_in_order((m - 1) as nat, per_day);
        if m < 11 {
            middles_are_in_order(m, per_day);
            later_middles_are_later(m + 1, 11, per_day);
            month_reached_is(at, per_day, m, 11);
        }
        let (from, to, n, d) = gshp::between_months(at, per_day);
        assert(from == m && n == 0);
        moment_is_between_neighbouring_months(at, per_day);
        assert(Fixed::fraction(0, d).units == 0) by {
            lemma_div_basics(d);
        }
    }
}

/// A ground temperature from monthly values lies between those of the two months around the
/// moment, the second one as it is found by going the whole way from the first.
pub proof fn monthly_temperature_stays_on_its_way<T: Monotone>(
    temps: [T; 12],
    at: int,
    per_day: int,
)
    requires
        per_day > 0,
        0 <= at < 730 * per_day,
    ensures
        ({
            let (from, to, n, d) = gshp::between_months(at, per_day);
            let (a, b) = (temps@[from as int], temps@[to as int]);
            let end = a.sum(b.difference(a));
            let t = gshp::interpolated_at(temps, at, per_day);
            &&& !b.below(a) ==> !t.below(a) && !end.below(t)
            &&& !a.below(b) ==> !a.below(t) && !t.below(end)
        }),
{
    moment_is_between_neighbouring_months(at, per_day);
    let (from, to, n, d) = gshp::between_months(at, per_day);
    let (a, b) = (temps@[from as int], temps@[to as int]);
    let span = b.difference(a);
    let share = T::fraction(n, d);
    T::fractions_ordered(0, 1, n, d);
    T::fractions_ordered(n, d, 1, 1);
    a.below_irreflexive();
    T::difference_goes_by_order(b, a);
    T::share_shrinks(share, span);
    T::sum_goes_by_sign(a, share.product(span));
    if !b.below(a) {
        T::sum_monotone(a, share.product(span), a, span);
    }
    if !a.below(b) {
        T::sum_monotone(a, span, a, share.product(span));
    }
}

/// On fixed-point numbers a ground temperature from monthly values lies between those of the two
/// months around the moment.
pub proof fn monthly_temperature_between_its_months(temps: [Fixed; 12], at: int, per_day: int)
    requires
        per_day > 0,
        0 <= at < 730 * per_day,
        forall|i: int, j: int|
            0 <= i < 12 && 0 <= j < 12 ==> i64::MIN <= (#[trigger] temps@[i]).units - (
            #[trigger] temps@[j]).units <= i64::MAX,
    ensures
        ({
            let (from, to, n, d) = gshp::between_months(at, per_day);
            let a = temps@[from as int].units;
            let b = temps@[to as int].units;
            let t = gshp::interpolated_at(temps, at, per_day).units;
            if a <= b {
                a <= t <= b
            } else {
                b <= t <= a
            }
        }),
{
    moment_is_between_neighbouring_months(at, per_day);
    let (from, to, n, d) = gshp::between_months(at, per_day);
    let (a, b) = (temps@[from as int], temps@[to as int]);
    assert(i64::MIN <= b.units - a.units <= i64::MAX);
    monthly_temperature_stays_on_its_way(temps, at, per_day);
}

/// A ground temperature from monthly values never leaves the range of the twelve.
pub proof fn monthly_temperature_stays_in_their_range(
    temps: [Fixed; 12],
    n: nat,
    per_day: nat,
    low: Fixed,
    high: Fixed,
)
    requires
        per_day > 0,
        forall|i: int| 0 <= i < 12 ==> low.units <= (#[trigger] temps@[i]).units <= high.units,
        high.units - low.units <= i64::MAX,
    ensures
        low.units <= gshp::interpolated_after(temps, n, per_day).units <= high.units,
{
    let at = (2 * n) as int % (730 * per_day) as int;
    moment_is_between_neighbouring_months(at, per_day as int);
    monthly_temperature_between_its_months(temps, at, per_day as int);
}

/// A product of two numbers is no larger than the product of their sizes.
proof fn product_is_bounded(a: Fixed, b: Fixed, most_a: int, most_b: int)
    requires
        size(a) <= most_a * fixed::SCALE,
        size(b) <= most_b * fixed::SCALE,
        0 <= most_a,
        0 <= most_b,
    ensures
        size(a.product(b)) <= most_a * most_b * fixed::SCALE,
{
    let scale = fixed::SCALE as int;
    let p = a.units * b.units;
    let (x, y) = (most_a * scale, most_b * scale);
    assert(-(x * y) <= p <= x * y) by (nonlinear_arith)
        requires
            p == a.units * b.units,
            -x <= a.units <= x,
            -y <= b.units <= y,
    ;
    let most = most_a * most_b * scale;
    assert(x * y == scale * most) by (nonlinear_arith)
        requires
            x == most_a * scale,
            y == most_b * scale,
            most == most_a * most_b * scale,
    ;
    assert(most >= 0) by (nonlinear_arith)
        requires
            most == most_a * most_b * scale,
            most_a >= 0,
            most_b >= 0,
            scale >= 0,
    ;
    let q = p / scale;
    lemma_fundamental_div_mod(p, scale);
    lemma_mod_bound(p, scale);
    assert(-most <= q <= most) by (nonlinear_arith)
        requires
            p == scale * q + p % scale,
            0 <= p % scale < scale,
            -(scale * most) <= p <= scale * most,
    ;
}

/// The ground temperature of a unit is finite on every day, whichever its source: with a mean
/// and monthly values within a million degrees, a swing of at most 20 K, and a depth and a season
/// that the sinusoidal model is meant for.
pub proof fn ground_temperature_is_finite(unit: GroundSourceHeatPump<Fixed>, day: u32)
    requires
        size(unit.kusuda_t_mean) <= 1_000_000 * fixed::SCALE,
        size(unit.kusuda_amplitude) <= 20 * fixed::SCALE,
        size(gshp::damping_exponent(unit, unit.loop_depth)) <= 8 * fixed::SCALE,
        size(gshp::season_angle(unit, Fixed::whole(day as nat), unit.loop_depth)) <= 8
            * fixed::SCALE,
        unit.epw_monthly_temps matches Some(temps) ==> forall|i: int|
            0 <= i < 12 ==> size(#[trigger] temps@[i]) <= 1_000_000 * fixed::SCALE,
        unit.ground_temp_source matches GroundTempSource::Monthly(temps) ==> forall|i: int|
            0 <= i < 12 ==> size(#[trigger] temps@[i]) <= 1_000_000 * fixed::SCALE,
    ensures
        gshp::ground_temp(unit, day).finite(),
{
    let million = 1_000_000 * fixed::SCALE;
    let (low, high) = (
        Fixed { units: (-1_000_000_000_000_000) as i64 },
        Fixed { units: 1_000_000_000_000_000 },
    );
    if let Some(temps) = unit.epw_monthly_temps {
        assert forall|i: int| 0 <= i < 12 implies low.units <= (#[trigger] temps@[i]).units
            <= high.units by {
            assert(size(temps@[i]) <= million);
        }
        monthly_temperature_stays_in_their_range(temps, day as nat, 1, low, high);
    }
    if let GroundTempSource::Monthly(temps) = unit.ground_temp_source {
        assert forall|i: int| 0 <= i < 12 implies low.units <= (#[trigger] temps@[i]).units
            <= high.units by {
            assert(size(temps@[i]) <= million);
        }
        monthly_temperature_stays_in_their_range(temps, day as nat, 1, low, high);
    }
    let exponent = gshp::damping_exponent(unit, unit.loop_depth);
    let angle = gshp::season_angle(unit, Fixed::whole(day as nat), unit.loop_depth);
    series_laws::exponential_is_bounded(exponent);
    series_laws::cosine_is_bounded(angle);
    let swing = unit.kusuda_amplitude.product(exponent.exponential());
    product_is_bounded(unit.kusuda_amplitude, exponent.exponential(), 20, 90_000);
    product_is_bounded(swing, angle.cosine(), 1_800_000, 4300);
}

} // verus!
