//! What the control of air loops asks for, in terms of the temperatures, setpoints and loads of
//! the zones, on fixed-point numbers.
use crate::air_loop::{AirLoopSystemType, ControlSignals, CyclingMethod, FanOperatingMode, LoopInfo};
use crate::control;
use crate::control::{AirReading, CoilRule, Economizer, EconomizerType, HvacMode};
use crate::fixed;
use crate::fixed::Fixed;
use crate::scalar::{lit, num, plus, Scalar};
use crate::signals;
use crate::text;
use crate::zones;
use crate::zones::ZoneData;
use vstd::arithmetic::div_mod::*;
use vstd::prelude::*;

verus! {

/// What is under a name, or else a default.
pub open spec fn or_else<V>(map: Map<Seq<char>, V>, name: Seq<char>, default: V) -> V {
    if map.contains_key(name) {
        map[name]
    } else {
        default
    }
}

/// A number of thousandths.
pub open spec fn milli(n: int) -> Fixed {
    Fixed { units: (n * 1_000_000) as i64 }
}

// ---------------------------------------------------------------------------
// Zones together

/// A quantity over some zones adds up zone by zone; one that is missing counts as the default.
pub proof fn zones_add_up<T: Scalar>(
    served: Seq<String>,
    values: Map<Seq<char>, T>,
    default: T,
    n: nat,
)
    requires
        n < served.len(),
    ensures
        zones::zone_total(served, values, default, 0) == num::<T>(0),
        zones::zone_total(served, values, default, n + 1) == plus(
            zones::zone_total(served, values, default, n),
            or_else(values, served[n as int]@, default),
        ),
{
}

/// The largest and the smallest of a quantity over some zones bound it in each of them, and are
/// found in one.
pub proof fn extremes_bound_every_zone(
    served: Seq<String>,
    values: Map<Seq<char>, Fixed>,
    default: Fixed,
    n: nat,
)
    requires
        n <= served.len(),
        forall|i: int|
            0 <= i < n ==> or_else(values, (#[trigger] served[i])@, default).units > i64::MIN,
    ensures
        forall|i: int|
            0 <= i < n ==> zones::zone_min(served, values, default, n).units <= or_else(
                values,
                (#[trigger] served[i])@,
                default,
            ).units <= zones::zone_max(served, values, default, n).units,
        n > 0 ==> exists|i: int|
            0 <= i < n && or_else(values, (#[trigger] served[i])@, default).units
                == zones::zone_max(served, values, default, n).units,
        n > 0 ==> exists|i: int|
            0 <= i < n && or_else(values, (#[trigger] served[i])@, default).units
                == zones::zone_min(served, values, default, n).units,
    decreases n,
{
    if n > 0 {
        let m = (n - 1) as nat;
        extremes_bound_every_zone(served, values, default, m);
        let last = or_else(values, served[n - 1]@, default).units;
        let (low, high) = (
            zones::zone_min(served, values, default, n).units,
            zones::zone_max(served, values, default, n).units,
        );
        if m > 0 {
            let i = choose|i: int|
                0 <= i < m && or_else(values, (#[trigger] served[i])@, default).units
                    == zones::zone_max(served, values, default, m).units;
            let j = choose|j: int|
                0 <= j < m && or_else(values, (#[trigger] served[j])@, default).units
                    == zones::zone_min(served, values, default, m).units;
            let a = served[i];
            let b = served[j];
        }
        let c = served[n - 1];
        if m == 0 {
            assert(zones::zone_max(served, values, default, 0).units <= last);
            assert(zones::zone_min(served, values, default, 0).units >= last);
        }
        if high == last {
            assert(or_else(values, served[n - 1]@, default).units == high);
        }
        if low == last {
            assert(or_else(values, served[n - 1]@, default).units == low);
        }
    }
}

/// The mean of a quantity over some zones, times their number, is its total, but for rounding.
pub proof fn mean_spreads_the_total(
    served: Seq<String>,
    values: Map<Seq<char>, Fixed>,
    default: Fixed,
    none: Fixed,
)
    requires
        served.len() <= 1_000_000_000,
    ensures
        served.len() == 0 ==> zones::zone_mean(served, values, default, none) == none,
        served.len() > 0 ==> {
            let total = zones::zone_total(served, values, default, served.len()).units;
            let mean = zones::zone_mean(served, values, default, none).units;
            let n = served.len() as int;
            mean * n <= total < mean * n + n
        },
{
    if served.len() > 0 {
        let total = zones::zone_total(served, values, default, served.len());
        let n = served.len() as int;
        let whole = Fixed::whole(served.len());
        assert(whole.units == n * fixed::SCALE);
        let q = total.units as int / n;
        let r = total.units as int % n;
        lemma_fundamental_div_mod(total.units as int, n);
        lemma_mod_bound(total.units as int, n);
        assert(total.units * fixed::SCALE == q * (n * fixed::SCALE) + fixed::SCALE * r)
            by (nonlinear_arith)
            requires
                total.units == n * q + r,
        ;
        assert(0 <= fixed::SCALE * r < n * fixed::SCALE) by (nonlinear_arith)
            requires
                0 <= r < n,
                0 < fixed::SCALE,
        ;
        lemma_fundamental_div_mod_converse(
            total.units * fixed::SCALE,
            n * fixed::SCALE,
            q,
            fixed::SCALE * r,
        );
        assert(i64::MIN <= q <= i64::MAX) by (nonlinear_arith)
            requires
                total.units == n * q + r,
                0 <= r < n,
                n >= 1,
                i64::MIN <= total.units <= i64::MAX,
        ;
        assert(n * q == q * n) by (nonlinear_arith);
    }
}

/// Zones are counted where their value is above the limit, and a missing value counts as zero.
pub proof fn zones_are_counted_above_the_limit(
    served: Seq<String>,
    values: Map<Seq<char>, Fixed>,
    limit: Fixed,
    n: nat,
)
    requires
        n < served.len(),
    ensures
        zones::zones_above(served, values, limit, 0) == 0,
        ({
            let above = or_else(values, served[n as int]@, num(0)).units > limit.units;
            zones::zones_above(served, values, limit, n + 1) == zones::zones_above(
                served,
                values,
                limit,
                n,
            ) + if above {
                1nat
            } else {
                0nat
            }
        }),
{
}

/// A zone is too humid where it has a limit and its relative humidity is above it, and is to be
/// humidified where it has a floor and is below that.
pub proof fn humidity_limits_are_watched(z: ZoneData<Fixed>, zone: Seq<char>)
    ensures
        ({
            let rh = or_else(z.rel_humidity@, zone, z.default_rel_humidity).units;
            &&& zones::too_humid(z, zone) <==> z.max_rh@.contains_key(zone) && rh
                > z.max_rh@[zone].units
            &&& zones::humidify_to(z, zone) is Some <==> z.min_rh@.contains_key(zone) && rh
                < z.min_rh@[zone].min_rh.units
            &&& zones::humidify_to(z, zone) is Some ==> zones::humidify_to(z, zone)->Some_0
                == z.min_rh@[zone].w_target
        }),
{
}

// ---------------------------------------------------------------------------
// Thermostats and economizers

/// A zone below its heating setpoint calls for heating, one above its cooling setpoint for
/// cooling, and one between the two for neither.
pub proof fn thermostat_calls_by_its_setpoints(temp: Fixed, heat_sp: Fixed, cool_sp: Fixed)
    requires
        heat_sp.units <= cool_sp.units,
    ensures
        control::hvac_mode(temp, heat_sp, cool_sp) == HvacMode::Heating <==> temp.units
            < heat_sp.units,
        control::hvac_mode(temp, heat_sp, cool_sp) == HvacMode::Cooling <==> temp.units
            > cool_sp.units,
{
}

/// Each economizer may bring in outdoor air on its own condition: below a fixed temperature,
/// 23.889 C where none is given; below the return temperature; below a fixed enthalpy, 65.2 kJ/kg
/// where none is given; below the return enthalpy; or below that and a fixed temperature.
pub proof fn economizers_have_their_conditions(
    e: Economizer<Fixed>,
    outdoor: AirReading<Fixed>,
    back: AirReading<Fixed>,
)
    ensures
        ({
            let helps = control::outdoor_air_helps(e, outdoor, back);
            let limit = match e.high_limit {
                Some(t) => t.units as int,
                None => 23_889_000_000,
            };
            let enthalpy = match e.high_limit_enthalpy {
                Some(h) => h.units as int,
                None => 65_200_000_000_000,
            };
            let below_temp = outdoor.temp.units < limit;
            let less = outdoor.enthalpy.units < back.enthalpy.units;
            match e.economizer_type {
                EconomizerType::NoEconomizer => !helps,
                EconomizerType::FixedDryBulb => helps <==> below_temp,
                EconomizerType::DifferentialDryBulb => helps <==> outdoor.temp.units
                    < back.temp.units,
                EconomizerType::FixedEnthalpy => helps <==> outdoor.enthalpy.units < enthalpy,
                EconomizerType::DifferentialEnthalpy => helps <==> less,
                EconomizerType::EnthalpyWithHighLimit => helps <==> less && below_temp,
            }
        }),
{
    assert(lit::<Fixed>(23889, 1000).units == 23_889_000_000);
    assert(num::<Fixed>(65200).units == 65_200_000_000_000);
}

/// Mixed air is return air without outdoor air, outdoor air without return air, and in between
/// it lies by the fraction, but for rounding.
pub proof fn air_mixes_by_the_fraction(back: Fixed, outdoor: Fixed, fraction: Fixed)
    requires
        0 <= fraction.units <= 1_000_000_000,
        -1_000_000_000_000_000 <= back.units <= 1_000_000_000_000_000,
        -1_000_000_000_000_000 <= outdoor.units <= 1_000_000_000_000_000,
    ensures
        ({
            let mixed = control::mixed_temp(back, outdoor, fraction).units;
            let exact = back.units * (1_000_000_000 - fraction.units) + outdoor.units
                * fraction.units;
            &&& exact - 2_000_000_000 < 1_000_000_000 * mixed <= exact
            &&& fraction.units == 0 ==> mixed == back.units
            &&& fraction.units == 1_000_000_000 ==> mixed == outdoor.units
        }),
{
    assert(num::<Fixed>(1).units == 1_000_000_000);
    let rest = num::<Fixed>(1).difference(fraction);
    rounded(back, rest);
    rounded(outdoor, fraction);
    let (f, g) = (fraction.units as int, rest.units as int);
    if f == 0 {
        assert(back.units * g == 1_000_000_000 * back.units) by (nonlinear_arith)
            requires
                g == 1_000_000_000,
        ;
        assert(outdoor.units * f == 0) by (nonlinear_arith)
            requires
                f == 0,
        ;
    }
    if f == 1_000_000_000 {
        assert(outdoor.units * f == 1_000_000_000 * outdoor.units) by (nonlinear_arith)
            requires
                f == 1_000_000_000,
        ;
        assert(back.units * g == 0) by (nonlinear_arith)
            requires
                g == 0,
        ;
    }
}

proof fn rounded(a: Fixed, b: Fixed)
    requires
        -1_000_000_000_000_000 <= a.units <= 1_000_000_000_000_000,
        0 <= b.units <= 1_000_000_000,
    ensures
        fixed::SCALE * a.product(b).units <= a.units * b.units < fixed::SCALE * a.product(b).units
            + fixed::SCALE,
        -1_000_000_000_000_001 <= a.product(b).units <= 1_000_000_000_000_000,
{
    let exact = a.units * b.units;
    assert(-1_000_000_000_000_000_000_000_000 <= exact <= 1_000_000_000_000_000_000_000_000)
        by (nonlinear_arith)
        requires
            exact == a.units * b.units,
            -1_000_000_000_000_000 <= a.units <= 1_000_000_000_000_000,
            0 <= b.units <= 1_000_000_000,
    ;
    lemma_fundamental_div_mod(exact, fixed::SCALE as int);
    lemma_mod_bound(exact, fixed::SCALE as int);
}

/// Free cooling brings the mixed air to the target, where outdoor air can: the fraction takes the
/// way from the return temperature to the outdoor temperature as far as the target, but for
/// rounding. It takes all outdoor air where that is not cold enough, and the least where the
/// return air is at the target already or the outdoor air is hardly cooler than it.
pub proof fn free_cooling_meets_its_target(
    back: Fixed,
    outdoor: Fixed,
    target: Fixed,
    min_oa: Fixed,
)
    requires
        0 <= min_oa.units <= 1_000_000_000,
        -1_000_000_000_000_000 <= back.units <= 1_000_000_000_000_000,
        -1_000_000_000_000_000 <= outdoor.units <= 1_000_000_000_000_000,
        -1_000_000_000_000_000 <= target.units <= 1_000_000_000_000_000,
    ensures
        ({
            let f = control::free_cooling_fraction(back, outdoor, target, min_oa).units;
            let way = back.units - outdoor.units;
            let wanted = back.units - target.units;
            &&& way <= 100_000_000 ==> f == min_oa.units
            &&& way > 100_000_000 ==> {
                &&& wanted <= 0 ==> f == min_oa.units
                &&& wanted >= way ==> f == 1_000_000_000
                &&& min_oa.units < f < 1_000_000_000 ==> f * way <= wanted * 1_000_000_000 < f * way
                    + way
                &&& min_oa.units <= f <= 1_000_000_000
            }
        }),
{
    assert(num::<Fixed>(1).units == 1_000_000_000);
    assert(lit::<Fixed>(1, 10).units == 100_000_000);
    let way = back.difference(outdoor);
    let wanted = back.difference(target);
    if way.units > 100_000_000 {
        let exact = wanted.units * 1_000_000_000;
        let d = way.units as int;
        let q = exact / d;
        lemma_fundamental_div_mod(exact, d);
        lemma_mod_bound(exact, d);
        assert(d * q == q * d) by (nonlinear_arith);
        assert(-100_000_000_000_000_000 <= q <= 100_000_000_000_000_000) by (nonlinear_arith)
            requires
                exact == d * q + exact % d,
                0 <= exact % d < d,
                d > 100_000_000,
                -2_000_000_000_000_000_000_000_000 <= exact <= 2_000_000_000_000_000_000_000_000,
        ;
        if wanted.units <= 0 {
            assert(q <= 0) by (nonlinear_arith)
                requires
                    d * q <= exact,
                    exact <= 0,
                    d > 0,
            ;
        }
        if wanted.units >= d {
            assert(q >= 1_000_000_000) by (nonlinear_arith)
                requires
                    exact < d * q + d,
                    exact >= 1_000_000_000 * d,
                    d > 0,
            ;
        }
    }
}

// ---------------------------------------------------------------------------
// Coils by their names

/// A text holds another one somewhere.
pub open spec fn holds(s: Seq<char>, part: Seq<char>) -> bool {
    exists|i: int|
        0 <= i && i + part.len() <= s.len() && #[trigger] s.subrange(i, i + part.len()) == part
}

/// A text begins with another one.
pub open spec fn begins(s: Seq<char>, part: Seq<char>) -> bool {
    part.len() <= s.len() && s.subrange(0, part.len() as int) == part
}

pub proof fn holds_is_having_a_part(s: Seq<char>, part: Seq<char>)
    ensures
        text::has_part(s, part) == holds(s, part),
        text::occurs_at(s, part, 0) == begins(s, part),
{
    if text::has_part(s, part) {
        let i = choose|i: int| #[trigger] text::occurs_at(s, part, i);
        assert(s.subrange(i, i + part.len()) == part);
    }
    if holds(s, part) {
        let i = choose|i: int|
            0 <= i && i + part.len() <= s.len() && #[trigger] s.subrange(i, i + part.len()) == part;
        assert(text::occurs_at(s, part, i));
    }
}

/// The name of a cooling coil: it speaks of cooling or of DX, or begins with the letters.
pub open spec fn says_cooling(name: Seq<char>) -> bool {
    holds(name, "cool"@) || holds(name, "dx"@) || begins(name, "cc "@) || begins(name, "cc_"@)
}

/// The name of a heating coil: it speaks of heat or of hot water, or begins with the letters, or
/// of a furnace where those count.
pub open spec fn says_heating(name: Seq<char>, furnaces: bool) -> bool {
    holds(name, "heat"@) || holds(name, "hw"@) || begins(name, "hc "@) || begins(name, "hc_"@) || (
    furnaces && holds(name, "furnace"@))
}

/// A component is given the setpoint that its name, in lower case, calls for: that of a humidifier
/// or of a heat pump where the rule has one; a cooling coil that of cooling; a heating coil that of
/// heating; a name that fits both, the one that comes first; any other name none.
pub proof fn coils_are_set_by_their_names<T: Scalar>(rule: CoilRule<T>, name: Seq<char>)
    ensures
        ({
            let set = control::ruled_setpoint(rule, name);
            let cools = says_cooling(name);
            let heats = says_heating(name, rule.furnaces);
            let humid = rule.humidifier is Some && holds(name, "humid"@);
            let pump = rule.heat_pump is Some && holds(name, "gshp"@);
            &&& humid ==> set == rule.humidifier
            &&& !humid && pump ==> set == rule.heat_pump
            &&& !humid && !pump && cools && !heats ==> set == Some(rule.cooling)
            &&& !humid && !pump && heats && !cools ==> set == Some(rule.heating)
            &&& !humid && !pump && heats && cools && rule.cooling_first ==> set == Some(
                rule.cooling,
            )
            &&& !humid && !pump && heats && cools && !rule.cooling_first ==> set == Some(
                rule.heating,
            )
            &&& !humid && !pump && !heats && !cools ==> set is None
        }),
{
    holds_is_having_a_part(name, "cool"@);
    holds_is_having_a_part(name, "dx"@);
    holds_is_having_a_part(name, "cc "@);
    holds_is_having_a_part(name, "cc_"@);
    holds_is_having_a_part(name, "heat"@);
    holds_is_having_a_part(name, "hw"@);
    holds_is_having_a_part(name, "furnace"@);
    holds_is_having_a_part(name, "hc "@);
    holds_is_having_a_part(name, "hc_"@);
    holds_is_having_a_part(name, "humid"@);
    holds_is_having_a_part(name, "gshp"@);
}

/// Every component of a loop is set by its own name, and no other name is set.
pub proof fn every_component_is_set<T: Scalar>(
    names: Seq<String>,
    rule: CoilRule<T>,
    name: Seq<char>,
    value: T,
)
    ensures
        ({
            let set = control::coil_setpoints(names, rule);
            let flows = control::same_for_all(names, value);
            let own = exists|i: int| 0 <= i < names.len() && (#[trigger] names[i])@ == name;
            let given = control::ruled_setpoint(rule, text::lowercase(name));
            &&& set.contains_key(name) <==> own && given is Some
            &&& set.contains_key(name) ==> set[name] == given->Some_0
            &&& flows.contains_key(name) <==> own
            &&& own ==> flows[name] == value
        }),
{
}

// ---------------------------------------------------------------------------
// Packaged single-zone units

/// What a packaged unit sees of its zone.
pub open spec fn temp_in(z: ZoneData<Fixed>, zone: Seq<char>) -> int {
    or_else(z.temps@, zone, milli(21_000)).units as int
}

/// The heating setpoint of a zone.
pub open spec fn heat_to(z: ZoneData<Fixed>, zone: Seq<char>) -> int {
    or_else(z.heat_sp@, zone, milli(21_100)).units as int
}

/// The cooling setpoint of a zone.
pub open spec fn cool_to(z: ZoneData<Fixed>, zone: Seq<char>) -> int {
    or_else(z.cool_sp@, zone, milli(23_900)).units as int
}

/// A zone is above its humidity limit.
pub open spec fn is_humid(z: ZoneData<Fixed>, zone: Seq<char>) -> bool {
    z.max_rh@.contains_key(zone) && or_else(z.rel_humidity@, zone, z.default_rel_humidity).units
        > z.max_rh@[zone].units
}

pub proof fn defaults_in_units()
    ensures
        num::<Fixed>(21) == milli(21_000),
        lit::<Fixed>(211, 10) == milli(21_100),
        lit::<Fixed>(239, 10) == milli(23_900),
        lit::<Fixed>(5, 10) == milli(500),
        lit::<Fixed>(3, 10) == milli(300),
        lit::<Fixed>(1, 10) == milli(100),
        lit::<Fixed>(1, 100) == milli(10),
        lit::<Fixed>(5, 100) == milli(50),
        lit::<Fixed>(20, 100) == milli(200),
        lit::<Fixed>(30, 100) == milli(300),
        lit::<Fixed>(70, 100) == milli(700),
        lit::<Fixed>(8, 1000) == milli(8),
        num::<Fixed>(0) == milli(0),
        num::<Fixed>(1) == milli(1_000),
        num::<Fixed>(2) == milli(2_000),
        num::<Fixed>(5) == milli(5_000),
        num::<Fixed>(10) == milli(10_000),
        num::<Fixed>(12) == milli(12_000),
        num::<Fixed>(14) == milli(14_000),
        num::<Fixed>(24) == milli(24_000),
        num::<Fixed>(45) == milli(45_000),
        num::<Fixed>(99) == milli(99_000),
        num::<Fixed>(100) == milli(100_000),
{
}

/// A packaged unit never heats a zone above its cooling setpoint nor cools one below its heating
/// setpoint, whatever was predicted; beyond a setpoint it works towards it, unless the other was
/// predicted and the zone is between the two. Between the setpoints, without a prediction and
/// without loads, it rests, but for a zone that is too humid, which it dries by cooling.
pub proof fn packaged_unit_follows_its_zone(
    z: ZoneData<Fixed>,
    zone: Seq<char>,
    modes: Map<Seq<char>, HvacMode>,
)
    requires
        heat_to(z, zone) <= cool_to(z, zone),
    ensures
        ({
            let (mode, drying) = signals::psz_mode(z, zone, modes);
            let t = temp_in(z, zone);
            let cold = t < heat_to(z, zone);
            let warm = t > cool_to(z, zone);
            let cool_load = or_else(z.cooling_loads@, zone, milli(0)).units;
            let heat_load = or_else(z.heating_loads@, zone, milli(0)).units;
            let predicted = modes.contains_key(zone);
            &&& warm ==> mode != HvacMode::Heating
            &&& cold ==> mode != HvacMode::Cooling || drying
            &&& !predicted && warm ==> mode == HvacMode::Cooling && !drying
            &&& !predicted && cold ==> mode == HvacMode::Heating && !drying
            &&& predicted && modes[zone] == HvacMode::Heating && !warm ==> mode == HvacMode::Heating
            &&& predicted && modes[zone] == HvacMode::Cooling && !cold ==> mode == HvacMode::Cooling
            &&& predicted && modes[zone] == HvacMode::Heating && warm ==> mode == HvacMode::Cooling
            &&& predicted && modes[zone] == HvacMode::Cooling && cold ==> mode == HvacMode::Heating
            &&& predicted && modes[zone] == HvacMode::Deadband ==> (if is_humid(z, zone) {
                mode == HvacMode::Cooling && drying
            } else {
                mode == HvacMode::Deadband
            })
            &&& !predicted && !warm && !cold ==> {
                &&& cool_load > heat_load && cool_load > 100_000_000_000 ==> mode
                    == HvacMode::Cooling && !drying
                &&& heat_load > cool_load && heat_load > 100_000_000_000 ==> mode
                    == HvacMode::Heating
                &&& cool_load <= 100_000_000_000 && heat_load <= 100_000_000_000 ==> (if is_humid(
                    z,
                    zone,
                ) {
                    mode == HvacMode::Cooling && drying
                } else {
                    mode == HvacMode::Deadband
                })
            }
            &&& drying ==> is_humid(z, zone)
        }),
{
    defaults_in_units();
    humidity_limits_are_watched(z, zone);
}

/// In heating a packaged unit sets its heating coil to the supply temperature where it cycles on
/// and off, and switches its cooling coil off; in cooling it sets the cooling coil to -10 C, so
/// that it runs in full, or half a degree below the zone where it only dries, and switches the
/// heating coil off; in the deadband both are off. A reversible heat pump follows the mode.
pub proof fn packaged_unit_sets_its_coils(
    li: LoopInfo<Fixed>,
    z: ZoneData<Fixed>,
    zone: Seq<char>,
    mode: HvacMode,
    drying: bool,
)
    requires
        -1_000_000_000_000_000 <= temp_in(z, zone) <= 1_000_000_000_000_000,
    ensures
        ({
            let rule = signals::psz_rule(li, z, zone, mode, drying);
            &&& rule.furnaces
            &&& mode == HvacMode::Heating ==> {
                &&& rule.cooling.units == 99_000_000_000
                &&& li.cycling == CyclingMethod::OnOff ==> rule.heating == li.heating_supply_temp
                &&& rule.heat_pump == Some(rule.heating)
            }
            &&& mode == HvacMode::Cooling ==> {
                &&& rule.heating.units == -99_000_000_000
                &&& !drying ==> rule.cooling.units == -10_000_000_000
                &&& drying ==> rule.cooling.units == temp_in(z, zone) - 500_000_000
                &&& rule.heat_pump == Some(rule.cooling)
                &&& rule.cooling_first
            }
            &&& mode == HvacMode::Deadband ==> {
                &&& rule.heating.units == -99_000_000_000
                &&& rule.cooling.units == 99_000_000_000
                &&& rule.heat_pump is Some && rule.heat_pump->Some_0.units == 99_000_000_000
            }
            &&& rule.humidifier == zones::humidify_to(z, zone)
        }),
{
    defaults_in_units();
}

/// A packaged unit with proportional control heats by the error: at the setpoint with none, at the
/// supply temperature with 5 K and more, and in between by its share of them, but for rounding.
pub proof fn proportional_unit_heats_by_the_error(
    li: LoopInfo<Fixed>,
    heat_sp: Fixed,
    temp: Fixed,
)
    requires
        li.cycling == CyclingMethod::Proportional,
        heat_sp.units <= li.heating_supply_temp.units,
        -1_000_000_000_000 <= heat_sp.units <= 1_000_000_000_000,
        -1_000_000_000_000 <= temp.units <= 1_000_000_000_000,
        li.heating_supply_temp.units <= 1_000_000_000_000,
    ensures
        ({
            let d = signals::heating_discharge(li, heat_sp, temp).units;
            let error = heat_sp.units - temp.units;
            let span = li.heating_supply_temp.units - heat_sp.units;
            &&& heat_sp.units <= d <= li.heating_supply_temp.units
            &&& error <= 0 ==> d == heat_sp.units
            &&& error >= 5_000_000_000 ==> d == li.heating_supply_temp.units
            &&& 0 < error < 5_000_000_000 ==> span * error - 5_000_000_000 - span * 5 <= 5_000_000_000
                * (d - heat_sp.units) <= span * error
        }),
{
    defaults_in_units();
    let error = heat_sp.difference(temp).greater(num(0));
    let span = li.heating_supply_temp.difference(heat_sp);
    let five: Fixed = num(5);
    let e = error.units as int;
    let exact = e * 1_000_000_000;
    let q = exact / 5_000_000_000;
    assert(error.quotient(five).units == q);
    let share = error.quotient(five).lesser(num(1));
    let (s, w) = (share.units as int, span.units as int);
    assert(0 <= s <= 1_000_000_000);
    assert(0 <= w * s <= 1_000_000_000 * w) by (nonlinear_arith)
        requires
            0 <= s <= 1_000_000_000,
            0 <= w,
    ;
    lemma_fundamental_div_mod(w * s, fixed::SCALE as int);
    lemma_mod_bound(w * s, fixed::SCALE as int);
    lemma_div_pos_is_pos(w * s, fixed::SCALE as int);
    if s == 1_000_000_000 {
        assert(w * s == 1_000_000_000 * w) by (nonlinear_arith)
            requires
                s == 1_000_000_000,
        ;
    }
    if s == 0 {
        assert(w * s == 0) by (nonlinear_arith)
            requires
                s == 0,
        ;
    }
    if 0 < e < 5_000_000_000 {
        assert(5 * s <= e < 5 * s + 5);
        assert(w * e - 5 * w <= 5 * (w * s) <= w * e) by (nonlinear_arith)
            requires
                5 * s <= e < 5 * s + 5,
                0 <= w,
        ;
    }
}

/// The signals of a packaged unit: its coils by the rule of its mode, the outdoor air fraction of
/// its economizer unless it heats, the mixed air to go with it, and the design flows of its zones
/// together, though no less than 0.01 kg/s, for every component.
pub proof fn packaged_unit_signals(
    r: ControlSignals<Fixed>,
    li: LoopInfo<Fixed>,
    z: ZoneData<Fixed>,
    modes: Map<Seq<char>, HvacMode>,
    outdoor: AirReading<Fixed>,
    return_enthalpy: Fixed,
    min_oa: Fixed,
    component: int,
)
    requires
        signals::psz_signals(r, li, z, modes, outdoor, return_enthalpy, min_oa),
        li.served_zones@.len() > 0,
    ensures
        ({
            let zone = li.served_zones@[0]@;
            let t = or_else(z.temps@, zone, milli(21_000));
            let (mode, drying) = signals::psz_mode(z, zone, modes);
            let helps = control::outdoor_air_helps(
                li.economizer,
                outdoor,
                AirReading { temp: t, enthalpy: return_enthalpy },
            );
            let oa = r.coil_setpoints@["__oa_fraction__"@];
            let total = zones::zone_total(
                li.served_zones@,
                z.design_flows@,
                milli(500),
                li.served_zones@.len(),
            ).units;
            &&& r.coil_setpoints@.contains_key("__oa_fraction__"@)
            &&& mode == HvacMode::Heating || !helps ==> oa == min_oa
            &&& mode != HvacMode::Heating && helps ==> oa == control::free_cooling_fraction(
                t,
                outdoor.temp,
                li.cooling_supply_temp,
                min_oa,
            )
            &&& r.coil_setpoints@["__return_air_temp__"@] == t
            &&& r.coil_setpoints@["__pszac_mixed_air_temp__"@] == control::mixed_temp(
                t,
                outdoor.temp,
                oa,
            )
            &&& 0 <= component < li.component_names@.len() ==> {
                let flow = r.air_mass_flows@[li.component_names@[component]@].units;
                &&& total >= 10_000_000 ==> flow == total
                &&& total < 10_000_000 ==> flow == 10_000_000
            }
        }),
{
    defaults_in_units();
    reveal_strlit("__oa_fraction__");
    reveal_strlit("__return_air_temp__");
    reveal_strlit("__pszac_mixed_air_temp__");
    reveal_strlit("__plr__");
    assert("__oa_fraction__"@.len() == 15);
    assert("__return_air_temp__"@.len() == 19);
    assert("__pszac_mixed_air_temp__"@.len() == 24);
    assert("__plr__"@.len() == 7);
    if 0 <= component < li.component_names@.len() {
        let name = li.component_names@[component]@;
        every_component_is_set(
            li.component_names@,
            signals::psz_rule(li, z, name, HvacMode::Deadband, false),
            name,
            milli(0),
        );
    }
}

// ---------------------------------------------------------------------------
// Outdoor air systems

/// A dedicated outdoor air system takes all its air from outdoors; it heats it to 2 K above the
/// highest heating setpoint of its zones where it is colder, and cools it to 2 K below their lowest
/// cooling setpoint, though not below 14 C, where it is warmer; a coil that is not needed is off.
pub proof fn outdoor_air_is_tempered_for_the_zones(
    li: LoopInfo<Fixed>,
    z: ZoneData<Fixed>,
    t_outdoor: Fixed,
)
    requires
        li.served_zones@.len() > 0,
        forall|i: int|
            0 <= i < li.served_zones@.len() ==> {
                let zone = (#[trigger] li.served_zones@[i])@;
                &&& -1_000_000_000_000 <= or_else(z.heat_sp@, zone, milli(21_000)).units
                    <= 1_000_000_000_000
                &&& -1_000_000_000_000 <= or_else(z.cool_sp@, zone, milli(24_000)).units
                    <= 1_000_000_000_000
            },
    ensures
        ({
            let rule = signals::doas_rule(li, z, t_outdoor);
            let heat = rule.heating.units;
            let cool = rule.cooling.units;
            &&& heat != -99_000_000_000 ==> t_outdoor.units < heat && (forall|i: int|
                0 <= i < li.served_zones@.len() ==> or_else(
                    z.heat_sp@,
                    (#[trigger] li.served_zones@[i])@,
                    milli(21_000),
                ).units + 2_000_000_000 <= heat) && (exists|i: int|
                0 <= i < li.served_zones@.len() && or_else(
                    z.heat_sp@,
                    (#[trigger] li.served_zones@[i])@,
                    milli(21_000),
                ).units + 2_000_000_000 == heat)
            &&& heat == -99_000_000_000 ==> (forall|i: int|
                0 <= i < li.served_zones@.len() ==> or_else(
                    z.heat_sp@,
                    (#[trigger] li.served_zones@[i])@,
                    milli(21_000),
                ).units + 2_000_000_000 <= t_outdoor.units) || (exists|i: int|
                0 <= i < li.served_zones@.len() && or_else(
                    z.heat_sp@,
                    (#[trigger] li.served_zones@[i])@,
                    milli(21_000),
                ).units + 2_000_000_000 == heat)
            &&& cool != 99_000_000_000 ==> t_outdoor.units > cool >= 14_000_000_000
            &&& cool > 14_000_000_000 && cool != 99_000_000_000 ==> (forall|i: int|
                0 <= i < li.served_zones@.len() ==> cool <= or_else(
                    z.cool_sp@,
                    (#[trigger] li.served_zones@[i])@,
                    milli(24_000),
                ).units - 2_000_000_000)
            &&& rule.humidifier is None && rule.heat_pump is None && !rule.furnaces
                && !rule.cooling_first
        }),
{
    defaults_in_units();
    let served = li.served_zones@;
    extremes_bound_every_zone(served, z.heat_sp@, milli(21_000), served.len());
    extremes_bound_every_zone(served, z.cool_sp@, milli(24_000), served.len());
    let top = zones::zone_max(served, z.heat_sp@, milli(21_000), served.len()).units;
    let i = choose|i: int|
        0 <= i < served.len() && or_else(z.heat_sp@, (#[trigger] served[i])@, milli(21_000)).units
            == top;
    assert(or_else(z.heat_sp@, served[i]@, milli(21_000)).units == top);
    let low = zones::zone_min(served, z.cool_sp@, milli(24_000), served.len()).units;
    let j = choose|j: int|
        0 <= j < served.len() && or_else(z.cool_sp@, (#[trigger] served[j])@, milli(24_000)).units
            == low;
    assert(or_else(z.cool_sp@, served[j]@, milli(24_000)).units == low);
}

/// The flow of a dedicated outdoor air system is three tenths of the design flows of its zones,
/// but for rounding, and no less than 0.05 kg/s; it is all outdoor air.
pub proof fn outdoor_air_flow_is_part_of_the_design(
    r: ControlSignals<Fixed>,
    li: LoopInfo<Fixed>,
    z: ZoneData<Fixed>,
    t_outdoor: Fixed,
    component: int,
)
    requires
        signals::doas_signals(r, li, z, t_outdoor),
        0 <= component < li.component_names@.len(),
        0 <= zones::zone_total(
            li.served_zones@,
            z.design_flows@,
            milli(100),
            li.served_zones@.len(),
        ).units <= 1_000_000_000_000_000,
    ensures
        ({
            let total = zones::zone_total(
                li.served_zones@,
                z.design_flows@,
                milli(100),
                li.served_zones@.len(),
            ).units;
            let flow = r.air_mass_flows@[li.component_names@[component]@].units;
            &&& r.coil_setpoints@.contains_key("__oa_fraction__"@)
            &&& r.coil_setpoints@["__oa_fraction__"@].units == 1_000_000_000
            &&& flow >= 50_000_000
            &&& flow > 50_000_000 ==> 3 * total - 10 < 10 * flow <= 3 * total
            &&& flow == 50_000_000 ==> 3 * total < 500_000_010
        }),
{
    defaults_in_units();
    let total = zones::zone_total(
        li.served_zones@,
        z.design_flows@,
        milli(100),
        li.served_zones@.len(),
    );
    let exact = total.units * 300_000_000;
    lemma_fundamental_div_mod(exact, fixed::SCALE as int);
    lemma_mod_bound(exact, fixed::SCALE as int);
    let name = li.component_names@[component]@;
    every_component_is_set(
        li.component_names@,
        signals::doas_rule(li, z, t_outdoor),
        name,
        milli(0),
    );
}

// ---------------------------------------------------------------------------
// Fan coils and packaged terminal units

/// The speed of a fan coil goes from 30 % without an error to 100 % with 5 K and more.
pub proof fn fan_speed_goes_by_the_error(error: Fixed)
    ensures
        ({
            let speed = signals::fan_speed(error).units;
            &&& error.units <= 0 ==> speed == 300_000_000
            &&& error.units >= 5_000_000_000 ==> speed == 1_000_000_000
            &&& 0 <= error.units <= 5_000_000_000 ==> 5_000_000_000 * 300_000_000 + 700_000_000
                * error.units - 9_000_000_000 <= 5_000_000_000 * speed <= 5_000_000_000 * 300_000_000
                + 700_000_000 * error.units
        }),
{
    defaults_in_units();
    let e = crate::scalar::clamp(error, num(0), num::<Fixed>(5));
    let exact = e.units * 1_000_000_000;
    let q = exact / 5_000_000_000;
    assert(e.quotient(num(5)).units == q);
    let p = 700_000_000 * q;
    lemma_fundamental_div_mod(p, fixed::SCALE as int);
    lemma_mod_bound(p, fixed::SCALE as int);
}

/// A fan coil or terminal unit follows the predicted mode of its zone, or else its thermostat, and
/// cools a zone in the deadband that is too humid.
pub proof fn fan_coil_follows_its_zone(
    z: ZoneData<Fixed>,
    zone: Seq<char>,
    modes: Map<Seq<char>, HvacMode>,
)
    requires
        heat_to(z, zone) <= cool_to(z, zone),
    ensures
        ({
            let (mode, drying) = signals::fcu_mode(z, zone, modes);
            let t = temp_in(z, zone);
            let (cold, warm) = (t < heat_to(z, zone), t > cool_to(z, zone));
            let rests = if modes.contains_key(zone) {
                modes[zone] == HvacMode::Deadband
            } else {
                !cold && !warm
            };
            &&& modes.contains_key(zone) && modes[zone] != HvacMode::Deadband ==> mode
                == modes[zone] && !drying
            &&& !modes.contains_key(zone) && cold ==> mode == HvacMode::Heating && !drying
            &&& !modes.contains_key(zone) && warm ==> mode == HvacMode::Cooling && !drying
            &&& rests && is_humid(z, zone) ==> mode == HvacMode::Cooling && drying
            &&& rests && !is_humid(z, zone) ==> mode == HvacMode::Deadband && !drying
        }),
{
    defaults_in_units();
    humidity_limits_are_watched(z, zone);
}

/// A packaged terminal unit runs at its design flow, and in the deadband only where its fan is
/// continuous; a fan coil runs at a fifth of it in the deadband, and else by the error of its zone.
pub proof fn terminal_units_run_in_full(
    li: LoopInfo<Fixed>,
    z: ZoneData<Fixed>,
    zone: Seq<char>,
    mode: HvacMode,
)
    ensures
        ({
            let design = or_else(z.design_flows@, zone, milli(300));
            let flow = signals::fcu_flow(li, z, zone, mode);
            let t = or_else(z.temps@, zone, milli(21_000));
            let terminal = li.system_type == AirLoopSystemType::Ptac || li.system_type
                == AirLoopSystemType::Pthp;
            let rests = mode == HvacMode::Deadband;
            &&& terminal && rests && li.fan_operating_mode != FanOperatingMode::Continuous ==> flow
                == milli(0)
            &&& terminal && (!rests || li.fan_operating_mode == FanOperatingMode::Continuous)
                ==> flow == design
            &&& !terminal && rests ==> flow == design.product(milli(200))
            &&& !terminal && mode == HvacMode::Heating ==> flow == design.product(
                signals::fan_speed(or_else(z.heat_sp@, zone, milli(21_100)).difference(t)),
            )
            &&& !terminal && mode == HvacMode::Cooling ==> flow == design.product(
                signals::fan_speed(t.difference(or_else(z.cool_sp@, zone, milli(23_900)))),
            )
        }),
{
    defaults_in_units();
}

/// In heating a terminal unit aims at the heating supply temperature of its loop, and a fan coil at
/// its setpoint and as much beyond it as the zone is short of it, by 14 K at most and up to 45 C; in
/// cooling a terminal unit aims at the cooling supply temperature, and a fan coil below its setpoint
/// by what the zone is above it, by 10 K at most and down to 12 C; to dry, both go half a degree
/// below the zone. A coil of the other mode is off.
pub proof fn fan_coils_go_past_the_setpoint(
    li: LoopInfo<Fixed>,
    z: ZoneData<Fixed>,
    zone: Seq<char>,
    mode: HvacMode,
    drying: bool,
)
    requires
        -1_000_000_000_000 <= temp_in(z, zone) <= 1_000_000_000_000,
        -1_000_000_000_000 <= heat_to(z, zone) <= 45_000_000_000,
        12_000_000_000 <= cool_to(z, zone) <= 1_000_000_000_000,
    ensures
        ({
            let rule = signals::fcu_rule(li, z, zone, mode, drying);
            let (t, heat_sp, cool_sp) = (temp_in(z, zone), heat_to(z, zone), cool_to(z, zone));
            let terminal = li.system_type == AirLoopSystemType::Ptac || li.system_type
                == AirLoopSystemType::Pthp;
            let (heat, cool) = (rule.heating.units, rule.cooling.units);
            &&& mode != HvacMode::Heating ==> heat == -99_000_000_000
            &&& mode != HvacMode::Cooling ==> cool == 99_000_000_000
            &&& mode == HvacMode::Heating && terminal ==> rule.heating == li.heating_supply_temp
            &&& mode == HvacMode::Heating && !terminal ==> {
                let short = heat_sp - t;
                &&& heat_sp <= heat <= 45_000_000_000
                &&& short <= 0 ==> heat == heat_sp
                &&& 0 <= short <= 14_000_000_000 && heat_sp + short <= 45_000_000_000 ==> heat
                    == heat_sp + short
                &&& short >= 14_000_000_000 && heat_sp + 14_000_000_000 <= 45_000_000_000 ==> heat
                    == heat_sp + 14_000_000_000
            }
            &&& mode == HvacMode::Cooling && drying ==> cool == t - 500_000_000
            &&& mode == HvacMode::Cooling && !drying && terminal ==> rule.cooling
                == li.cooling_supply_temp
            &&& mode == HvacMode::Cooling && !drying && !terminal ==> {
                let over = t - cool_sp;
                &&& 12_000_000_000 <= cool <= cool_sp
                &&& over <= 0 ==> cool == cool_sp
                &&& 0 <= over <= 10_000_000_000 && cool_sp - over >= 12_000_000_000 ==> cool
                    == cool_sp - over
                &&& over >= 10_000_000_000 && cool_sp - 10_000_000_000 >= 12_000_000_000 ==> cool
                    == cool_sp - 10_000_000_000
            }
            &&& !rule.furnaces && rule.heat_pump is None && rule.humidifier == zones::humidify_to(
                z,
                zone,
            )
        }),
{
    defaults_in_units();
}

/// A fan coil recirculates the air of its zone, and a terminal unit takes in its least outdoor air
/// with it.
pub proof fn fan_coils_recirculate(
    r: ControlSignals<Fixed>,
    li: LoopInfo<Fixed>,
    z: ZoneData<Fixed>,
    modes: Map<Seq<char>, HvacMode>,
    t_outdoor: Fixed,
)
    requires
        signals::fcu_signals(r, li, z, modes, t_outdoor),
        li.served_zones@.len() > 0,
    ensures
        ({
            let terminal = li.system_type == AirLoopSystemType::Ptac || li.system_type
                == AirLoopSystemType::Pthp;
            let oa = if terminal {
                li.min_oa_fraction
            } else {
                milli(0)
            };
            let t = or_else(z.temps@, li.served_zones@[0]@, milli(21_000));
            &&& r.coil_setpoints@.contains_key("__oa_fraction__"@)
            &&& r.coil_setpoints@["__oa_fraction__"@] == oa
            &&& r.coil_setpoints@["__fcu_recirculation_temp__"@] == control::mixed_temp(
                t,
                t_outdoor,
                oa,
            )
        }),
{
    defaults_in_units();
    reveal_strlit("__oa_fraction__");
    reveal_strlit("__fcu_recirculation_temp__");
    assert("__oa_fraction__"@.len() == 15);
    assert("__fcu_recirculation_temp__"@.len() == 26);
}

} // verus!
