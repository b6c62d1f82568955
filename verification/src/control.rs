//! Building blocks of air-loop control: thermostat modes, setpoint resets,
//! economizers and the setpoints that coils get by their names.
use crate::scalar;
use crate::scalar::{
    clamp, ge, gt, least, lit, lt, minus, most, negated, num, over, plus, times, Scalar,
};
use crate::table;
use crate::table::Table;
use crate::text;
use crate::text::{contains, starts_with, to_lowercase};
use vstd::prelude::*;
use vstd::string::*;

verus! {

// ---------------------------------------------------------------------------
// Thermostat

/// What a zone asks of its system.
#[derive(Clone, Copy, Debug, PartialEq, Eq, Structural)]
pub enum HvacMode {
    Heating,
    Cooling,
    Deadband,
}

/// The mode that a zone temperature calls for between two setpoints.
#[verifier::allow_in_spec]
pub fn hvac_mode<T: Scalar>(zone_temp: T, heat_sp: T, cool_sp: T) -> HvacMode
    returns
        (if zone_temp.below(heat_sp) {
            HvacMode::Heating
        } else if cool_sp.below(zone_temp) {
            HvacMode::Cooling
        } else {
            HvacMode::Deadband
        }),
{
    if lt(zone_temp, heat_sp) {
        HvacMode::Heating
    } else if gt(zone_temp, cool_sp) {
        HvacMode::Cooling
    } else {
        HvacMode::Deadband
    }
}

// ---------------------------------------------------------------------------
// Setpoint resets

/// How a supply air temperature is reset.
#[derive(Clone, Copy, Debug)]
pub enum SatResetConfig<T> {
    /// Linear in the outdoor temperature.
    OaReset { sat_min: T, sat_max: T, oa_low: T, oa_high: T },
    /// One step at a time, by the most loaded zone.
    DemandReset { sat_min: T, sat_max: T, step: T },
}

/// How a plant supply temperature is reset.
#[derive(Clone, Copy, Debug)]
pub enum PlantResetConfig<T> {
    /// Linear in the outdoor temperature.
    OaReset { sp_min: T, sp_max: T, oa_low: T, oa_high: T },
}

/// How far the outdoor temperature is on its way from `oa_low` to `oa_high`, from 0 to 1.
#[verifier::allow_in_spec]
pub fn reset_share<T: Scalar>(t_outdoor: T, oa_low: T, oa_high: T) -> T
    returns
        clamp(over(minus(t_outdoor, oa_low), minus(oa_high, oa_low)), num(0), num(1)),
{
    clamp(over(minus(t_outdoor, oa_low), minus(oa_high, oa_low)), num(0), num(1))
}

/// The largest of the first `n` values, and at least zero.
pub open spec fn largest_value<T: Scalar>(values: Seq<T>, n: nat) -> T
    decreases n,
{
    if n == 0 {
        num(0)
    } else {
        most(largest_value(values, (n - 1) as nat), values[n - 1])
    }
}

fn max_value<T: Scalar>(values: &Vec<T>) -> (r: T)
    ensures
        r == largest_value(values@, values@.len()),
{
    let mut max: T = num(0);
    for i in 0..values.len()
        invariant
            max == largest_value(values@, i as nat),
    {
        max = most(max, values[i]);
    }
    max
}

/// Some zone runs at nearly full load.
pub open spec fn zones_loaded<T: Scalar>(zone_plrs: Seq<T>) -> bool {
    ge(largest_value(zone_plrs, zone_plrs.len()), lit(95, 100))
}

/// The cooling supply temperature after a reset: low when it is warm outside or when
/// a zone is fully loaded.
pub open spec fn cooling_reset<T: Scalar>(
    reset: SatResetConfig<T>,
    t_outdoor: T,
    current_sat: T,
    zone_plrs: Seq<T>,
) -> T {
    match reset {
        SatResetConfig::OaReset { sat_min, sat_max, oa_low, oa_high } => plus(
            sat_min,
            times(
                minus(num(1), reset_share(t_outdoor, oa_low, oa_high)),
                minus(sat_max, sat_min),
            ),
        ),
        SatResetConfig::DemandReset { sat_min, sat_max, step } => if zones_loaded(zone_plrs) {
            most(minus(current_sat, step), sat_min)
        } else {
            least(plus(current_sat, step), sat_max)
        },
    }
}

/// The heating supply temperature after a reset: high when it is cold outside or when
/// a zone is fully loaded.
pub open spec fn heating_reset<T: Scalar>(
    reset: SatResetConfig<T>,
    t_outdoor: T,
    current_sat: T,
    zone_plrs: Seq<T>,
) -> T {
    match reset {
        SatResetConfig::OaReset { sat_min, sat_max, oa_low, oa_high } => minus(
            sat_max,
            times(reset_share(t_outdoor, oa_low, oa_high), minus(sat_max, sat_min)),
        ),
        SatResetConfig::DemandReset { sat_min, sat_max, step } => if zones_loaded(zone_plrs) {
            least(plus(current_sat, step), sat_max)
        } else {
            most(minus(current_sat, step), sat_min)
        },
    }
}

/// Resets a cooling supply air temperature by the outdoor temperature or the part-load
/// ratios of the zones.
pub fn apply_sat_reset<T: Scalar>(
    reset: &SatResetConfig<T>,
    t_outdoor: T,
    current_sat: T,
    zone_plrs: &Vec<T>,
) -> (r: T)
    ensures
        r == cooling_reset(*reset, t_outdoor, current_sat, zone_plrs@),
{
    match *reset {
        SatResetConfig::OaReset { sat_min, sat_max, oa_low, oa_high } => {
            let share = reset_share(t_outdoor, oa_low, oa_high);
            plus(sat_min, times(minus(num(1), share), minus(sat_max, sat_min)))
        },
        SatResetConfig::DemandReset { sat_min, sat_max, step } => {
            if ge(max_value(zone_plrs), lit(95, 100)) {
                most(minus(current_sat, step), sat_min)
            } else {
                least(plus(current_sat, step), sat_max)
            }
        },
    }
}

/// Resets a heating supply air temperature by the outdoor temperature or the part-load
/// ratios of the zones.
pub fn apply_sat_reset_heating<T: Scalar>(
    reset: &SatResetConfig<T>,
    t_outdoor: T,
    current_sat: T,
    zone_plrs: &Vec<T>,
) -> (r: T)
    ensures
        r == heating_reset(*reset, t_outdoor, current_sat, zone_plrs@),
{
    match *reset {
        SatResetConfig::OaReset { sat_min, sat_max, oa_low, oa_high } => {
            let share = reset_share(t_outdoor, oa_low, oa_high);
            minus(sat_max, times(share, minus(sat_max, sat_min)))
        },
        SatResetConfig::DemandReset { sat_min, sat_max, step } => {
            if ge(max_value(zone_plrs), lit(95, 100)) {
                least(plus(current_sat, step), sat_max)
            } else {
                most(minus(current_sat, step), sat_min)
            }
        },
    }
}

/// The plant supply temperature after a reset.
pub open spec fn plant_reset<T: Scalar>(reset: PlantResetConfig<T>, t_outdoor: T) -> T {
    match reset {
        PlantResetConfig::OaReset { sp_min, sp_max, oa_low, oa_high } => plus(
            sp_min,
            times(
                minus(num(1), reset_share(t_outdoor, oa_low, oa_high)),
                minus(sp_max, sp_min),
            ),
        ),
    }
}

/// Resets a plant supply temperature.
pub fn apply_plant_reset<T: Scalar>(reset: &PlantResetConfig<T>, t_outdoor: T) -> (r: T)
    ensures
        r == plant_reset(*reset, t_outdoor),
{
    match *reset {
        PlantResetConfig::OaReset { sp_min, sp_max, oa_low, oa_high } => {
            let share = reset_share(t_outdoor, oa_low, oa_high);
            plus(sp_min, times(minus(num(1), share), minus(sp_max, sp_min)))
        },
    }
}

// ---------------------------------------------------------------------------
// Economizers

/// When an economizer may bring in outdoor air.
#[derive(Clone, Copy, Debug, PartialEq, Eq, Structural)]
pub enum EconomizerType {
    NoEconomizer,
    /// Outdoor air below a fixed temperature.
    FixedDryBulb,
    /// Outdoor air cooler than return air.
    DifferentialDryBulb,
    /// Outdoor air below a fixed enthalpy.
    FixedEnthalpy,
    /// Outdoor air with less enthalpy than return air.
    DifferentialEnthalpy,
    /// As `DifferentialEnthalpy`, and below a fixed temperature.
    EnthalpyWithHighLimit,
}

/// An economizer with its limits.
#[derive(Clone, Copy, Debug)]
pub struct Economizer<T> {
    pub economizer_type: EconomizerType,
    /// Shutoff temperature [C]; 23.889 where there is none.
    pub high_limit: Option<T>,
    /// Shutoff enthalpy [J/kg]; 65200 where there is none.
    pub high_limit_enthalpy: Option<T>,
}

/// A state of air as an economizer sees it.
#[derive(Clone, Copy, Debug)]
pub struct AirReading<T> {
    /// Dry-bulb temperature [C].
    pub temp: T,
    /// Specific enthalpy [J/kg].
    pub enthalpy: T,
}

pub open spec fn limit_or<T: Scalar>(limit: Option<T>, default: T) -> T {
    match limit {
        Some(v) => v,
        None => default,
    }
}

/// The economizer may bring in this outdoor air.
pub open spec fn outdoor_air_helps<T: Scalar>(
    economizer: Economizer<T>,
    outdoor: AirReading<T>,
    return_air: AirReading<T>,
) -> bool {
    let temp_limit = limit_or(economizer.high_limit, lit(23889, 1000));
    let enthalpy_limit = limit_or(economizer.high_limit_enthalpy, num(65200));
    match economizer.economizer_type {
        EconomizerType::NoEconomizer => false,
        EconomizerType::FixedDryBulb => lt(outdoor.temp, temp_limit),
        EconomizerType::DifferentialDryBulb => lt(outdoor.temp, return_air.temp),
        EconomizerType::DifferentialEnthalpy => lt(outdoor.enthalpy, return_air.enthalpy),
        EconomizerType::FixedEnthalpy => lt(outdoor.enthalpy, enthalpy_limit),
        EconomizerType::EnthalpyWithHighLimit => lt(outdoor.enthalpy, return_air.enthalpy) && lt(
            outdoor.temp,
            temp_limit,
        ),
    }
}

/// Whether the economizer may bring in this outdoor air.
pub fn economizer_available<T: Scalar>(
    economizer: &Economizer<T>,
    outdoor: &AirReading<T>,
    return_air: &AirReading<T>,
) -> (r: bool)
    ensures
        r == outdoor_air_helps(*economizer, *outdoor, *return_air),
{
    let temp_limit = match economizer.high_limit {
        Some(v) => v,
        None => lit(23889, 1000),
    };
    let enthalpy_limit = match economizer.high_limit_enthalpy {
        Some(v) => v,
        None => num(65200),
    };
    match economizer.economizer_type {
        EconomizerType::NoEconomizer => false,
        EconomizerType::FixedDryBulb => lt(outdoor.temp, temp_limit),
        EconomizerType::DifferentialDryBulb => lt(outdoor.temp, return_air.temp),
        EconomizerType::DifferentialEnthalpy => lt(outdoor.enthalpy, return_air.enthalpy),
        EconomizerType::FixedEnthalpy => lt(outdoor.enthalpy, enthalpy_limit),
        EconomizerType::EnthalpyWithHighLimit => lt(outdoor.enthalpy, return_air.enthalpy) && lt(
            outdoor.temp,
            temp_limit,
        ),
    }
}

/// The outdoor air fraction that brings the mixed air to `target`, between `min_oa` and
/// one; the minimum where the outdoor air is not cooler than the return air.
#[verifier::allow_in_spec]
pub fn free_cooling_fraction<T: Scalar>(return_temp: T, t_outdoor: T, target: T, min_oa: T) -> T
    returns
        (if gt(minus(return_temp, t_outdoor), lit(1, 10)) {
            clamp(
                over(minus(return_temp, target), minus(return_temp, t_outdoor)),
                min_oa,
                num(1),
            )
        } else {
            min_oa
        }),
{
    let delta = minus(return_temp, t_outdoor);
    if gt(delta, lit(1, 10)) {
        clamp(over(minus(return_temp, target), delta), min_oa, num(1))
    } else {
        min_oa
    }
}

/// Return air mixed with a fraction of outdoor air.
#[verifier::allow_in_spec]
pub fn mixed_temp<T: Scalar>(return_temp: T, t_outdoor: T, oa_frac: T) -> T
    returns
        plus(times(return_temp, minus(num(1), oa_frac)), times(t_outdoor, oa_frac)),
{
    plus(times(return_temp, minus(num(1), oa_frac)), times(t_outdoor, oa_frac))
}

// ---------------------------------------------------------------------------
// Coils by name

/// The name of a cooling coil, in lower case.
pub open spec fn names_cooling(name: Seq<char>) -> bool {
    ||| text::has_part(name, "cool"@)
    ||| text::has_part(name, "dx"@)
    ||| text::occurs_at(name, "cc "@, 0)
    ||| text::occurs_at(name, "cc_"@, 0)
}

/// The name of a heating coil, in lower case. Packaged units also have furnaces.
pub open spec fn names_heating(name: Seq<char>, furnaces: bool) -> bool {
    ||| text::has_part(name, "heat"@)
    ||| furnaces && text::has_part(name, "furnace"@)
    ||| text::has_part(name, "hw"@)
    ||| text::occurs_at(name, "hc "@, 0)
    ||| text::occurs_at(name, "hc_"@, 0)
}

pub fn is_cooling_name(name: &str) -> (r: bool)
    ensures
        r == names_cooling(name@),
{
    contains(name, "cool") || contains(name, "dx") || starts_with(name, "cc ") || starts_with(
        name,
        "cc_",
    )
}

pub fn is_heating_name(name: &str, furnaces: bool) -> (r: bool)
    ensures
        r == names_heating(name@, furnaces),
{
    contains(name, "heat") || (furnaces && contains(name, "furnace")) || contains(name, "hw")
        || starts_with(name, "hc ") || starts_with(name, "hc_")
}

/// The setpoint that switches a heating coil off [C].
#[verifier::allow_in_spec]
pub fn heating_off<T: Scalar>() -> T
    returns
        negated(num::<T>(99)),
{
    negated(num(99))
}

/// The setpoint that switches a cooling coil off [C].
#[verifier::allow_in_spec]
pub fn cooling_off<T: Scalar>() -> T
    returns
        num::<T>(99),
{
    num(99)
}

/// The setpoints that the coils of a loop get in a timestep.
#[derive(Clone, Copy, Debug)]
pub struct CoilRule<T> {
    /// A name that fits both kinds of coil counts as a cooling coil.
    pub cooling_first: bool,
    /// Furnaces count as heating coils.
    pub furnaces: bool,
    /// For a reversible ground-source heat pump, which is then no other kind of coil.
    pub heat_pump: Option<T>,
    pub heating: T,
    pub cooling: T,
    /// The humidity ratio for humidifiers, where they are to run.
    pub humidifier: Option<T>,
}

/// The setpoint for a component whose name in lower case is `name`; nothing where the
/// rule does not speak of it.
pub open spec fn ruled_setpoint<T: Scalar>(rule: CoilRule<T>, name: Seq<char>) -> Option<T> {
    let cooling = names_cooling(name);
    let heating = names_heating(name, rule.furnaces);
    if rule.humidifier is Some && text::has_part(name, "humid"@) {
        rule.humidifier
    } else if rule.heat_pump is Some && text::has_part(name, "gshp"@) {
        rule.heat_pump
    } else if cooling && (rule.cooling_first || !heating) {
        Some(rule.cooling)
    } else if heating {
        Some(rule.heating)
    } else {
        None
    }
}

/// The setpoint for a component by its name in lower case.
pub fn coil_setpoint<T: Scalar>(rule: &CoilRule<T>, name: &str) -> (r: Option<T>)
    ensures
        r == ruled_setpoint(*rule, name@),
{
    if rule.humidifier.is_some() && contains(name, "humid") {
        return rule.humidifier;
    }
    if rule.heat_pump.is_some() && contains(name, "gshp") {
        return rule.heat_pump;
    }
    let cooling = is_cooling_name(name);
    let heating = is_heating_name(name, rule.furnaces);
    if cooling && (rule.cooling_first || !heating) {
        Some(rule.cooling)
    } else if heating {
        Some(rule.heating)
    } else {
        None
    }
}

/// What `rule` gives to each name that it gives something to.
pub open spec fn given_to<V>(
    names: Seq<String>,
    rule: spec_fn(Seq<char>) -> Option<V>,
) -> Map<Seq<char>, V> {
    Map::new(
        |name: Seq<char>| text::listed(names, name) && rule(name) is Some,
        |name: Seq<char>| rule(name)->Some_0,
    )
}

/// One more name adds at most what the rule gives to it.
pub proof fn given_to_one_more<V>(
    names: Seq<String>,
    rule: spec_fn(Seq<char>) -> Option<V>,
    i: int,
)
    requires
        0 <= i < names.len(),
    ensures
        given_to(names.take(i + 1), rule) == match rule(names[i]@) {
            Some(v) => given_to(names.take(i), rule).insert(names[i]@, v),
            None => given_to(names.take(i), rule),
        },
{
    let before = names.take(i);
    let after = names.take(i + 1);
    assert forall|name: Seq<char>| #[trigger]
        text::listed(after, name) <==> text::listed(before, name) || name == names[i]@ by {
        if text::listed(before, name) {
            let k = choose|k: int| 0 <= k < before.len() && (#[trigger] before[k])@ == name;
            assert(after[k]@ == name);
        }
        if text::listed(after, name) {
            let k = choose|k: int| 0 <= k < after.len() && (#[trigger] after[k])@ == name;
            if k < i {
                assert(before[k]@ == name);
            }
        }
        assert(after[i]@ == names[i]@);
    }
    assert(given_to(after, rule) =~= match rule(names[i]@) {
        Some(v) => given_to(before, rule).insert(names[i]@, v),
        None => given_to(before, rule),
    });
}

/// The setpoints of all components of a loop, by their names.
pub open spec fn coil_setpoints<T: Scalar>(
    names: Seq<String>,
    rule: CoilRule<T>,
) -> Map<Seq<char>, T> {
    given_to(names, |name: Seq<char>| ruled_setpoint(rule, text::lowercase(name)))
}

/// The setpoints that a rule gives to the components of a loop. Names are compared in
/// lower case.
pub fn apply_coil_rule<T: Scalar>(names: &Vec<String>, rule: &CoilRule<T>) -> (r: Table<T>)
    ensures
        r@ == coil_setpoints(names@, *rule),
        table::distinct(r.entries@),
{
    let mut setpoints: Table<T> = Table::new();
    let ghost f = |name: Seq<char>| ruled_setpoint(*rule, text::lowercase(name));
    assert(setpoints@ =~= given_to(names@.take(0), f));
    for i in 0..names.len()
        invariant
            f == (|name: Seq<char>| ruled_setpoint(*rule, text::lowercase(name))),
            setpoints@ == given_to(names@.take(i as int), f),
            table::distinct(setpoints.entries@),
    {
        proof {
            given_to_one_more(names@, f, i as int);
        }
        let lname = to_lowercase(names[i].as_str());
        if let Some(sp) = coil_setpoint(rule, lname.as_str()) {
            setpoints.insert(names[i].as_str(), sp);
        }
    }
    assert(names@.take(names@.len() as int) =~= names@);
    setpoints
}

/// The same value for every name.
pub open spec fn same_for_all<V>(names: Seq<String>, value: V) -> Map<Seq<char>, V> {
    given_to(names, |name: Seq<char>| Some(value))
}

pub fn fill_table<V: Copy>(names: &Vec<String>, value: V) -> (r: Table<V>)
    ensures
        r@ == same_for_all(names@, value),
        table::distinct(r.entries@),
{
    let mut filled: Table<V> = Table::new();
    let ghost f = |name: Seq<char>| Some(value);
    assert(filled@ =~= given_to(names@.take(0), f));
    for i in 0..names.len()
        invariant
            f == (|name: Seq<char>| Some(value)),
            filled@ == given_to(names@.take(i as int), f),
            table::distinct(filled.entries@),
    {
        proof {
            given_to_one_more(names@, f, i as int);
        }
        filled.insert(names[i].as_str(), value);
    }
    assert(names@.take(names@.len() as int) =~= names@);
    filled
}

} // verus!
