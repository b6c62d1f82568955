//! What the control of air loops knows of the zones in a timestep.
use crate::scalar;
use crate::scalar::{count, least, lit, most, num, over, plus, Scalar};
use crate::table;
use crate::table::Table;
use vstd::prelude::*;
use vstd::string::*;

verus! {

/// The least relative humidity of a zone.
#[derive(Clone, Copy, Debug)]
pub struct HumidityFloor<T> {
    /// Relative humidity [%] below which the zone is humidified.
    pub min_rh: T,
    /// The humidity ratio [kg/kg] of air at that relative humidity and the zone temperature.
    pub w_target: T,
}

/// The zones in a timestep, each quantity by the name of the zone.
pub struct ZoneData<T> {
    /// Air temperature [C].
    pub temps: Table<T>,
    /// Heating setpoint [C].
    pub heat_sp: Table<T>,
    /// Cooling setpoint [C].
    pub cool_sp: Table<T>,
    /// Design air flow [kg/s].
    pub design_flows: Table<T>,
    /// Cooling that would hold the zone at its setpoint [W].
    pub cooling_loads: Table<T>,
    /// Heating that would hold the zone at its setpoint [W].
    pub heating_loads: Table<T>,
    /// Air temperature at the start of the timestep [C].
    pub initial_temps: Table<T>,
    /// Heat capacity of the zone per timestep [W/K].
    pub thermal_caps: Table<T>,
    /// Temperature that the zone would reach without its system [C].
    pub predicted_temps: Table<T>,
    /// How many times the zone counts.
    pub multipliers: Table<u32>,
    /// Humidity ratio [kg/kg].
    pub humidity_ratios: Table<T>,
    /// Relative humidity [%].
    pub rel_humidity: Table<T>,
    /// Relative humidity [%] of a zone of which nothing is known.
    pub default_rel_humidity: T,
    /// Relative humidity [%] above which a zone is dehumidified.
    pub max_rh: Table<T>,
    pub min_rh: Table<HumidityFloor<T>>,
}

/// The zone whose thermostat controls a loop: the first one it serves.
pub open spec fn first_zone(served: Seq<String>) -> Seq<char> {
    if served.len() > 0 {
        served[0]@
    } else {
        ""@
    }
}

pub fn control_zone(served: &Vec<String>) -> (r: String)
    ensures
        r@ == first_zone(served@),
{
    if served.len() > 0 {
        served[0].clone()
    } else {
        "".to_owned()
    }
}

/// A quantity added up over the first `n` zones of a list.
pub open spec fn zone_total<T: Scalar>(
    served: Seq<String>,
    values: Map<Seq<char>, T>,
    default: T,
    n: nat,
) -> T
    decreases n,
{
    if n == 0 {
        num(0)
    } else {
        plus(
            zone_total(served, values, default, (n - 1) as nat),
            table::value_or(values, served[n - 1]@, default),
        )
    }
}

pub fn sum_over_zones<T: Scalar>(served: &Vec<String>, values: &Table<T>, default: T) -> (r: T)
    ensures
        r == zone_total(served@, values@, default, served@.len()),
{
    let mut total: T = num(0);
    for i in 0..served.len()
        invariant
            total == zone_total(served@, values@, default, i as nat),
    {
        total = plus(total, values.get_or(served[i].as_str(), default));
    }
    total
}

/// The mean of a quantity over some zones, or `none` where there are no zones.
pub open spec fn zone_mean<T: Scalar>(
    served: Seq<String>,
    values: Map<Seq<char>, T>,
    default: T,
    none: T,
) -> T {
    if served.len() == 0 {
        none
    } else {
        over(zone_total(served, values, default, served.len()), T::whole(served.len()))
    }
}

pub fn mean_over_zones<T: Scalar>(
    served: &Vec<String>,
    values: &Table<T>,
    default: T,
    none: T,
) -> (r: T)
    ensures
        r == zone_mean(served@, values@, default, none),
{
    if served.len() == 0 {
        none
    } else {
        over(sum_over_zones(served, values, default), count(served.len()))
    }
}

/// The largest value of a quantity over the first `n` zones of a list.
pub open spec fn zone_max<T: Scalar>(
    served: Seq<String>,
    values: Map<Seq<char>, T>,
    default: T,
    n: nat,
) -> T
    decreases n,
{
    if n == 0 {
        T::unbounded().opposite()
    } else {
        most(
            zone_max(served, values, default, (n - 1) as nat),
            table::value_or(values, served[n - 1]@, default),
        )
    }
}

pub fn max_over_zones<T: Scalar>(served: &Vec<String>, values: &Table<T>, default: T) -> (r: T)
    ensures
        r == zone_max(served@, values@, default, served@.len()),
{
    let mut max: T = scalar::negated(T::infinity());
    for i in 0..served.len()
        invariant
            max == zone_max(served@, values@, default, i as nat),
    {
        max = most(max, values.get_or(served[i].as_str(), default));
    }
    max
}

/// The smallest value of a quantity over the first `n` zones of a list.
pub open spec fn zone_min<T: Scalar>(
    served: Seq<String>,
    values: Map<Seq<char>, T>,
    default: T,
    n: nat,
) -> T
    decreases n,
{
    if n == 0 {
        T::unbounded()
    } else {
        least(
            zone_min(served, values, default, (n - 1) as nat),
            table::value_or(values, served[n - 1]@, default),
        )
    }
}

pub fn min_over_zones<T: Scalar>(served: &Vec<String>, values: &Table<T>, default: T) -> (r: T)
    ensures
        r == zone_min(served@, values@, default, served@.len()),
{
    let mut min: T = T::infinity();
    for i in 0..served.len()
        invariant
            min == zone_min(served@, values@, default, i as nat),
    {
        min = least(min, values.get_or(served[i].as_str(), default));
    }
    min
}

/// How many of the first `n` zones of a list have a value above `limit`.
pub open spec fn zones_above<T: Scalar>(
    served: Seq<String>,
    values: Map<Seq<char>, T>,
    limit: T,
    n: nat,
) -> nat
    decreases n,
{
    if n == 0 {
        0
    } else {
        let rest = zones_above(served, values, limit, (n - 1) as nat);
        if scalar::gt(table::value_or(values, served[n - 1]@, num(0)), limit) {
            rest + 1
        } else {
            rest
        }
    }
}

pub fn count_zones_above<T: Scalar>(served: &Vec<String>, values: &Table<T>, limit: T) -> (r: usize)
    ensures
        r == zones_above(served@, values@, limit, served@.len()),
        r <= served@.len(),
{
    let mut n: usize = 0;
    for i in 0..served.len()
        invariant
            n <= i,
            n == zones_above(served@, values@, limit, i as nat),
    {
        if scalar::gt(values.get_or(served[i].as_str(), num(0)), limit) {
            n += 1;
        }
    }
    n
}

/// The relative humidity of a zone is above its limit.
pub open spec fn too_humid<T: Scalar>(zones: ZoneData<T>, zone: Seq<char>) -> bool {
    zones.max_rh@.contains_key(zone) && scalar::gt(
        table::value_or(zones.rel_humidity@, zone, zones.default_rel_humidity),
        zones.max_rh@[zone],
    )
}

/// The humidity ratio to which a zone that is too dry is to be humidified.
pub open spec fn humidify_to<T: Scalar>(zones: ZoneData<T>, zone: Seq<char>) -> Option<T> {
    if zones.min_rh@.contains_key(zone) && scalar::lt(
        table::value_or(zones.rel_humidity@, zone, zones.default_rel_humidity),
        zones.min_rh@[zone].min_rh,
    ) {
        Some(zones.min_rh@[zone].w_target)
    } else {
        None
    }
}

/// What [`humidify_to`] gives for the first zone of the list from `from` on that is too dry.
pub open spec fn first_dry_zone<T: Scalar>(
    zones: ZoneData<T>,
    served: Seq<String>,
    from: nat,
) -> Option<T>
    decreases served.len() - from,
{
    if from >= served.len() {
        None
    } else {
        match humidify_to(zones, served[from as int]@) {
            Some(w) => Some(w),
            None => first_dry_zone(zones, served, from + 1),
        }
    }
}

/// The state `(temperature, humidity ratio)` of air of which nothing is known.
#[verifier::allow_in_spec]
pub fn unknown_air<T: Scalar>() -> (T, T)
    returns
        (num::<T>(21), lit::<T>(8, 1000)),
{
    (num(21), lit(8, 1000))
}

/// The state `(temperature, humidity ratio)` of the air of a zone, each as if nothing were known
/// of it where it is missing.
pub open spec fn air_of<T: Scalar>(zones: ZoneData<T>, zone: Seq<char>) -> (T, T) {
    (
        table::value_or(zones.temps@, zone, unknown_air::<T>().0),
        table::value_or(zones.humidity_ratios@, zone, unknown_air::<T>().1),
    )
}

impl<T: Scalar> ZoneData<T> {
    /// The state of the air of a zone, at which its humidity and enthalpy are to be taken.
    pub fn air_state(&self, zone: &str) -> (r: (T, T))
        ensures
            r == air_of(*self, zone@),
    {
        let (temp, w) = unknown_air();
        (self.temps.get_or(zone, temp), self.humidity_ratios.get_or(zone, w))
    }

    pub fn is_too_humid(&self, zone: &str) -> (r: bool)
        ensures
            r == too_humid(*self, zone@),
    {
        let rh = self.rel_humidity.get_or(zone, self.default_rel_humidity);
        match self.max_rh.get(zone) {
            Some(max_rh) => scalar::gt(rh, *max_rh),
            None => false,
        }
    }

    pub fn humidify(&self, zone: &str) -> (r: Option<T>)
        ensures
            r == humidify_to(*self, zone@),
    {
        let rh = self.rel_humidity.get_or(zone, self.default_rel_humidity);
        match self.min_rh.get(zone) {
            Some(floor) => if scalar::lt(rh, floor.min_rh) {
                Some(floor.w_target)
            } else {
                None
            },
            None => None,
        }
    }

    pub fn humidify_any(&self, served: &Vec<String>) -> (r: Option<T>)
        ensures
            r == first_dry_zone(*self, served@, 0),
    {
        for i in 0..served.len()
            invariant
                first_dry_zone(*self, served@, 0) == first_dry_zone(*self, served@, i as nat),
        {
            if let Some(w) = self.humidify(served[i].as_str()) {
                return Some(w);
            }
        }
        None
    }
}

} // verus!
