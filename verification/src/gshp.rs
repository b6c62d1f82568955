//! Ground-source heat pump.
//!
//! A self-contained unit that exchanges heat with the ground through a buried loop.
//! The temperature of the water that enters it follows from a model of the ground:
//! a sinusoidal profile at the depth of the loop (Kusuda and Achenbach), the monthly
//! values of the weather file, or a monthly table of the user.
//!
//! In both modes the heat moved is the rated capacity times the part load and a
//! capacity modifier, and the power follows from it by the rated COP and an
//! energy-input modifier; a modifier above one means more power.
use crate::scalar;
use crate::scalar::{
    absolute, clamp, cosine, count, exponential, ge, gt, le, least, lit, lt, minus, most, negated,
    num, over, pi, plus, root, times, Scalar,
};
use crate::table::Table;
use vstd::prelude::*;
use vstd::string::*;

verus! {

/// Entering water temperature at which cooling is rated (ISO 13256-1, ground loop) [C].
pub const ISO_GLHP_COOLING_EWT_C: i64 = 25;

/// Entering water temperature at which heating is rated (ISO 13256-1, ground loop) [C].
pub const ISO_GLHP_HEATING_EWT_C: i64 = 0;

/// Where the ground temperature comes from.
pub enum GroundTempSource<T> {
    /// The sinusoidal model at the depth of the loop.
    Auto,
    /// The monthly values of the weather file, or the model where it has none.
    EpwMonthly,
    /// Monthly values of the user [C], January to December.
    Monthly([T; 12]),
}

impl<T> Default for GroundTempSource<T> {
    fn default() -> (r: Self)
        ensures
            r == GroundTempSource::<T>::Auto,
    {
        GroundTempSource::Auto
    }
}

/// What the heat pump is doing.
#[derive(Clone, Copy, Debug, PartialEq, Eq, Structural)]
pub enum GshpMode {
    Off,
    Cooling,
    Heating,
}

impl Default for GshpMode {
    fn default() -> (r: Self)
        ensures
            r == GshpMode::Off,
    {
        GshpMode::Off
    }
}

/// Moist air that flows past a component.
#[derive(Clone, Copy, Debug)]
pub struct AirPort<T> {
    /// Dry-bulb temperature [C].
    pub t_db: T,
    /// Humidity ratio [kg/kg].
    pub w: T,
    /// Barometric pressure [Pa].
    pub p_b: T,
    /// Mass flow [kg/s].
    pub mass_flow: T,
}

/// What the performance curves of a unit give at the present conditions; nothing
/// where the unit has no such curve.
#[derive(Clone, Copy, Debug)]
pub struct CurveValues<T> {
    /// Capacity modifier.
    pub cap: Option<T>,
    /// Energy-input modifier.
    pub eir: Option<T>,
}

/// A ground-source heat pump and its present state.
pub struct GroundSourceHeatPump<T> {
    pub name: String,
    pub submeter: String,
    /// Rated cooling capacity [W].
    pub rated_cooling_capacity: T,
    /// Rated heating capacity [W].
    pub rated_heating_capacity: T,
    pub cop_cooling: T,
    pub cop_heating: T,
    /// Supply air temperature setpoint [C].
    pub outlet_temp_setpoint: T,
    /// Rated airflow [m3/s].
    pub rated_airflow: T,
    pub ground_temp_source: GroundTempSource<T>,
    /// Depth of the ground loop [m].
    pub loop_depth: T,
    /// How far the loop is above the ground temperature in cooling [K].
    pub loop_approach_cooling_k: T,
    /// How far the loop is below the ground temperature in heating [K].
    pub loop_approach_heating_k: T,
    /// Loop pump power per kW of rated capacity [W/kW].
    pub loop_pump_w_per_kw: T,
    pub kusuda_t_mean: T,
    pub kusuda_amplitude: T,
    pub kusuda_phase_day: T,
    pub kusuda_diffusivity: T,
    /// Monthly ground temperatures of the weather file.
    pub epw_monthly_temps: Option<[T; 12]>,
    /// Electric power in this timestep [W].
    pub power: T,
    /// Heat given to the air [W]; negative in cooling.
    pub air_thermal_output: T,
    /// Entering water temperature [C].
    pub current_ewt: T,
    pub mode: GshpMode,
    /// Loop pump power in this timestep [W], part of `power`.
    pub loop_pump_power: T,
}

// ---------------------------------------------------------------------------
// Days and months

/// Days of the year before month `m` (0 is January).
#[verifier::allow_in_spec]
pub fn days_before(m: usize) -> u32
    requires
        m < 12,
    returns
        (match m {
            0usize => 0u32,
            1usize => 31u32,
            2usize => 59u32,
            3usize => 90u32,
            4usize => 120u32,
            5usize => 151u32,
            6usize => 181u32,
            7usize => 212u32,
            8usize => 243u32,
            9usize => 273u32,
            10usize => 304u32,
            _ => 334u32,
        }),
{
    match m {
        0 => 0,
        1 => 31,
        2 => 59,
        3 => 90,
        4 => 120,
        5 => 151,
        6 => 181,
        7 => 212,
        8 => 243,
        9 => 273,
        10 => 304,
        _ => 334,
    }
}

/// Twice the day on which month `m` is half over.
pub open spec fn mid_month_doubled(m: nat) -> int {
    let first = days_before(m as usize) as int;
    let next = if m < 11 {
        days_before((m + 1) as usize) as int
    } else {
        365
    };
    first + next
}

/// The number of a day of the year, from 1, for a month from 1; a month out of range
/// counts as the nearest one.
pub open spec fn numbered_day(month: u32, day: u32) -> int {
    let m = if month == 0 {
        0
    } else if month > 12 {
        11
    } else {
        month - 1
    };
    days_before(m as usize) + day
}

pub fn day_of_year(month: u32, day: u32) -> (r: u32)
    requires
        day <= u32::MAX - 334,
    ensures
        r == numbered_day(month, day),
{
    let m: usize = if month == 0 {
        0
    } else if month > 12 {
        11
    } else {
        (month - 1) as usize
    };
    days_before(m) + day
}

/// The last month, up to `m`, that is at least half over at a moment; see [`between_months`].
pub open spec fn month_reached(at: int, per_day: int, m: nat) -> nat
    decreases m,
{
    if m == 0 || mid_month_doubled(m) * per_day <= at {
        m
    } else {
        month_reached(at, per_day, (m - 1) as nat)
    }
}

/// Where a moment of the year stands between the middles of two months: `(from, to, n, d)` for
/// the share `n / d` of the way from the middle of month `from` to that of month `to`. The
/// moment is counted in halves of the `per_day` parts of a day, so that the middle of every
/// month is a whole number.
pub open spec fn between_months(at: int, per_day: int) -> (nat, nat, int, int) {
    if at <= mid_month_doubled(0) * per_day {
        (11, 0, at + 730 * per_day - mid_month_doubled(11) * per_day, 62 * per_day)
    } else if at >= mid_month_doubled(11) * per_day {
        (11, 0, at - mid_month_doubled(11) * per_day, 62 * per_day)
    } else {
        let m = month_reached(at, per_day, 11);
        (
            m,
            m + 1,
            at - mid_month_doubled(m) * per_day,
            (mid_month_doubled(m + 1) - mid_month_doubled(m)) * per_day,
        )
    }
}

/// Monthly values interpolated between the middles of the months, at a moment of the year that
/// is counted as in [`between_months`].
pub open spec fn interpolated_at<T: Scalar>(temps: [T; 12], at: int, per_day: int) -> T {
    let (from, to, n, d) = between_months(at, per_day);
    plus(
        temps@[from as int],
        times(T::fraction(n, d), minus(temps@[to as int], temps@[from as int])),
    )
}

/// Monthly values interpolated between the middles of the months, `n / per_day` days after the
/// beginning of some year.
pub open spec fn interpolated_after<T: Scalar>(temps: [T; 12], n: nat, per_day: nat) -> T {
    interpolated_at(temps, (2 * n) as int % (730 * per_day) as int, per_day as int)
}

/// Monthly values interpolated between the middles of the months, on a day that is counted
/// through the years.
pub open spec fn interpolated<T: Scalar>(temps: [T; 12], day: nat) -> T {
    interpolated_after(temps, day, 1)
}

/// Twice the day on which month `m` is half over.
fn mid_doubled(m: usize) -> (r: i64)
    requires
        m < 12,
    ensures
        r == mid_month_doubled(m as nat),
        31 <= r <= 699,
{
    if m < 11 {
        days_before(m) as i64 + days_before(m + 1) as i64
    } else {
        days_before(m) as i64 + 365
    }
}

/// Interpolates monthly values on a day, which may lie beyond the end of the year.
pub fn interpolate_monthly<T: Scalar>(temps: &[T; 12], day_of_year: u32) -> (r: T)
    ensures
        r == interpolated(*temps, day_of_year as nat),
{
    interpolate_within_day(temps, day_of_year, 1)
}

/// Interpolates monthly values at a moment within a day: `parts / per_day` days after the
/// beginning of some year.
pub fn interpolate_within_day<T: Scalar>(temps: &[T; 12], parts: u32, per_day: u32) -> (r: T)
    requires
        per_day > 0,
    ensures
        r == interpolated_after(*temps, parts as nat, per_day as nat),
{
    let day: i64 = per_day as i64;
    let at: i64 = (2 * parts as i64) % (730 * day);
    assert(at == (2 * parts) as int % (730 * per_day) as int);
    if at <= mid_times(0, per_day) {
        let share = lit(at + 730 * day - mid_times(11, per_day), 62 * day);
        return plus(temps[11], times(share, minus(temps[0], temps[11])));
    }
    if at >= mid_times(11, per_day) {
        let share = lit(at - mid_times(11, per_day), 62 * day);
        return plus(temps[11], times(share, minus(temps[0], temps[11])));
    }
    let mut m: usize = 11;
    while mid_times(m, per_day) > at
        invariant
            m <= 11,
            per_day > 0,
            day == per_day,
            31 * day < at < 699 * day,
            month_reached(at as int, day as int, 11) == month_reached(
                at as int,
                day as int,
                m as nat,
            ),
        decreases m,
    {
        m = m - 1;
    }
    assert(m < 11);
    let here: i64 = mid_times(m, per_day);
    let next: i64 = mid_times(m + 1, per_day);
    assert(mid_month_doubled(m as nat) < mid_month_doubled((m + 1) as nat));
    assert((mid_month_doubled((m + 1) as nat) - mid_month_doubled(m as nat)) * day == next - here
        && here < next) by (nonlinear_arith)
        requires
            here == mid_month_doubled(m as nat) * day,
            next == mid_month_doubled((m + 1) as nat) * day,
            mid_month_doubled(m as nat) < mid_month_doubled((m + 1) as nat),
            day > 0,
    ;
    let share = lit(at - here, next - here);
    plus(temps[m], times(share, minus(temps[m + 1], temps[m])))
}

/// When month `m` is half over, in halves of the `per_day` parts of a day.
fn mid_times(m: usize, per_day: u32) -> (r: i64)
    requires
        m < 12,
    ensures
        r == mid_month_doubled(m as nat) * per_day,
        31 * per_day <= r <= 699 * per_day,
{
    let doubled = mid_doubled(m);
    assert(31 * per_day <= doubled * per_day <= 699 * per_day) by (nonlinear_arith)
        requires
            31 <= doubled <= 699,
            0 <= per_day,
    ;
    doubled * per_day as i64
}

// ---------------------------------------------------------------------------
// Ground and loop temperatures

/// The exponent by which the swing of the ground temperature dies out with depth.
pub open spec fn damping_exponent<T: Scalar>(unit: GroundSourceHeatPump<T>, depth: T) -> T {
    negated(times(depth, root(over(pi(), times(num(365), unit.kusuda_diffusivity)))))
}

/// Where the ground temperature at a depth stands in its yearly swing, as an angle from its
/// lowest point.
pub open spec fn season_angle<T: Scalar>(
    unit: GroundSourceHeatPump<T>,
    day: T,
    depth: T,
) -> T {
    let year: T = num(365);
    let phase_shift = times(
        over(depth, num(2)),
        root(over(year, times(pi(), unit.kusuda_diffusivity))),
    );
    times(
        over(times(num(2), pi()), year),
        minus(minus(day, unit.kusuda_phase_day), phase_shift),
    )
}

/// The sinusoidal ground temperature at a depth. Without a diffusivity it is the mean.
pub open spec fn sinusoidal<T: Scalar>(unit: GroundSourceHeatPump<T>, day: T, depth: T) -> T {
    if le(unit.kusuda_diffusivity, num(0)) {
        unit.kusuda_t_mean
    } else {
        minus(
            unit.kusuda_t_mean,
            times(
                times(unit.kusuda_amplitude, exponential(damping_exponent(unit, depth))),
                cosine(season_angle(unit, day, depth)),
            ),
        )
    }
}

/// The ground temperature on a day of the year.
pub open spec fn ground_temp<T: Scalar>(unit: GroundSourceHeatPump<T>, day: u32) -> T {
    let model = sinusoidal(unit, T::whole(day as nat), unit.loop_depth);
    match unit.ground_temp_source {
        GroundTempSource::Auto => model,
        GroundTempSource::EpwMonthly => match unit.epw_monthly_temps {
            Some(temps) => interpolated(temps, day as nat),
            None => model,
        },
        GroundTempSource::Monthly(temps) => interpolated(temps, day as nat),
    }
}

/// The temperature of the water that enters the unit: the loop is warmer than the
/// ground while it rejects heat and colder while it takes heat up.
pub open spec fn loop_temp<T: Scalar>(
    unit: GroundSourceHeatPump<T>,
    mode: GshpMode,
    day: u32,
) -> T {
    let ground = ground_temp(unit, day);
    match mode {
        GshpMode::Cooling => plus(ground, unit.loop_approach_cooling_k),
        GshpMode::Heating => minus(ground, unit.loop_approach_heating_k),
        GshpMode::Off => ground,
    }
}

/// The built-in modifiers `(capacity, energy input)`: linear around the rating
/// points and held in a plausible range.
pub open spec fn rating_modifiers<T: Scalar>(mode: GshpMode, ewt: T) -> (T, T) {
    let d_cool = minus(ewt, num(ISO_GLHP_COOLING_EWT_C));
    let d_heat = minus(ewt, num(ISO_GLHP_HEATING_EWT_C));
    match mode {
        GshpMode::Cooling => (
            clamp(minus(num(1), times(lit(5, 1000), d_cool)), lit(6, 10), lit(12, 10)),
            clamp(plus(num(1), times(lit(27, 1000), d_cool)), lit(5, 10), num(2)),
        ),
        GshpMode::Heating => (
            clamp(plus(num(1), times(lit(12, 1000), d_heat)), lit(6, 10), lit(15, 10)),
            clamp(minus(num(1), times(lit(27, 1000), d_heat)), lit(5, 10), num(2)),
        ),
        GshpMode::Off => (num(1), num(1)),
    }
}

// ---------------------------------------------------------------------------
// Operation

/// The mode that air entering at `inlet` calls for. A setpoint far out of range is
/// the sign by which an air loop parks an idle unit.
pub open spec fn called_mode<T: Scalar>(setpoint: T, inlet: AirPort<T>) -> GshpMode {
    if le(inlet.mass_flow, num(0)) || ge(setpoint, num(90)) || le(setpoint, negated(num(50))) {
        GshpMode::Off
    } else if lt(setpoint, minus(inlet.t_db, lit(1, 10))) {
        GshpMode::Cooling
    } else if gt(setpoint, plus(inlet.t_db, lit(1, 10))) {
        GshpMode::Heating
    } else {
        GshpMode::Off
    }
}

/// The value of a curve, or `default` where there is no curve.
pub open spec fn curve_or<T>(curve: Option<T>, default: T) -> T {
    match curve {
        Some(v) => v,
        None => default,
    }
}

/// The heat moved [W] to bring the air to the setpoint, as far as the capacity goes.
pub open spec fn heat_moved<T: Scalar>(needed: T, available: T) -> T {
    most(least(needed, available), num(0))
}

/// The unit after a timestep in which it ran in `mode` on the inlet air.
pub open spec fn after_air<T: Scalar>(
    unit: GroundSourceHeatPump<T>,
    inlet: AirPort<T>,
    day: u32,
    cp: T,
    curves: CurveValues<T>,
) -> (GroundSourceHeatPump<T>, AirPort<T>) {
    let mode = called_mode(unit.outlet_temp_setpoint, inlet);
    let ewt = loop_temp(unit, mode, day);
    let (default_cap, default_eir) = rating_modifiers(mode, ewt);
    let cap_mod = curve_or(curves.cap, default_cap);
    let eir_mod = curve_or(curves.eir, default_eir);
    let (rated, cop, lift) = if mode == GshpMode::Cooling {
        (
            unit.rated_cooling_capacity,
            unit.cop_cooling,
            minus(inlet.t_db, unit.outlet_temp_setpoint),
        )
    } else {
        (
            unit.rated_heating_capacity,
            unit.cop_heating,
            minus(unit.outlet_temp_setpoint, inlet.t_db),
        )
    };
    let heat = heat_moved(times(times(inlet.mass_flow, cp), lift), times(rated, cap_mod));
    let change = over(heat, most(times(inlet.mass_flow, cp), lit(1, 1_000_000)));
    let pump = over(times(unit.loop_pump_w_per_kw, rated), num(1000));
    let power = plus(over(times(heat, eir_mod), most(cop, lit(1, 10))), pump);
    match mode {
        GshpMode::Off => (
            GroundSourceHeatPump {
                power: num(0),
                loop_pump_power: num(0),
                air_thermal_output: num(0),
                mode,
                ..unit
            },
            inlet,
        ),
        GshpMode::Cooling => (
            GroundSourceHeatPump {
                power,
                loop_pump_power: pump,
                air_thermal_output: negated(heat),
                current_ewt: ewt,
                mode,
                ..unit
            },
            AirPort { t_db: minus(inlet.t_db, change), ..inlet },
        ),
        GshpMode::Heating => (
            GroundSourceHeatPump {
                power,
                loop_pump_power: pump,
                air_thermal_output: heat,
                current_ewt: ewt,
                mode,
                ..unit
            },
            AirPort { t_db: plus(inlet.t_db, change), ..inlet },
        ),
    }
}

/// The unit after it ran at a part load with the given entering water temperature,
/// with the supply temperature and mass flow that it delivers.
pub open spec fn after_ground<T: Scalar>(
    unit: GroundSourceHeatPump<T>,
    mode: GshpMode,
    load_fraction: T,
    indoor_temp: T,
    ewt: T,
    cp: T,
    curves: CurveValues<T>,
) -> (GroundSourceHeatPump<T>, (T, T)) {
    let (rated, cop) = if mode == GshpMode::Cooling {
        (unit.rated_cooling_capacity, unit.cop_cooling)
    } else {
        (unit.rated_heating_capacity, unit.cop_heating)
    };
    let supply = unit.outlet_temp_setpoint;
    let heat = times(
        times(rated, clamp(load_fraction, num(0), num(1))),
        curve_or(curves.cap, num(1)),
    );
    let power = over(times(heat, curve_or(curves.eir, num(1))), most(cop, lit(1, 10)));
    let lift = if mode == GshpMode::Cooling {
        minus(indoor_temp, supply)
    } else {
        minus(supply, indoor_temp)
    };
    let flow = most(over(heat, times(cp, absolute(lift))), lit(1, 100));
    match mode {
        GshpMode::Off => (
            GroundSourceHeatPump {
                power: num(0),
                loop_pump_power: num(0),
                air_thermal_output: num(0),
                current_ewt: ewt,
                mode,
                ..unit
            },
            (indoor_temp, num(0)),
        ),
        GshpMode::Cooling => (
            GroundSourceHeatPump {
                power,
                loop_pump_power: num(0),
                air_thermal_output: negated(heat),
                current_ewt: ewt,
                mode,
                ..unit
            },
            (supply, flow),
        ),
        GshpMode::Heating => (
            GroundSourceHeatPump {
                power,
                loop_pump_power: num(0),
                air_thermal_output: heat,
                current_ewt: ewt,
                mode,
                ..unit
            },
            (supply, flow),
        ),
    }
}

/// The unit as a number: 1 heating, -1 cooling, 0 off.
pub open spec fn mode_number<T: Scalar>(mode: GshpMode) -> T {
    match mode {
        GshpMode::Heating => num(1),
        GshpMode::Cooling => negated(num(1)),
        GshpMode::Off => num(0),
    }
}

/// The COP of the compressor alone; zero while it is off.
pub open spec fn operating_cop<T: Scalar>(unit: GroundSourceHeatPump<T>) -> T {
    let compressor = minus(unit.power, unit.loop_pump_power);
    if gt(compressor, num(0)) {
        over(absolute(unit.air_thermal_output), compressor)
    } else {
        num(0)
    }
}

impl<T: Scalar> GroundSourceHeatPump<T> {
    /// A unit with the default ground loop: 1.5 m deep, 8 K and 6 K approach, 25 W of
    /// pump power per kW, under the submeter `General`.
    pub fn new(
        name: &str,
        rated_cooling_capacity: T,
        rated_heating_capacity: T,
        cop_cooling: T,
        cop_heating: T,
        outlet_temp_setpoint: T,
        rated_airflow: T,
    ) -> (r: Self)
        ensures
            r.name@ == name@,
            r.submeter@ == "General"@,
            r == (GroundSourceHeatPump {
                name: r.name,
                submeter: r.submeter,
                rated_cooling_capacity,
                rated_heating_capacity,
                cop_cooling,
                cop_heating,
                outlet_temp_setpoint,
                rated_airflow,
                ground_temp_source: GroundTempSource::Auto,
                loop_depth: lit(15, 10),
                loop_approach_cooling_k: num(8),
                loop_approach_heating_k: num(6),
                loop_pump_w_per_kw: num(25),
                kusuda_t_mean: num(12),
                kusuda_amplitude: num(10),
                kusuda_phase_day: num(35),
                kusuda_diffusivity: lit(4, 100),
                epw_monthly_temps: None,
                power: num(0),
                air_thermal_output: num(0),
                current_ewt: num(12),
                mode: GshpMode::Off,
                loop_pump_power: num(0),
            }),
    {
        GroundSourceHeatPump {
            name: name.to_owned(),
            submeter: "General".to_owned(),
            rated_cooling_capacity,
            rated_heating_capacity,
            cop_cooling,
            cop_heating,
            outlet_temp_setpoint,
            rated_airflow,
            ground_temp_source: GroundTempSource::Auto,
            loop_depth: lit(15, 10),
            loop_approach_cooling_k: num(8),
            loop_approach_heating_k: num(6),
            loop_pump_w_per_kw: num(25),
            kusuda_t_mean: num(12),
            kusuda_amplitude: num(10),
            kusuda_phase_day: num(35),
            kusuda_diffusivity: lit(4, 100),
            epw_monthly_temps: None,
            power: num(0),
            air_thermal_output: num(0),
            current_ewt: num(12),
            mode: GshpMode::Off,
            loop_pump_power: num(0),
        }
    }

    /// The built-in capacity and energy-input modifiers at an entering water
    /// temperature, used where a unit has no performance curves.
    pub fn default_ewt_modifiers(mode: GshpMode, ewt: T) -> (r: (T, T))
        ensures
            r == rating_modifiers(mode, ewt),
    {
        match mode {
            GshpMode::Cooling => {
                let d = minus(ewt, num(ISO_GLHP_COOLING_EWT_C));
                (
                    clamp(minus(num(1), times(lit(5, 1000), d)), lit(6, 10), lit(12, 10)),
                    clamp(plus(num(1), times(lit(27, 1000), d)), lit(5, 10), num(2)),
                )
            },
            GshpMode::Heating => {
                let d = minus(ewt, num(ISO_GLHP_HEATING_EWT_C));
                (
                    clamp(plus(num(1), times(lit(12, 1000), d)), lit(6, 10), lit(15, 10)),
                    clamp(minus(num(1), times(lit(27, 1000), d)), lit(5, 10), num(2)),
                )
            },
            GshpMode::Off => (num(1), num(1)),
        }
    }

    /// The entering water temperature for `mode` on a day of the year.
    pub fn entering_water_temp(&self, mode: GshpMode, day_of_year: u32) -> (r: T)
        ensures
            r == loop_temp(*self, mode, day_of_year),
    {
        let t_ground = self.ground_temp_for_day(day_of_year);
        match mode {
            GshpMode::Cooling => plus(t_ground, self.loop_approach_cooling_k),
            GshpMode::Heating => minus(t_ground, self.loop_approach_heating_k),
            GshpMode::Off => t_ground,
        }
    }

    /// The ground temperature on a day of the year.
    pub fn ground_temp_for_day(&self, day_of_year: u32) -> (r: T)
        ensures
            r == ground_temp(*self, day_of_year),
    {
        match &self.ground_temp_source {
            GroundTempSource::Auto => self.kusuda(count(day_of_year as usize), self.loop_depth),
            GroundTempSource::EpwMonthly => match &self.epw_monthly_temps {
                Some(temps) => interpolate_monthly(temps, day_of_year),
                None => self.kusuda(count(day_of_year as usize), self.loop_depth),
            },
            GroundTempSource::Monthly(temps) => interpolate_monthly(temps, day_of_year),
        }
    }

    /// The sinusoidal ground temperature at a depth.
    pub fn kusuda(&self, day: T, depth: T) -> (r: T)
        ensures
            r == sinusoidal(*self, day, depth),
    {
        let alpha = self.kusuda_diffusivity;
        if le(alpha, num(0)) {
            return self.kusuda_t_mean;
        }
        let year: T = num(365);
        let damping = exponential(negated(times(depth, root(over(pi(), times(year, alpha))))));
        let phase_shift = times(over(depth, num(2)), root(over(year, times(pi(), alpha))));
        let angle = times(
            over(times(num(2), pi()), year),
            minus(minus(day, self.kusuda_phase_day), phase_shift),
        );
        minus(self.kusuda_t_mean, times(times(self.kusuda_amplitude, damping), cosine(angle)))
    }

    /// Runs the unit at a part load with an explicit entering water temperature.
    ///
    /// `cp` is the heat capacity of supply air, and `curves` what the curves of the
    /// mode give at `(ewt, indoor_temp)`. The ambient temperature has no effect, and the
    /// power is that of the compressor alone: no loop pump runs.
    /// Returns the supply temperature [C] and mass flow [kg/s].
    pub fn simulate_ground(
        &mut self,
        mode: GshpMode,
        load_fraction: T,
        indoor_temp: T,
        ewt: T,
        _ambient_temp: T,
        cp: T,
        curves: CurveValues<T>,
    ) -> (r: (T, T))
        ensures
            (*final(self), r) == after_ground(
                *old(self),
                mode,
                load_fraction,
                indoor_temp,
                ewt,
                cp,
                curves,
            ),
    {
        self.current_ewt = ewt;
        self.mode = mode;
        self.loop_pump_power = num(0);
        let cap_mod = match curves.cap {
            Some(v) => v,
            None => num(1),
        };
        let eir_mod = match curves.eir {
            Some(v) => v,
            None => num(1),
        };
        let share = clamp(load_fraction, num(0), num(1));
        let t_supply = self.outlet_temp_setpoint;
        match mode {
            GshpMode::Off => {
                self.power = num(0);
                self.air_thermal_output = num(0);
                (indoor_temp, num(0))
            },
            GshpMode::Cooling => {
                let q = times(times(self.rated_cooling_capacity, share), cap_mod);
                self.power = over(times(q, eir_mod), most(self.cop_cooling, lit(1, 10)));
                self.air_thermal_output = negated(q);
                let flow = most(
                    over(q, times(cp, absolute(minus(indoor_temp, t_supply)))),
                    lit(1, 100),
                );
                (t_supply, flow)
            },
            GshpMode::Heating => {
                let q = times(times(self.rated_heating_capacity, share), cap_mod);
                self.power = over(times(q, eir_mod), most(self.cop_heating, lit(1, 10)));
                self.air_thermal_output = q;
                let flow = most(
                    over(q, times(cp, absolute(minus(t_supply, indoor_temp)))),
                    lit(1, 100),
                );
                (t_supply, flow)
            },
        }
    }

    /// The mode that the setpoint and the inlet air call for.
    pub fn demanded_mode(&self, inlet: &AirPort<T>) -> (r: GshpMode)
        ensures
            r == called_mode(self.outlet_temp_setpoint, *inlet),
    {
        let t_sp = self.outlet_temp_setpoint;
        if le(inlet.mass_flow, num(0)) || ge(t_sp, num(90)) || le(t_sp, negated(num(50))) {
            GshpMode::Off
        } else if lt(t_sp, minus(inlet.t_db, lit(1, 10))) {
            GshpMode::Cooling
        } else if gt(t_sp, plus(inlet.t_db, lit(1, 10))) {
            GshpMode::Heating
        } else {
            GshpMode::Off
        }
    }

    /// Runs the unit for one timestep on the inlet air and returns the outlet air.
    ///
    /// `cp` is the heat capacity of the inlet air, and `curves` what the curves of the
    /// demanded mode give at the entering water temperature and the inlet temperature.
    pub fn simulate_air(
        &mut self,
        inlet: &AirPort<T>,
        month: u32,
        day: u32,
        cp: T,
        curves: CurveValues<T>,
    ) -> (r: AirPort<T>)
        requires
            day <= u32::MAX - 334,
        ensures
            (*final(self), r) == after_air(
                *old(self),
                *inlet,
                numbered_day(month, day) as u32,
                cp,
                curves,
            ),
    {
        let mode = self.demanded_mode(inlet);
        self.mode = mode;
        if mode == GshpMode::Off {
            self.power = num(0);
            self.loop_pump_power = num(0);
            self.air_thermal_output = num(0);
            return *inlet;
        }
        let doy: u32 = day_of_year(month, day);
        let t_sp = self.outlet_temp_setpoint;
        let ewt = self.entering_water_temp(mode, doy);
        assert(ewt == loop_temp(*old(self), mode, doy));
        self.current_ewt = ewt;
        let (default_cap, default_eir) = Self::default_ewt_modifiers(mode, ewt);
        let cap_mod = match curves.cap {
            Some(v) => v,
            None => default_cap,
        };
        let eir_mod = match curves.eir {
            Some(v) => v,
            None => default_eir,
        };
        let stream = times(inlet.mass_flow, cp);
        let (rated, cop, lift) = match mode {
            GshpMode::Cooling => (
                self.rated_cooling_capacity,
                self.cop_cooling,
                minus(inlet.t_db, t_sp),
            ),
            _ => (self.rated_heating_capacity, self.cop_heating, minus(t_sp, inlet.t_db)),
        };
        let heat = most(least(times(stream, lift), times(rated, cap_mod)), num(0));
        let change = over(heat, most(stream, lit(1, 1_000_000)));
        let compressor = over(times(heat, eir_mod), most(cop, lit(1, 10)));
        self.loop_pump_power = over(times(self.loop_pump_w_per_kw, rated), num(1000));
        self.power = plus(compressor, self.loop_pump_power);
        match mode {
            GshpMode::Cooling => {
                self.air_thermal_output = negated(heat);
                AirPort { t_db: minus(inlet.t_db, change), ..*inlet }
            },
            _ => {
                self.air_thermal_output = heat;
                AirPort { t_db: plus(inlet.t_db, change), ..*inlet }
            },
        }
    }

    pub fn set_setpoint(&mut self, setpoint: T)
        ensures
            *final(self) == (GroundSourceHeatPump { outlet_temp_setpoint: setpoint, ..*old(self) }),
    {
        self.outlet_temp_setpoint = setpoint;
    }

    pub fn power_consumption(&self) -> (r: T)
        ensures
            r == self.power,
    {
        self.power
    }

    pub fn thermal_output(&self) -> (r: T)
        ensures
            r == self.air_thermal_output,
    {
        self.air_thermal_output
    }

    pub fn nominal_capacity(&self) -> (r: Option<T>)
        ensures
            r == Some(self.rated_cooling_capacity),
    {
        Some(self.rated_cooling_capacity)
    }

    pub fn set_nominal_capacity(&mut self, cap: T)
        ensures
            *final(self) == (GroundSourceHeatPump { rated_cooling_capacity: cap, ..*old(self) }),
    {
        self.rated_cooling_capacity = cap;
    }

    pub fn set_heating_capacity(&mut self, cap: T)
        ensures
            *final(self) == (GroundSourceHeatPump { rated_heating_capacity: cap, ..*old(self) }),
    {
        self.rated_heating_capacity = cap;
    }

    /// Sets the ground model from the weather file. The depth of the loop stays as the
    /// unit was described.
    pub fn configure_ground_source(
        &mut self,
        t_mean: T,
        amplitude: T,
        phase_day: T,
        soil_diffusivity: T,
        _loop_depth: T,
        epw_monthly_temps: Option<[T; 12]>,
    )
        ensures
            *final(self) == (GroundSourceHeatPump {
                kusuda_t_mean: t_mean,
                kusuda_amplitude: amplitude,
                kusuda_phase_day: phase_day,
                kusuda_diffusivity: soil_diffusivity,
                epw_monthly_temps,
                ..*old(self)
            }),
    {
        self.kusuda_t_mean = t_mean;
        self.kusuda_amplitude = amplitude;
        self.kusuda_phase_day = phase_day;
        self.kusuda_diffusivity = soil_diffusivity;
        self.epw_monthly_temps = epw_monthly_temps;
    }

    /// The state of the unit for reports.
    pub fn detailed_outputs(&self) -> (r: Table<T>)
        ensures
            r@ == map![
                "entering_water_temp"@ => self.current_ewt,
                "loop_pump_power"@ => self.loop_pump_power,
                "gshp_mode"@ => mode_number(self.mode),
                "cop_operating"@ => operating_cop(*self)
            ],
    {
        let mut m: Table<T> = Table::new();
        m.insert("entering_water_temp", self.current_ewt);
        m.insert("loop_pump_power", self.loop_pump_power);
        let mode = match self.mode {
            GshpMode::Heating => num(1),
            GshpMode::Cooling => negated(num(1)),
            GshpMode::Off => num(0),
        };
        m.insert("gshp_mode", mode);
        let compressor = minus(self.power, self.loop_pump_power);
        let cop = if gt(compressor, num(0)) {
            over(absolute(self.air_thermal_output), compressor)
        } else {
            num(0)
        };
        m.insert("cop_operating", cop);
        m
    }
}

} // verus!
