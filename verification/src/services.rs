//! Domestic hot water, exterior equipment, radiant panels and VRF units.
use crate::scalar;
use crate::scalar::{
    absolute, clamp, gt, lit, lt, minus, most, negated, num, over, plus, times, Scalar,
};
use crate::table;
use crate::table::Table;
use crate::text;
use crate::text::{contains, same_text, to_lowercase};
use vstd::prelude::*;
use vstd::string::*;

verus! {

// ---------------------------------------------------------------------------
// Domestic hot water

/// How a water heater makes heat.
#[derive(Clone, Copy, Debug, PartialEq, Eq, Structural)]
pub enum WaterHeaterFuel {
    Gas,
    Electric,
    HeatPump,
}

/// The fuel of a water heater by its name in the model; gas for any other name.
pub open spec fn fuel_named(name: Seq<char>) -> WaterHeaterFuel {
    if name == "electric"@ || name == "Electric"@ {
        WaterHeaterFuel::Electric
    } else if name == "heat_pump"@ || name == "HeatPump"@ || name == "hpwh"@ {
        WaterHeaterFuel::HeatPump
    } else {
        WaterHeaterFuel::Gas
    }
}

pub fn water_heater_fuel(name: &str) -> (r: WaterHeaterFuel)
    ensures
        r == fuel_named(name@),
{
    if same_text(name, "electric") || same_text(name, "Electric") {
        WaterHeaterFuel::Electric
    } else if same_text(name, "heat_pump") || same_text(name, "HeatPump") || same_text(
        name,
        "hpwh",
    ) {
        WaterHeaterFuel::HeatPump
    } else {
        WaterHeaterFuel::Gas
    }
}

/// Whether a water heater modulates; any other name of a control means on and off.
pub fn water_heater_modulates(control: &str) -> (r: bool)
    ensures
        r == (control@ == "modulate"@ || control@ == "Modulate"@),
{
    same_text(control, "modulate") || same_text(control, "Modulate")
}

/// Whether a pump has constant speed; any other type has variable speed.
pub fn pump_is_constant_speed(pump_type: &str) -> (r: bool)
    ensures
        r == (pump_type@ == "constant_speed"@),
{
    same_text(pump_type, "constant_speed")
}

/// A group of fixtures.
#[derive(Clone, Copy, Debug)]
pub struct HotWaterLoad<T> {
    /// Peak flow [L/s].
    pub peak_flow_rate: T,
    /// The share of the peak flow that is drawn now.
    pub fraction: T,
    /// Temperature at the fixture [C].
    pub use_temperature: T,
}

/// The share of hot water in what a fixture mixes; all of it where the tank is no warmer
/// than the mains.
pub open spec fn hot_share<T: Scalar>(use_temp: T, t_hot: T, t_mains: T) -> T {
    if gt(t_hot, t_mains) {
        clamp(over(minus(use_temp, t_mains), minus(t_hot, t_mains)), num(0), num(1))
    } else {
        num(1)
    }
}

/// The hot water that the first `n` groups draw from the tank, added up [L/s].
pub open spec fn hot_water_drawn<T: Scalar>(
    loads: Seq<HotWaterLoad<T>>,
    t_hot: T,
    t_mains: T,
    n: nat,
) -> T
    decreases n,
{
    if n == 0 {
        num(0)
    } else {
        let load = loads[n - 1];
        plus(
            hot_water_drawn(loads, t_hot, t_mains, (n - 1) as nat),
            times(
                times(load.peak_flow_rate, load.fraction),
                hot_share(load.use_temperature, t_hot, t_mains),
            ),
        )
    }
}

/// The hot water that fixtures draw from the tank [L/s].
pub fn hot_water_draw<T: Scalar>(loads: &Vec<HotWaterLoad<T>>, t_hot: T, t_mains: T) -> (r: T)
    ensures
        r == hot_water_drawn(loads@, t_hot, t_mains, loads@.len()),
{
    let mut total: T = num(0);
    for i in 0..loads.len()
        invariant
            total == hot_water_drawn(loads@, t_hot, t_mains, i as nat),
    {
        let load = loads[i];
        let share = if gt(t_hot, t_mains) {
            clamp(
                over(minus(load.use_temperature, t_mains), minus(t_hot, t_mains)),
                num(0),
                num(1),
            )
        } else {
            num(1)
        };
        total = plus(total, times(times(load.peak_flow_rate, load.fraction), share));
    }
    total
}

/// The peak flows of the first `n` groups, added up [L/s].
pub open spec fn peak_flow<T: Scalar>(loads: Seq<HotWaterLoad<T>>, n: nat) -> T
    decreases n,
{
    if n == 0 {
        num(0)
    } else {
        plus(peak_flow(loads, (n - 1) as nat), loads[n - 1].peak_flow_rate)
    }
}

/// What all fixtures draw at their peak [L/s].
pub fn peak_draw<T: Scalar>(loads: &Vec<HotWaterLoad<T>>) -> (r: T)
    ensures
        r == peak_flow(loads@, loads@.len()),
{
    let mut total: T = num(0);
    for i in 0..loads.len()
        invariant
            total == peak_flow(loads@, i as nat),
    {
        total = plus(total, loads[i].peak_flow_rate);
    }
    total
}

/// The share of its design flow at which a circulation pump runs; nothing while no water is
/// drawn.
pub fn circulation_share<T: Scalar>(loads: &Vec<HotWaterLoad<T>>, drawn: T) -> (r: Option<T>)
    ensures
        r == if gt(drawn, num(0)) {
            Some(
                clamp(
                    over(drawn, most(peak_flow(loads@, loads@.len()), lit(1, 10_000_000_000))),
                    num(0),
                    num(1),
                ),
            )
        } else {
            None
        },
{
    if !gt(drawn, num(0)) {
        return None;
    }
    let total = peak_draw(loads);
    Some(clamp(over(drawn, most(total, lit(1, 10_000_000_000))), num(0), num(1)))
}

/// The peak flows of the first `n` groups in cubic metres, added up [m3/s].
pub open spec fn peak_flow_m3<T: Scalar>(loads: Seq<HotWaterLoad<T>>, n: nat) -> T
    decreases n,
{
    if n == 0 {
        num(0)
    } else {
        plus(
            peak_flow_m3(loads, (n - 1) as nat),
            over(loads[n - 1].peak_flow_rate, num(1000)),
        )
    }
}

/// The design flow of a circulation pump [m3/s]: as given, or the peak flow of all fixtures
/// where it is to be sized.
pub fn circulation_design_flow<T: Scalar>(
    given: Option<T>,
    loads: &Vec<HotWaterLoad<T>>,
) -> (r: T)
    ensures
        r == match given {
            Some(flow) => flow,
            None => peak_flow_m3(loads@, loads@.len()),
        },
{
    match given {
        Some(flow) => flow,
        None => {
            let mut total: T = num(0);
            for i in 0..loads.len()
                invariant
                    total == peak_flow_m3(loads@, i as nat),
            {
                total = plus(total, over(loads[i].peak_flow_rate, num(1000)));
            }
            total
        },
    }
}

// ---------------------------------------------------------------------------
// Exterior equipment

/// Where the power of exterior equipment goes.
#[derive(Clone, Copy, Debug, PartialEq, Eq, Structural)]
pub enum ExteriorUse {
    Lighting,
    Fuel,
    Equipment,
}

/// The power of exterior equipment [W]: by its schedule, and off in daylight where an
/// astronomical clock switches it.
pub open spec fn exterior_watts<T: Scalar>(
    power: T,
    fraction: T,
    astronomical_clock: bool,
    sun_is_up: bool,
) -> T {
    let scheduled = times(power, fraction);
    if astronomical_clock && gt(scheduled, num(0)) && sun_is_up {
        num(0)
    } else {
        scheduled
    }
}

pub fn exterior_power<T: Scalar>(
    power: T,
    fraction: T,
    astronomical_clock: bool,
    sun_is_up: bool,
) -> (r: T)
    ensures
        r == exterior_watts(power, fraction, astronomical_clock, sun_is_up),
{
    let scheduled = times(power, fraction);
    if astronomical_clock && gt(scheduled, num(0)) && sun_is_up {
        num(0)
    } else {
        scheduled
    }
}

/// The use of exterior equipment by its category in lower case and its fuel.
pub open spec fn use_by_category(category: Option<Seq<char>>, fuel: Seq<char>) -> ExteriorUse {
    if category is Some && text::has_part(category->Some_0, "exterior light"@) {
        ExteriorUse::Lighting
    } else if fuel == "natural_gas"@ {
        ExteriorUse::Fuel
    } else {
        ExteriorUse::Equipment
    }
}

pub open spec fn lowered(category: Option<String>) -> Option<Seq<char>> {
    match category {
        Some(c) => Some(text::lowercase(c@)),
        None => None,
    }
}

/// The use of exterior equipment whose category in lower case is `category`.
pub fn exterior_use_of(category: &Option<String>, fuel: &str) -> (r: ExteriorUse)
    ensures
        r == use_by_category(crate::model::text_of(*category), fuel@),
{
    let is_light = match category {
        Some(c) => contains(c.as_str(), "exterior light"),
        None => false,
    };
    if is_light {
        ExteriorUse::Lighting
    } else if same_text(fuel, "natural_gas") {
        ExteriorUse::Fuel
    } else {
        ExteriorUse::Equipment
    }
}

/// The use of exterior equipment. Categories are compared in lower case.
pub fn exterior_use(category: &Option<String>, fuel: &str) -> (r: ExteriorUse)
    ensures
        r == use_by_category(lowered(*category), fuel@),
{
    let lower = match category {
        Some(c) => Some(to_lowercase(c.as_str())),
        None => None,
    };
    exterior_use_of(&lower, fuel)
}

/// Adds power to what is booked under a name.
pub fn add_power<T: Scalar>(powers: &mut Table<T>, name: &str, power: T)
    ensures
        final(powers)@ == old(powers)@.insert(
            name@,
            if old(powers)@.contains_key(name@) {
                plus(old(powers)@[name@], power)
            } else {
                power
            },
        ),
{
    let value = match powers.get(name) {
        Some(v) => plus(*v, power),
        None => power,
    };
    powers.insert(name, value);
}

/// The meter of exterior equipment: its own, or one by its category, or the general one.
pub open spec fn exterior_meter(submeter: Seq<char>, category: Option<Seq<char>>) -> Seq<char> {
    if submeter != "General"@ {
        submeter
    } else {
        match category {
            Some(c) => c,
            None => "General"@,
        }
    }
}

pub fn exterior_meter_name(submeter: &str, category: &Option<String>) -> (r: String)
    ensures
        r@ == exterior_meter(submeter@, crate::model::text_of(*category)),
{
    if !same_text(submeter, "General") {
        submeter.to_owned()
    } else {
        match category {
            Some(c) => c.clone(),
            None => "General".to_owned(),
        }
    }
}

/// Whether exterior equipment is metered as lighting, by its category in lower case.
pub fn metered_as_lighting_of(category: &Option<String>) -> (r: bool)
    ensures
        r == match *category {
            Some(c) => text::has_part(c@, "light"@),
            None => false,
        },
{
    match category {
        Some(c) => contains(c.as_str(), "light"),
        None => false,
    }
}

/// Whether exterior equipment is metered as lighting. Categories are compared in lower case.
pub fn metered_as_lighting(category: &Option<String>) -> (r: bool)
    ensures
        r == match lowered(*category) {
            Some(c) => text::has_part(c, "light"@),
            None => false,
        },
{
    let lower = match category {
        Some(c) => Some(to_lowercase(c.as_str())),
        None => None,
    };
    metered_as_lighting_of(&lower)
}

// ---------------------------------------------------------------------------
// Radiant panels

/// What drives a radiant panel.
#[derive(Clone, Copy, Debug, PartialEq, Eq, Structural)]
pub enum PanelSource {
    Electric,
    HotWater,
    ChilledWater,
}

/// The part load of a radiant panel: full from half a degree beyond the setpoint, and in
/// proportion before that.
pub open spec fn panel_share<T: Scalar>(
    source: PanelSource,
    temp: T,
    heat_sp: T,
    cool_sp: T,
) -> T {
    let half: T = lit(5, 10);
    if source == PanelSource::ChilledWater {
        if gt(temp, plus(cool_sp, half)) {
            num(1)
        } else if gt(temp, cool_sp) {
            over(minus(temp, cool_sp), half)
        } else {
            num(0)
        }
    } else {
        if lt(temp, minus(heat_sp, half)) {
            num(1)
        } else if lt(temp, heat_sp) {
            over(minus(heat_sp, temp), half)
        } else {
            num(0)
        }
    }
}

pub fn panel_part_load<T: Scalar>(
    source: PanelSource,
    temp: T,
    heat_sp: T,
    cool_sp: T,
) -> (r: T)
    ensures
        r == panel_share(source, temp, heat_sp, cool_sp),
{
    let half: T = lit(5, 10);
    if source == PanelSource::ChilledWater {
        if gt(temp, plus(cool_sp, half)) {
            num(1)
        } else if gt(temp, cool_sp) {
            over(minus(temp, cool_sp), half)
        } else {
            num(0)
        }
    } else {
        if lt(temp, minus(heat_sp, half)) {
            num(1)
        } else if lt(temp, heat_sp) {
            over(minus(heat_sp, temp), half)
        } else {
            num(0)
        }
    }
}

/// The state of a radiant panel for reports.
#[derive(Clone, Copy, Debug)]
pub struct PanelState<T> {
    /// Heat given to the zone [W]; negative in cooling.
    pub thermal_output: T,
    pub power: T,
    pub plr: T,
    pub radiant_output: T,
    pub convective_output: T,
}

/// The outputs of a radiant panel.
pub open spec fn panel_report<T: Scalar>(p: PanelState<T>) -> Map<Seq<char>, T> {
    map![
        "radiant_panel_heating_rate"@ => if gt(p.thermal_output, num(0)) {
            p.thermal_output
        } else {
            num(0)
        },
        "radiant_panel_cooling_rate"@ => if lt(p.thermal_output, num(0)) {
            negated(p.thermal_output)
        } else {
            num(0)
        },
        "radiant_panel_electric_power"@ => p.power,
        "radiant_panel_plr"@ => p.plr,
        "radiant_output"@ => absolute(p.radiant_output),
        "convective_output"@ => absolute(p.convective_output)
    ]
}

pub fn panel_outputs<T: Scalar>(p: &PanelState<T>) -> (r: Table<T>)
    ensures
        r@ == panel_report(*p),
{
    let mut outputs: Table<T> = Table::new();
    let heating = if gt(p.thermal_output, num(0)) {
        p.thermal_output
    } else {
        num(0)
    };
    let cooling = if lt(p.thermal_output, num(0)) {
        negated(p.thermal_output)
    } else {
        num(0)
    };
    outputs.insert("radiant_panel_heating_rate", heating);
    outputs.insert("radiant_panel_cooling_rate", cooling);
    outputs.insert("radiant_panel_electric_power", p.power);
    outputs.insert("radiant_panel_plr", p.plr);
    outputs.insert("radiant_output", absolute(p.radiant_output));
    outputs.insert("convective_output", absolute(p.convective_output));
    outputs
}

// ---------------------------------------------------------------------------
// VRF units

/// An indoor unit of a VRF system as the model gives it; nothing where a value is to be
/// sized.
pub struct VrfIndoorInput<T> {
    pub zone: String,
    pub cooling_capacity: Option<T>,
    pub heating_capacity: Option<T>,
    /// Air flow [m3/s].
    pub airflow: Option<T>,
}

/// A capacity as given, or by the peak of the zone (3 kW where it is not known) and the
/// sizing factor.
pub open spec fn vrf_capacity<T: Scalar>(
    given: Option<T>,
    peaks: Map<Seq<char>, T>,
    zone: Seq<char>,
    factor: T,
) -> T {
    match given {
        Some(capacity) => capacity,
        None => times(table::value_or(peaks, zone, num(3000)), factor),
    }
}

fn find_vrf_capacity<T: Scalar>(given: Option<T>, peaks: &Table<T>, zone: &str, factor: T) -> (r: T)
    ensures
        r == vrf_capacity(given, peaks@, zone@, factor),
{
    match given {
        Some(capacity) => capacity,
        None => times(peaks.get_or(zone, num(3000)), factor),
    }
}

/// The sizes of an indoor unit.
#[derive(Clone, Copy, Debug)]
pub struct VrfIndoorSize<T> {
    pub cooling: T,
    pub heating: T,
    pub airflow: T,
}

/// A sized capacity of an indoor unit is at least 500 W.
pub open spec fn indoor_capacity<T: Scalar>(
    given: Option<T>,
    peaks: Map<Seq<char>, T>,
    zone: Seq<char>,
    factor: T,
) -> T {
    match given {
        Some(capacity) => capacity,
        None => most(vrf_capacity(given, peaks, zone, factor), num(500)),
    }
}

/// The sizes of an indoor unit; its air flow goes with the larger capacity.
pub open spec fn indoor_size<T: Scalar>(
    unit: VrfIndoorInput<T>,
    cooling_peaks: Map<Seq<char>, T>,
    heating_peaks: Map<Seq<char>, T>,
    cooling_factor: T,
    heating_factor: T,
) -> VrfIndoorSize<T> {
    let cooling = indoor_capacity(
        unit.cooling_capacity,
        cooling_peaks,
        unit.zone@,
        cooling_factor,
    );
    let heating = indoor_capacity(
        unit.heating_capacity,
        heating_peaks,
        unit.zone@,
        heating_factor,
    );
    VrfIndoorSize {
        cooling,
        heating,
        airflow: match unit.airflow {
            Some(flow) => flow,
            None => times(most(cooling, heating), lit(5, 100_000)),
        },
    }
}

fn find_indoor_capacity<T: Scalar>(
    given: Option<T>,
    peaks: &Table<T>,
    zone: &str,
    factor: T,
) -> (r: T)
    ensures
        r == indoor_capacity(given, peaks@, zone@, factor),
{
    match given {
        Some(capacity) => capacity,
        None => most(times(peaks.get_or(zone, num(3000)), factor), num(500)),
    }
}

pub fn size_vrf_indoor<T: Scalar>(
    unit: &VrfIndoorInput<T>,
    cooling_peaks: &Table<T>,
    heating_peaks: &Table<T>,
    cooling_factor: T,
    heating_factor: T,
) -> (r: VrfIndoorSize<T>)
    ensures
        r == indoor_size(
            *unit,
            cooling_peaks@,
            heating_peaks@,
            cooling_factor,
            heating_factor,
        ),
{
    let zone = unit.zone.as_str();
    let cooling = find_indoor_capacity(unit.cooling_capacity, cooling_peaks, zone, cooling_factor);
    let heating = find_indoor_capacity(unit.heating_capacity, heating_peaks, zone, heating_factor);
    let airflow = match unit.airflow {
        Some(flow) => flow,
        None => times(most(cooling, heating), lit(5, 100_000)),
    };
    VrfIndoorSize { cooling, heating, airflow }
}

/// The cooling capacities of the first `n` indoor units, added up [W].
pub open spec fn indoor_cooling_total<T: Scalar>(
    units: Seq<VrfIndoorInput<T>>,
    peaks: Map<Seq<char>, T>,
    factor: T,
    n: nat,
) -> T
    decreases n,
{
    if n == 0 {
        num(0)
    } else {
        plus(
            indoor_cooling_total(units, peaks, factor, (n - 1) as nat),
            vrf_capacity(units[n - 1].cooling_capacity, peaks, units[n - 1].zone@, factor),
        )
    }
}

/// The heating capacities of the first `n` indoor units, added up [W].
pub open spec fn indoor_heating_total<T: Scalar>(
    units: Seq<VrfIndoorInput<T>>,
    peaks: Map<Seq<char>, T>,
    factor: T,
    n: nat,
) -> T
    decreases n,
{
    if n == 0 {
        num(0)
    } else {
        plus(
            indoor_heating_total(units, peaks, factor, (n - 1) as nat),
            vrf_capacity(units[n - 1].heating_capacity, peaks, units[n - 1].zone@, factor),
        )
    }
}

/// The cooling capacity of an outdoor unit [W]: as given, or that of all indoor units and
/// at least 1 kW.
pub fn size_vrf_cooling<T: Scalar>(
    given: Option<T>,
    units: &Vec<VrfIndoorInput<T>>,
    peaks: &Table<T>,
    factor: T,
) -> (r: T)
    ensures
        r == match given {
            Some(capacity) => capacity,
            None => most(indoor_cooling_total(units@, peaks@, factor, units@.len()), num(1000)),
        },
{
    match given {
        Some(capacity) => capacity,
        None => {
            let mut total: T = num(0);
            for i in 0..units.len()
                invariant
                    total == indoor_cooling_total(units@, peaks@, factor, i as nat),
            {
                total = plus(
                    total,
                    find_vrf_capacity(
                        units[i].cooling_capacity,
                        peaks,
                        units[i].zone.as_str(),
                        factor,
                    ),
                );
            }
            most(total, num(1000))
        },
    }
}

/// The heating capacity of an outdoor unit [W]: as given, or that of all indoor units and
/// at least 1 kW.
pub fn size_vrf_heating<T: Scalar>(
    given: Option<T>,
    units: &Vec<VrfIndoorInput<T>>,
    peaks: &Table<T>,
    factor: T,
) -> (r: T)
    ensures
        r == match given {
            Some(capacity) => capacity,
            None => most(indoor_heating_total(units@, peaks@, factor, units@.len()), num(1000)),
        },
{
    match given {
        Some(capacity) => capacity,
        None => {
            let mut total: T = num(0);
            for i in 0..units.len()
                invariant
                    total == indoor_heating_total(units@, peaks@, factor, i as nat),
            {
                total = plus(
                    total,
                    find_vrf_capacity(
                        units[i].heating_capacity,
                        peaks,
                        units[i].zone.as_str(),
                        factor,
                    ),
                );
            }
            most(total, num(1000))
        },
    }
}

} // verus!
