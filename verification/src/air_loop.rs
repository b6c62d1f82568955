//! Air loops as the control logic sees them, and the signals that it sends them.
use crate::control::{Economizer, SatResetConfig};
use crate::scalar::{num, Scalar};
use crate::table;
use crate::table::Table;
use vstd::prelude::*;

verus! {

/// The kind of an air loop.
#[derive(Clone, Copy, Debug, PartialEq, Eq, Structural)]
pub enum AirLoopSystemType {
    /// Packaged single-zone unit.
    PszAc,
    /// Dedicated outdoor air system.
    Doas,
    /// Fan coil unit.
    Fcu,
    /// Packaged terminal air conditioner.
    Ptac,
    /// Packaged terminal heat pump.
    Pthp,
    /// Variable air volume.
    Vav,
    /// Constant-volume dual duct.
    DualDuct,
}

/// How a packaged unit controls its capacity.
#[derive(Clone, Copy, Debug, PartialEq, Eq, Structural)]
pub enum CyclingMethod {
    OnOff,
    Proportional,
}

/// When the fan of a loop runs.
#[derive(Clone, Copy, Debug, PartialEq, Eq, Structural)]
pub enum FanOperatingMode {
    /// With the coils.
    Cycling,
    /// Always.
    Continuous,
    /// At full speed whenever there is a load.
    ContinuousNoLoadOff,
}

/// The ventilation that one zone needs.
pub struct ZoneOaData<T> {
    pub zone_name: String,
    pub design_people: T,
    /// Outdoor air per person [m3/s].
    pub per_person_oa: T,
    /// Outdoor air per floor area [m3/s per m2].
    pub per_area_oa: T,
    /// Floor area [m2].
    pub floor_area: T,
    /// The schedule of occupancy; full occupancy where there is none.
    pub people_schedule: Option<String>,
}

/// The properties of an air loop that its control needs in every timestep.
pub struct LoopInfo<T> {
    pub name: String,
    pub system_type: AirLoopSystemType,
    /// Components in the order in which the air passes them.
    pub component_names: Vec<String>,
    pub fan_names: Vec<String>,
    pub served_zones: Vec<String>,
    /// Least outdoor air fraction, from 0 to 1.
    pub min_oa_fraction: T,
    /// Least flow fraction of a VAV box, from 0 to 1.
    pub min_vav_fraction: T,
    pub availability_schedule: Option<String>,
    /// Heating supply air temperature [C].
    pub heating_supply_temp: T,
    /// Cooling supply air temperature [C].
    pub cooling_supply_temp: T,
    pub cycling: CyclingMethod,
    pub fan_operating_mode: FanOperatingMode,
    /// The terminal box of each zone that has one.
    pub terminal_boxes: Table<String>,
    /// The design flow [kg/s] of the dual-duct mixing box of each zone that has one.
    pub dd_boxes: Table<T>,
    /// The user gave the least outdoor air fraction.
    pub explicit_min_oa: bool,
    pub heat_recovery_name: Option<String>,
    /// Efficiency of the boiler behind the hot-water coils.
    pub hhw_boiler_efficiency: T,
    /// Demand-controlled ventilation.
    pub dcv: bool,
    pub cooling_sat_reset: Option<SatResetConfig<T>>,
    pub heating_sat_reset: Option<SatResetConfig<T>>,
    pub zone_oa_data: Vec<ZoneOaData<T>>,
    /// Design supply flow [m3/s].
    pub design_supply_flow: T,
    pub economizer: Economizer<T>,
}

/// What the control of a loop asks of its components and zones.
pub struct ControlSignals<T> {
    /// Setpoints by component, and a few quantities of the loop under reserved names.
    pub coil_setpoints: Table<T>,
    /// Air mass flow by component [kg/s].
    pub air_mass_flows: Table<T>,
    /// Air mass flow by zone [kg/s].
    pub zone_air_flows: Table<T>,
    /// Supply temperature by zone [C].
    pub zone_supply_temps: Table<T>,
    /// Load by plant component [W].
    pub plant_loads: Table<T>,
    /// Supply temperature by plant loop [C].
    pub plant_loop_setpoints: Table<T>,
    /// Supply air temperature setpoint [C], zero where the loop has none.
    pub sat_setpoint: T,
}

impl<T: Scalar> ControlSignals<T> {
    /// Signals that ask for nothing.
    pub fn new() -> (r: Self)
        ensures
            r.coil_setpoints@ == Map::<Seq<char>, T>::empty(),
            r.air_mass_flows@ == Map::<Seq<char>, T>::empty(),
            r.zone_air_flows@ == Map::<Seq<char>, T>::empty(),
            r.zone_supply_temps@ == Map::<Seq<char>, T>::empty(),
            r.plant_loads@ == Map::<Seq<char>, T>::empty(),
            r.plant_loop_setpoints@ == Map::<Seq<char>, T>::empty(),
            r.sat_setpoint == num::<T>(0),
    {
        ControlSignals {
            coil_setpoints: Table::new(),
            air_mass_flows: Table::new(),
            zone_air_flows: Table::new(),
            zone_supply_temps: Table::new(),
            plant_loads: Table::new(),
            plant_loop_setpoints: Table::new(),
            sat_setpoint: num(0),
        }
    }
}

} // verus!
