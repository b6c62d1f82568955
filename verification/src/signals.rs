//! Control signals of packaged units, outdoor air systems and fan coils.
use crate::air_loop::{
    AirLoopSystemType, ControlSignals, CyclingMethod, FanOperatingMode, LoopInfo,
};
use crate::control;
use crate::control::{
    apply_coil_rule, cooling_off, economizer_available, fill_table, free_cooling_fraction,
    heating_off, hvac_mode, mixed_temp, AirReading, CoilRule, HvacMode,
};
use crate::scalar;
use crate::scalar::{
    clamp, gt, in_order, least, lit, lt, minus, most, negated, num, over, plus, times, Scalar,
};
use crate::table;
use crate::table::Table;
use crate::zones;
use crate::zones::{control_zone, max_over_zones, min_over_zones, sum_over_zones, ZoneData};
use vstd::prelude::*;
use vstd::string::*;

verus! {

pub open spec fn temp_of<T: Scalar>(zones: ZoneData<T>, zone: Seq<char>) -> T {
    table::value_or(zones.temps@, zone, num(21))
}

pub open spec fn heat_sp_of<T: Scalar>(zones: ZoneData<T>, zone: Seq<char>) -> T {
    table::value_or(zones.heat_sp@, zone, lit(211, 10))
}

pub open spec fn cool_sp_of<T: Scalar>(zones: ZoneData<T>, zone: Seq<char>) -> T {
    table::value_or(zones.cool_sp@, zone, lit(239, 10))
}

pub open spec fn cool_load_of<T: Scalar>(zones: ZoneData<T>, zone: Seq<char>) -> T {
    table::value_or(zones.cooling_loads@, zone, num(0))
}

pub open spec fn heat_load_of<T: Scalar>(zones: ZoneData<T>, zone: Seq<char>) -> T {
    table::value_or(zones.heating_loads@, zone, num(0))
}

// ---------------------------------------------------------------------------
// Packaged single-zone units

/// The mode of a packaged unit, and whether it only dehumidifies.
///
/// The predicted mode counts, or else the thermostat with the loads as a tiebreak. A
/// zone beyond the opposite setpoint turns the mode round, and a zone that is too humid
/// turns the deadband into cooling.
pub open spec fn psz_mode<T: Scalar>(
    zones: ZoneData<T>,
    zone: Seq<char>,
    modes: Map<Seq<char>, HvacMode>,
) -> (HvacMode, bool) {
    let temp = temp_of(zones, zone);
    let heat_sp = heat_sp_of(zones, zone);
    let cool_sp = cool_sp_of(zones, zone);
    let cool_load = cool_load_of(zones, zone);
    let heat_load = heat_load_of(zones, zone);
    let predicted = if modes.contains_key(zone) {
        modes[zone]
    } else if gt(temp, cool_sp) {
        HvacMode::Cooling
    } else if lt(temp, heat_sp) {
        HvacMode::Heating
    } else if gt(cool_load, heat_load) && gt(cool_load, num(100)) {
        HvacMode::Cooling
    } else if gt(heat_load, cool_load) && gt(heat_load, num(100)) {
        HvacMode::Heating
    } else {
        HvacMode::Deadband
    };
    let guarded = if predicted == HvacMode::Heating && gt(temp, cool_sp) {
        HvacMode::Cooling
    } else if predicted == HvacMode::Cooling && lt(temp, heat_sp) {
        HvacMode::Heating
    } else {
        predicted
    };
    if guarded == HvacMode::Deadband && zones::too_humid(zones, zone) {
        (HvacMode::Cooling, true)
    } else {
        (guarded, false)
    }
}

fn pick_psz_mode<T: Scalar>(
    zones: &ZoneData<T>,
    zone: &str,
    modes: &Table<HvacMode>,
) -> (r: (HvacMode, bool))
    ensures
        r == psz_mode(*zones, zone@, modes@),
{
    let temp = zones.temps.get_or(zone, num(21));
    let heat_sp = zones.heat_sp.get_or(zone, lit(211, 10));
    let cool_sp = zones.cool_sp.get_or(zone, lit(239, 10));
    let cool_load = zones.cooling_loads.get_or(zone, num(0));
    let heat_load = zones.heating_loads.get_or(zone, num(0));
    let predicted = match modes.get(zone) {
        Some(mode) => *mode,
        None => if gt(temp, cool_sp) {
            HvacMode::Cooling
        } else if lt(temp, heat_sp) {
            HvacMode::Heating
        } else if gt(cool_load, heat_load) && gt(cool_load, num(100)) {
            HvacMode::Cooling
        } else if gt(heat_load, cool_load) && gt(heat_load, num(100)) {
            HvacMode::Heating
        } else {
            HvacMode::Deadband
        },
    };
    let guarded = if predicted == HvacMode::Heating && gt(temp, cool_sp) {
        HvacMode::Cooling
    } else if predicted == HvacMode::Cooling && lt(temp, heat_sp) {
        HvacMode::Heating
    } else {
        predicted
    };
    if guarded == HvacMode::Deadband && zones.is_too_humid(zone) {
        (HvacMode::Cooling, true)
    } else {
        (guarded, false)
    }
}

/// The discharge temperature of a packaged unit in heating: fixed for on/off control,
/// and for proportional control between the setpoint and the supply temperature, by the
/// share of an error band of 5 K.
pub open spec fn heating_discharge<T: Scalar>(li: LoopInfo<T>, heat_sp: T, temp: T) -> T {
    let error = most(minus(heat_sp, temp), num(0));
    match li.cycling {
        CyclingMethod::OnOff => li.heating_supply_temp,
        CyclingMethod::Proportional => clamp(
            plus(
                heat_sp,
                times(
                    minus(li.heating_supply_temp, heat_sp),
                    least(over(error, num(5)), num(1)),
                ),
            ),
            heat_sp,
            li.heating_supply_temp,
        ),
    }
}

/// The coil setpoints of a packaged unit. The cooling coil runs at full capacity, or
/// just below the zone temperature where it only dehumidifies.
pub open spec fn psz_rule<T: Scalar>(
    li: LoopInfo<T>,
    zones: ZoneData<T>,
    zone: Seq<char>,
    mode: HvacMode,
    dehumidify: bool,
) -> CoilRule<T> {
    let temp = temp_of(zones, zone);
    let heating = heating_discharge(li, heat_sp_of(zones, zone), temp);
    let cooling = if mode != HvacMode::Cooling {
        cooling_off()
    } else if dehumidify {
        minus(temp, lit(5, 10))
    } else {
        negated(num(10))
    };
    CoilRule {
        cooling_first: mode == HvacMode::Cooling,
        furnaces: true,
        heat_pump: Some(
            if mode == HvacMode::Heating {
                heating
            } else {
                cooling
            },
        ),
        heating: if mode == HvacMode::Heating {
            heating
        } else {
            heating_off()
        },
        cooling,
        humidifier: zones::humidify_to(zones, zone),
    }
}

/// The economizer of a packaged unit sets the outdoor air fraction.
pub open spec fn economizer_modulates<T: Scalar>(
    li: LoopInfo<T>,
    temp: T,
    outdoor: AirReading<T>,
    return_enthalpy: T,
    mode: HvacMode,
) -> bool {
    let return_air = AirReading { temp, enthalpy: return_enthalpy };
    &&& control::outdoor_air_helps(li.economizer, outdoor, return_air)
    &&& mode != HvacMode::Heating
    &&& gt(minus(temp, outdoor.temp), lit(1, 10))
}

/// The outdoor air fraction of a packaged unit: its economizer works unless it heats.
pub open spec fn psz_oa_fraction<T: Scalar>(
    li: LoopInfo<T>,
    temp: T,
    outdoor: AirReading<T>,
    return_enthalpy: T,
    min_oa: T,
    mode: HvacMode,
) -> T {
    let return_air = AirReading { temp, enthalpy: return_enthalpy };
    if control::outdoor_air_helps(li.economizer, outdoor, return_air) && mode
        != HvacMode::Heating {
        free_cooling_fraction(temp, outdoor.temp, li.cooling_supply_temp, min_oa)
    } else {
        min_oa
    }
}

/// A packaged unit has a range for each value that it sets.
pub open spec fn psz_in_order<T: Scalar>(
    li: LoopInfo<T>,
    zones: ZoneData<T>,
    modes: Map<Seq<char>, HvacMode>,
    outdoor: AirReading<T>,
    return_enthalpy: T,
    min_oa: T,
) -> bool {
    let zone = zones::first_zone(li.served_zones@);
    let mode = psz_mode(zones, zone, modes).0;
    &&& economizer_modulates(li, temp_of(zones, zone), outdoor, return_enthalpy, mode) ==> in_order(
        min_oa,
        num(1),
    )
    &&& li.cycling == CyclingMethod::Proportional ==> in_order(
        heat_sp_of(zones, zone),
        li.heating_supply_temp,
    )
}

/// Whether a packaged unit has a range for each value that it sets.
pub fn psz_has_ranges<T: Scalar>(
    li: &LoopInfo<T>,
    zones: &ZoneData<T>,
    modes: &Table<HvacMode>,
    outdoor: &AirReading<T>,
    return_enthalpy: T,
    min_oa: T,
) -> (r: bool)
    ensures
        r == psz_in_order(*li, *zones, modes@, *outdoor, return_enthalpy, min_oa),
{
    let zone_name = control_zone(&li.served_zones);
    let zone = zone_name.as_str();
    let temp = zones.temps.get_or(zone, num(21));
    let heat_sp = zones.heat_sp.get_or(zone, lit(211, 10));
    let (mode, _dehumidify) = pick_psz_mode(zones, zone, modes);
    let return_air = AirReading { temp, enthalpy: return_enthalpy };
    let modulates = economizer_available(&li.economizer, outdoor, &return_air) && mode
        != HvacMode::Heating && gt(minus(temp, outdoor.temp), lit(1, 10));
    (!modulates || in_order(min_oa, num(1))) && (li.cycling != CyclingMethod::Proportional
        || in_order(heat_sp, li.heating_supply_temp))
}

/// `r` asks nothing of single zones or of the plant.
pub open spec fn asks_components_only<T: Scalar>(r: ControlSignals<T>) -> bool {
    &&& r.zone_air_flows@ == Map::<Seq<char>, T>::empty()
    &&& r.zone_supply_temps@ == Map::<Seq<char>, T>::empty()
    &&& r.plant_loads@ == Map::<Seq<char>, T>::empty()
    &&& r.plant_loop_setpoints@ == Map::<Seq<char>, T>::empty()
    &&& r.sat_setpoint == num::<T>(0)
}

/// `r` are the signals of a packaged single-zone unit.
pub open spec fn psz_signals<T: Scalar>(
    r: ControlSignals<T>,
    li: LoopInfo<T>,
    zones: ZoneData<T>,
    modes: Map<Seq<char>, HvacMode>,
    outdoor: AirReading<T>,
    return_enthalpy: T,
    min_oa: T,
) -> bool {
    let zone = zones::first_zone(li.served_zones@);
    let temp = temp_of(zones, zone);
    let (mode, dehumidify) = psz_mode(zones, zone, modes);
    let oa = psz_oa_fraction(li, temp, outdoor, return_enthalpy, min_oa, mode);
    let flow = most(
        zones::zone_total(
            li.served_zones@,
            zones.design_flows@,
            lit(5, 10),
            li.served_zones@.len(),
        ),
        lit(1, 100),
    );
    &&& r.coil_setpoints@ == control::coil_setpoints(
        li.component_names@,
        psz_rule(li, zones, zone, mode, dehumidify),
    ).insert("__pszac_mixed_air_temp__"@, mixed_temp(temp, outdoor.temp, oa)).insert(
        "__oa_fraction__"@,
        oa,
    ).insert("__return_air_temp__"@, temp).insert("__plr__"@, num(1))
    &&& r.air_mass_flows@ == control::same_for_all(li.component_names@, flow)
    &&& asks_components_only(r)
}

/// Control of a packaged single-zone unit by the thermostat of its first zone.
///
/// `outdoor` is the outdoor air and `return_enthalpy` the enthalpy of the air of the
/// control zone. The part load follows after the components have run, so it is one here.
pub fn build_psz_signals<T: Scalar>(
    li: &LoopInfo<T>,
    zones: &ZoneData<T>,
    modes: &Table<HvacMode>,
    outdoor: &AirReading<T>,
    return_enthalpy: T,
    effective_min_oa: T,
) -> (r: ControlSignals<T>)
    requires
        psz_in_order(*li, *zones, modes@, *outdoor, return_enthalpy, effective_min_oa),
    ensures
        psz_signals(r, *li, *zones, modes@, *outdoor, return_enthalpy, effective_min_oa),
{
    let zone_name = control_zone(&li.served_zones);
    let zone = zone_name.as_str();
    let temp = zones.temps.get_or(zone, num(21));
    let heat_sp = zones.heat_sp.get_or(zone, lit(211, 10));
    let (mode, dehumidify) = pick_psz_mode(zones, zone, modes);
    let flow = most(
        sum_over_zones(&li.served_zones, &zones.design_flows, lit(5, 10)),
        lit(1, 100),
    );
    let heating_dat = match li.cycling {
        CyclingMethod::OnOff => li.heating_supply_temp,
        CyclingMethod::Proportional => {
            let error = most(minus(heat_sp, temp), num(0));
            clamp(
                plus(
                    heat_sp,
                    times(
                        minus(li.heating_supply_temp, heat_sp),
                        least(over(error, num(5)), num(1)),
                    ),
                ),
                heat_sp,
                li.heating_supply_temp,
            )
        },
    };
    let cooling_sp = if mode != HvacMode::Cooling {
        cooling_off()
    } else if dehumidify {
        minus(temp, lit(5, 10))
    } else {
        negated(num(10))
    };
    let is_heating = mode == HvacMode::Heating;
    let rule = CoilRule {
        cooling_first: mode == HvacMode::Cooling,
        furnaces: true,
        heat_pump: Some(
            if is_heating {
                heating_dat
            } else {
                cooling_sp
            },
        ),
        heating: if is_heating {
            heating_dat
        } else {
            heating_off()
        },
        cooling: cooling_sp,
        humidifier: zones.humidify(zone),
    };
    let return_air = AirReading { temp, enthalpy: return_enthalpy };
    let oa_frac = if economizer_available(&li.economizer, outdoor, &return_air) && !is_heating {
        free_cooling_fraction(temp, outdoor.temp, li.cooling_supply_temp, effective_min_oa)
    } else {
        effective_min_oa
    };
    let mut coil_setpoints = apply_coil_rule(&li.component_names, &rule);
    coil_setpoints.insert("__pszac_mixed_air_temp__", mixed_temp(temp, outdoor.temp, oa_frac));
    coil_setpoints.insert("__oa_fraction__", oa_frac);
    coil_setpoints.insert("__return_air_temp__", temp);
    coil_setpoints.insert("__plr__", num(1));
    let empty = ControlSignals::new();
    ControlSignals {
        coil_setpoints,
        air_mass_flows: fill_table(&li.component_names, flow),
        ..empty
    }
}

// ---------------------------------------------------------------------------
// Dedicated outdoor air systems

/// The setpoints of an outdoor air system: 2 K above the highest heating setpoint and
/// 2 K below the lowest cooling setpoint, though not below 14 C. A coil is off where the
/// outdoor air needs none of it.
pub open spec fn doas_rule<T: Scalar>(
    li: LoopInfo<T>,
    zones: ZoneData<T>,
    t_outdoor: T,
) -> CoilRule<T> {
    let served = li.served_zones@;
    let heat_to = plus(zones::zone_max(served, zones.heat_sp@, num(21), served.len()), num(2));
    let cool_to = most(
        minus(zones::zone_min(served, zones.cool_sp@, num(24), served.len()), num(2)),
        num(14),
    );
    CoilRule {
        cooling_first: false,
        furnaces: false,
        heat_pump: None,
        heating: if lt(t_outdoor, heat_to) {
            heat_to
        } else {
            heating_off()
        },
        cooling: if gt(t_outdoor, cool_to) {
            cool_to
        } else {
            cooling_off()
        },
        humidifier: None,
    }
}

/// The ventilation flow of an outdoor air system: 30 % of the design flows.
pub open spec fn doas_flow<T: Scalar>(li: LoopInfo<T>, zones: ZoneData<T>) -> T {
    let served = li.served_zones@;
    most(
        times(
            zones::zone_total(served, zones.design_flows@, lit(1, 10), served.len()),
            lit(30, 100),
        ),
        lit(5, 100),
    )
}

/// `r` are the signals of a dedicated outdoor air system.
pub open spec fn doas_signals<T: Scalar>(
    r: ControlSignals<T>,
    li: LoopInfo<T>,
    zones: ZoneData<T>,
    t_outdoor: T,
) -> bool {
    &&& r.coil_setpoints@ == control::coil_setpoints(
        li.component_names@,
        doas_rule(li, zones, t_outdoor),
    ).insert("__oa_fraction__"@, num(1))
    &&& r.air_mass_flows@ == control::same_for_all(li.component_names@, doas_flow(li, zones))
    &&& asks_components_only(r)
}

/// Control of a dedicated outdoor air system: all outdoor air, fixed setpoints, always on.
pub fn build_doas_signals<T: Scalar>(
    li: &LoopInfo<T>,
    zones: &ZoneData<T>,
    t_outdoor: T,
) -> (r: ControlSignals<T>)
    ensures
        doas_signals(r, *li, *zones, t_outdoor),
{
    let served = &li.served_zones;
    let flow = most(
        times(sum_over_zones(served, &zones.design_flows, lit(1, 10)), lit(30, 100)),
        lit(5, 100),
    );
    let heat_to = plus(max_over_zones(served, &zones.heat_sp, num(21)), num(2));
    let cool_to = most(minus(min_over_zones(served, &zones.cool_sp, num(24)), num(2)), num(14));
    let rule = CoilRule {
        cooling_first: false,
        furnaces: false,
        heat_pump: None,
        heating: if lt(t_outdoor, heat_to) {
            heat_to
        } else {
            heating_off()
        },
        cooling: if gt(t_outdoor, cool_to) {
            cool_to
        } else {
            cooling_off()
        },
        humidifier: None,
    };
    let mut coil_setpoints = apply_coil_rule(&li.component_names, &rule);
    coil_setpoints.insert("__oa_fraction__", num(1));
    let empty = ControlSignals::new();
    ControlSignals {
        coil_setpoints,
        air_mass_flows: fill_table(&li.component_names, flow),
        ..empty
    }
}

// ---------------------------------------------------------------------------
// Fan coils and packaged terminal units

/// A packaged terminal unit, with or without a heat pump.
#[verifier::allow_in_spec]
pub fn is_terminal_unit(system_type: AirLoopSystemType) -> bool
    returns
        system_type == AirLoopSystemType::Ptac || system_type == AirLoopSystemType::Pthp,
{
    system_type == AirLoopSystemType::Ptac || system_type == AirLoopSystemType::Pthp
}

/// The mode of a fan coil, and whether it only dehumidifies.
pub open spec fn fcu_mode<T: Scalar>(
    zones: ZoneData<T>,
    zone: Seq<char>,
    modes: Map<Seq<char>, HvacMode>,
) -> (HvacMode, bool) {
    let mode = if modes.contains_key(zone) {
        modes[zone]
    } else {
        hvac_mode(temp_of(zones, zone), heat_sp_of(zones, zone), cool_sp_of(zones, zone))
    };
    if mode == HvacMode::Deadband && zones::too_humid(zones, zone) {
        (HvacMode::Cooling, true)
    } else {
        (mode, false)
    }
}

/// From 30 % to 100 % with an error of up to 5 K.
#[verifier::allow_in_spec]
pub fn fan_speed<T: Scalar>(error: T) -> T
    returns
        plus(
            lit(30, 100),
            times(lit(70, 100), over(clamp(error, num(0), num(5)), num(5))),
        ),
{
    plus(lit(30, 100), times(lit(70, 100), over(clamp(error, num(0), num(5)), num(5))))
}

/// The air flow of a fan coil. A terminal unit runs at design flow or not at all; in the
/// deadband only its continuous fan runs. A fan coil modulates, with 20 % in the deadband.
pub open spec fn fcu_flow<T: Scalar>(
    li: LoopInfo<T>,
    zones: ZoneData<T>,
    zone: Seq<char>,
    mode: HvacMode,
) -> T {
    let design = table::value_or(zones.design_flows@, zone, lit(3, 10));
    let temp = temp_of(zones, zone);
    if is_terminal_unit(li.system_type) {
        if mode == HvacMode::Deadband && li.fan_operating_mode != FanOperatingMode::Continuous {
            num(0)
        } else {
            design
        }
    } else {
        match mode {
            HvacMode::Deadband => times(design, lit(20, 100)),
            HvacMode::Heating => times(design, fan_speed(minus(heat_sp_of(zones, zone), temp))),
            HvacMode::Cooling => times(design, fan_speed(minus(temp, cool_sp_of(zones, zone)))),
        }
    }
}

/// The coil setpoints of a fan coil. A terminal unit aims at the supply temperatures of
/// its loop; a fan coil goes past the setpoint by the error of the zone.
pub open spec fn fcu_rule<T: Scalar>(
    li: LoopInfo<T>,
    zones: ZoneData<T>,
    zone: Seq<char>,
    mode: HvacMode,
    dehumidify: bool,
) -> CoilRule<T> {
    let temp = temp_of(zones, zone);
    let heat_sp = heat_sp_of(zones, zone);
    let cool_sp = cool_sp_of(zones, zone);
    let terminal = is_terminal_unit(li.system_type);
    CoilRule {
        cooling_first: mode == HvacMode::Cooling,
        furnaces: false,
        heat_pump: None,
        heating: if mode != HvacMode::Heating {
            heating_off()
        } else if terminal {
            li.heating_supply_temp
        } else {
            clamp(plus(heat_sp, least(minus(heat_sp, temp), num(14))), heat_sp, num(45))
        },
        cooling: if mode != HvacMode::Cooling {
            cooling_off()
        } else if dehumidify {
            minus(temp, lit(5, 10))
        } else if terminal {
            li.cooling_supply_temp
        } else {
            clamp(minus(cool_sp, least(minus(temp, cool_sp), num(10))), num(12), cool_sp)
        },
        humidifier: zones::humidify_to(zones, zone),
    }
}

/// A fan coil unit has a range for each setpoint that it sets. One without components sets
/// none.
pub open spec fn fcu_in_order<T: Scalar>(
    li: LoopInfo<T>,
    zones: ZoneData<T>,
    modes: Map<Seq<char>, HvacMode>,
) -> bool {
    let zone = zones::first_zone(li.served_zones@);
    let mode = fcu_mode(zones, zone, modes).0;
    !is_terminal_unit(li.system_type) && li.component_names@.len() > 0 ==> {
        &&& mode == HvacMode::Heating ==> in_order(heat_sp_of(zones, zone), num(45))
        &&& mode == HvacMode::Cooling ==> in_order(num(12), cool_sp_of(zones, zone))
    }
}

/// Whether a fan coil unit has a range for each setpoint that it sets.
pub fn fcu_has_ranges<T: Scalar>(
    li: &LoopInfo<T>,
    zones: &ZoneData<T>,
    modes: &Table<HvacMode>,
) -> (r: bool)
    ensures
        r == fcu_in_order(*li, *zones, modes@),
{
    if is_terminal_unit(li.system_type) || li.component_names.len() == 0 {
        return true;
    }
    let zone_name = control_zone(&li.served_zones);
    let zone = zone_name.as_str();
    let temp = zones.temps.get_or(zone, num(21));
    let heat_sp = zones.heat_sp.get_or(zone, lit(211, 10));
    let cool_sp = zones.cool_sp.get_or(zone, lit(239, 10));
    let base_mode = match modes.get(zone) {
        Some(mode) => *mode,
        None => hvac_mode(temp, heat_sp, cool_sp),
    };
    let dehumidify = base_mode == HvacMode::Deadband && zones.is_too_humid(zone);
    if base_mode == HvacMode::Heating {
        in_order(heat_sp, num(45))
    } else if base_mode == HvacMode::Cooling || dehumidify {
        in_order(num(12), cool_sp)
    } else {
        true
    }
}

/// `r` are the signals of a fan coil or packaged terminal unit.
pub open spec fn fcu_signals<T: Scalar>(
    r: ControlSignals<T>,
    li: LoopInfo<T>,
    zones: ZoneData<T>,
    modes: Map<Seq<char>, HvacMode>,
    t_outdoor: T,
) -> bool {
    let zone = zones::first_zone(li.served_zones@);
    let temp = temp_of(zones, zone);
    let (mode, dehumidify) = fcu_mode(zones, zone, modes);
    let oa = if is_terminal_unit(li.system_type) {
        li.min_oa_fraction
    } else {
        num(0)
    };
    &&& r.coil_setpoints@ == control::coil_setpoints(
        li.component_names@,
        fcu_rule(li, zones, zone, mode, dehumidify),
    ).insert("__fcu_recirculation_temp__"@, mixed_temp(temp, t_outdoor, oa)).insert(
        "__oa_fraction__"@,
        oa,
    )
    &&& r.air_mass_flows@ == control::same_for_all(
        li.component_names@,
        fcu_flow(li, zones, zone, mode),
    )
    &&& asks_components_only(r)
}

/// Control of a fan coil or packaged terminal unit by the thermostat of its zone.
pub fn build_fcu_signals<T: Scalar>(
    li: &LoopInfo<T>,
    zones: &ZoneData<T>,
    modes: &Table<HvacMode>,
    t_outdoor: T,
) -> (r: ControlSignals<T>)
    requires
        fcu_in_order(*li, *zones, modes@),
    ensures
        fcu_signals(r, *li, *zones, modes@, t_outdoor),
{
    let zone_name = control_zone(&li.served_zones);
    let zone = zone_name.as_str();
    let temp = zones.temps.get_or(zone, num(21));
    let heat_sp = zones.heat_sp.get_or(zone, lit(211, 10));
    let cool_sp = zones.cool_sp.get_or(zone, lit(239, 10));
    let design = zones.design_flows.get_or(zone, lit(3, 10));
    let base_mode = match modes.get(zone) {
        Some(mode) => *mode,
        None => hvac_mode(temp, heat_sp, cool_sp),
    };
    let dehumidify = base_mode == HvacMode::Deadband && zones.is_too_humid(zone);
    let mode = if dehumidify {
        HvacMode::Cooling
    } else {
        base_mode
    };
    let terminal = is_terminal_unit(li.system_type);
    let flow = if terminal {
        if mode == HvacMode::Deadband && li.fan_operating_mode != FanOperatingMode::Continuous {
            num(0)
        } else {
            design
        }
    } else {
        match mode {
            HvacMode::Deadband => times(design, lit(20, 100)),
            HvacMode::Heating => times(design, fan_speed(minus(heat_sp, temp))),
            HvacMode::Cooling => times(design, fan_speed(minus(temp, cool_sp))),
        }
    };
    let rule = CoilRule {
        cooling_first: mode == HvacMode::Cooling,
        furnaces: false,
        heat_pump: None,
        heating: if mode != HvacMode::Heating {
            heating_off()
        } else if terminal {
            li.heating_supply_temp
        } else {
            clamp(plus(heat_sp, least(minus(heat_sp, temp), num(14))), heat_sp, num(45))
        },
        cooling: if mode != HvacMode::Cooling {
            cooling_off()
        } else if dehumidify {
            minus(temp, lit(5, 10))
        } else if terminal {
            li.cooling_supply_temp
        } else {
            clamp(minus(cool_sp, least(minus(temp, cool_sp), num(10))), num(12), cool_sp)
        },
        humidifier: zones.humidify(zone),
    };
    let oa_frac = if terminal {
        li.min_oa_fraction
    } else {
        num(0)
    };
    let mut coil_setpoints = apply_coil_rule(&li.component_names, &rule);
    coil_setpoints.insert("__fcu_recirculation_temp__", mixed_temp(temp, t_outdoor, oa_frac));
    coil_setpoints.insert("__oa_fraction__", oa_frac);
    let empty = ControlSignals::new();
    ControlSignals {
        coil_setpoints,
        air_mass_flows: fill_table(&li.component_names, flow),
        ..empty
    }
}

} // verus!
