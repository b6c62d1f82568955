//! What is reported of zones and surfaces in a timestep.
use crate::scalar;
use crate::scalar::{gt, lit, lt, minus, num, over, plus, times, Scalar};
use crate::table;
use crate::table::Table;
use vstd::prelude::*;
use vstd::string::*;

verus! {

/// The air of a zone, and the air that flows into it [kg/s].
#[derive(Clone, Copy, Debug)]
pub struct ZoneAir<T> {
    /// Temperature [C].
    pub temp: T,
    /// Humidity ratio [kg/kg].
    pub w: T,
    /// Heat capacity of the air [J/(kg K)].
    pub cp: T,
    pub infiltration: T,
    pub ventilation: T,
    pub natural_ventilation: T,
    pub supply: T,
    /// Supply temperature [C].
    pub supply_temp: T,
    /// Supply humidity ratio [kg/kg].
    pub supply_w: T,
}

/// Heat that an air flow brings into a zone [W].
#[derive(Clone, Copy, Debug)]
pub struct AirGain<T> {
    pub sensible: T,
    pub latent: T,
}

/// The heat that a flow of air of another state brings into a zone; the latent heat of
/// water is 2.501 MJ/kg.
pub open spec fn flow_gain<T: Scalar>(zone: ZoneAir<T>, flow: T, temp: T, w: T) -> AirGain<T> {
    AirGain {
        sensible: times(times(flow, zone.cp), minus(temp, zone.temp)),
        latent: times(times(flow, num(2_501_000)), minus(w, zone.w)),
    }
}

fn find_flow_gain<T: Scalar>(zone: &ZoneAir<T>, flow: T, temp: T, w: T) -> (r: AirGain<T>)
    ensures
        r == flow_gain(*zone, flow, temp, w),
{
    AirGain {
        sensible: times(times(flow, zone.cp), minus(temp, zone.temp)),
        latent: times(times(flow, num(2_501_000)), minus(w, zone.w)),
    }
}

/// The heat that each air flow brings into a zone.
#[derive(Clone, Copy, Debug)]
pub struct ZoneGains<T> {
    pub infiltration: AirGain<T>,
    pub ventilation: AirGain<T>,
    pub natural_ventilation: AirGain<T>,
    pub hvac: AirGain<T>,
}

/// The heat that each air flow brings into a zone.
pub fn zone_gains<T: Scalar>(zone: &ZoneAir<T>, t_outdoor: T, w_outdoor: T) -> (r: ZoneGains<T>)
    ensures
        r == (ZoneGains {
            infiltration: flow_gain(*zone, zone.infiltration, t_outdoor, w_outdoor),
            ventilation: flow_gain(*zone, zone.ventilation, t_outdoor, w_outdoor),
            natural_ventilation: flow_gain(
                *zone,
                zone.natural_ventilation,
                t_outdoor,
                w_outdoor,
            ),
            hvac: flow_gain(*zone, zone.supply, zone.supply_temp, zone.supply_w),
        }),
{
    ZoneGains {
        infiltration: find_flow_gain(zone, zone.infiltration, t_outdoor, w_outdoor),
        ventilation: find_flow_gain(zone, zone.ventilation, t_outdoor, w_outdoor),
        natural_ventilation: find_flow_gain(
            zone,
            zone.natural_ventilation,
            t_outdoor,
            w_outdoor,
        ),
        hvac: find_flow_gain(zone, zone.supply, zone.supply_temp, zone.supply_w),
    }
}

/// Whether a setpoint is missed, by more than 0.2 K.
#[derive(Clone, Copy, Debug, PartialEq, Eq, Structural)]
pub struct Unmet {
    pub heating: bool,
    pub cooling: bool,
}

pub fn unmet_setpoints<T: Scalar>(temp: T, heat_sp: T, cool_sp: T) -> (r: Unmet)
    ensures
        r.heating == lt(temp, minus(heat_sp, lit(2, 10))),
        r.cooling == gt(temp, plus(cool_sp, lit(2, 10))),
{
    Unmet {
        heating: lt(temp, minus(heat_sp, lit(2, 10))),
        cooling: gt(temp, plus(cool_sp, lit(2, 10))),
    }
}

/// A surface of a zone, as comfort needs it.
#[derive(Clone, Copy, Debug)]
pub struct SurfaceTemp<T> {
    /// Net area [m2].
    pub area: T,
    /// Inside temperature [C].
    pub temp: T,
}

/// The areas, and the temperatures weighted by area, of the first `n` surfaces, added up.
pub open spec fn area_sums<T: Scalar>(surfaces: Seq<SurfaceTemp<T>>, n: nat) -> (T, T)
    decreases n,
{
    if n == 0 {
        (num(0), num(0))
    } else {
        let (area, weighted) = area_sums(surfaces, (n - 1) as nat);
        let s = surfaces[n - 1];
        (plus(area, s.area), plus(weighted, times(s.area, s.temp)))
    }
}

/// The mean radiant temperature: that of the surfaces weighted by area, or the air
/// temperature where there are none.
pub open spec fn mean_radiant<T: Scalar>(surfaces: Seq<SurfaceTemp<T>>, air_temp: T) -> T {
    let (area, weighted) = area_sums(surfaces, surfaces.len());
    if gt(area, num(0)) {
        over(weighted, area)
    } else {
        air_temp
    }
}

/// The mean radiant and the operative temperature of a zone [C].
pub fn comfort_temps<T: Scalar>(surfaces: &Vec<SurfaceTemp<T>>, air_temp: T) -> (r: (T, T))
    ensures
        r.0 == mean_radiant(surfaces@, air_temp),
        r.1 == over(plus(air_temp, mean_radiant(surfaces@, air_temp)), num(2)),
{
    let mut area: T = num(0);
    let mut weighted: T = num(0);
    for i in 0..surfaces.len()
        invariant
            (area, weighted) == area_sums(surfaces@, i as nat),
    {
        let s = surfaces[i];
        weighted = plus(weighted, times(s.area, s.temp));
        area = plus(area, s.area);
    }
    let mrt = if gt(area, num(0)) {
        over(weighted, area)
    } else {
        air_temp
    };
    (mrt, over(plus(air_temp, mrt), num(2)))
}

/// A surface of the envelope in a timestep.
pub struct SurfaceState<T> {
    pub name: String,
    /// The zone that it belongs to; empty for none.
    pub zone: String,
    pub is_window: bool,
    /// Net area [m2].
    pub net_area: T,
    pub temp_inside: T,
    pub temp_outside: T,
    /// Incident solar radiation [W/m2].
    pub incident_solar: T,
    /// Transmitted solar radiation [W].
    pub transmitted_solar: T,
    /// Conduction to the inside [W/m2].
    pub q_cond_inside: T,
    /// Convection to the inside [W/m2].
    pub q_conv_inside: T,
    /// Inside convection coefficient [W/(m2 K)].
    pub h_conv_inside: T,
}

/// The outputs of a surface; `zone_temp` is the air temperature of its zone.
pub open spec fn surface_report<T: Scalar>(s: SurfaceState<T>, zone_temp: T) -> Map<Seq<char>, T> {
    let common = Map::empty().insert("cond_inside"@, times(s.q_cond_inside, s.net_area)).insert(
        "temp_inside"@,
        s.temp_inside,
    ).insert("temp_outside"@, s.temp_outside).insert("incident_solar"@, s.incident_solar).insert(
        "conv_to_zone"@,
        times(times(s.h_conv_inside, s.net_area), minus(s.temp_inside, zone_temp)),
    ).insert("h_conv_inside"@, s.h_conv_inside);
    if s.is_window {
        common.insert("transmitted_solar"@, s.transmitted_solar).insert(
            "conv_inside"@,
            times(s.q_conv_inside, s.net_area),
        )
    } else {
        common
    }
}

pub fn surface_outputs<T: Scalar>(s: &SurfaceState<T>, zone_temp: T) -> (r: Table<T>)
    ensures
        r@ == surface_report(*s, zone_temp),
{
    let mut outputs: Table<T> = Table::new();
    outputs.insert("cond_inside", times(s.q_cond_inside, s.net_area));
    outputs.insert("temp_inside", s.temp_inside);
    outputs.insert("temp_outside", s.temp_outside);
    outputs.insert("incident_solar", s.incident_solar);
    outputs.insert(
        "conv_to_zone",
        times(times(s.h_conv_inside, s.net_area), minus(s.temp_inside, zone_temp)),
    );
    outputs.insert("h_conv_inside", s.h_conv_inside);
    if s.is_window {
        outputs.insert("transmitted_solar", s.transmitted_solar);
        outputs.insert("conv_inside", times(s.q_conv_inside, s.net_area));
    }
    outputs
}

/// What the surfaces bring into zones, by zone [W].
pub struct SurfaceTotals<T> {
    pub solar: Table<T>,
    pub opaque_conduction: Table<T>,
    pub window_conduction: Table<T>,
}

/// `sums` with `value` more under `zone`.
pub open spec fn summed<T: Scalar>(
    sums: Map<Seq<char>, T>,
    zone: Seq<char>,
    value: T,
) -> Map<Seq<char>, T> {
    sums.insert(zone, plus(table::value_or(sums, zone, num(0)), value))
}

/// Solar radiation through the first `n` surfaces, by zone.
pub open spec fn solar_by_zone<T: Scalar>(
    surfaces: Seq<SurfaceState<T>>,
    n: nat,
) -> Map<Seq<char>, T>
    decreases n,
{
    if n == 0 {
        Map::empty()
    } else {
        let rest = solar_by_zone(surfaces, (n - 1) as nat);
        let s = surfaces[n - 1];
        if s.zone@.len() > 0 {
            summed(rest, s.zone@, s.transmitted_solar)
        } else {
            rest
        }
    }
}

/// Conduction through the windows (or the opaque surfaces) among the first `n`, by zone.
pub open spec fn conduction_by_zone<T: Scalar>(
    surfaces: Seq<SurfaceState<T>>,
    windows: bool,
    n: nat,
) -> Map<Seq<char>, T>
    decreases n,
{
    if n == 0 {
        Map::empty()
    } else {
        let rest = conduction_by_zone(surfaces, windows, (n - 1) as nat);
        let s = surfaces[n - 1];
        if s.zone@.len() > 0 && s.is_window == windows {
            summed(
                rest,
                s.zone@,
                times(
                    if windows {
                        s.q_conv_inside
                    } else {
                        s.q_cond_inside
                    },
                    s.net_area,
                ),
            )
        } else {
            rest
        }
    }
}

/// Adds to what is summed up under a zone.
pub fn add_to<T: Scalar>(sums: &mut Table<T>, zone: &str, value: T)
    ensures
        final(sums)@ == summed(old(sums)@, zone@, value),
{
    let sum = plus(sums.get_or(zone, num(0)), value);
    sums.insert(zone, sum);
}

/// What the surfaces bring into each zone.
pub fn total_surfaces<T: Scalar>(surfaces: &Vec<SurfaceState<T>>) -> (r: SurfaceTotals<T>)
    ensures
        r.solar@ == solar_by_zone(surfaces@, surfaces@.len()),
        r.opaque_conduction@ == conduction_by_zone(surfaces@, false, surfaces@.len()),
        r.window_conduction@ == conduction_by_zone(surfaces@, true, surfaces@.len()),
{
    let mut solar: Table<T> = Table::new();
    let mut opaque_conduction: Table<T> = Table::new();
    let mut window_conduction: Table<T> = Table::new();
    for i in 0..surfaces.len()
        invariant
            solar@ == solar_by_zone(surfaces@, i as nat),
            opaque_conduction@ == conduction_by_zone(surfaces@, false, i as nat),
            window_conduction@ == conduction_by_zone(surfaces@, true, i as nat),
    {
        let s = &surfaces[i];
        if s.zone.as_str().unicode_len() > 0 {
            let zone = s.zone.as_str();
            add_to(&mut solar, zone, s.transmitted_solar);
            if s.is_window {
                add_to(&mut window_conduction, zone, times(s.q_conv_inside, s.net_area));
            } else {
                add_to(&mut opaque_conduction, zone, times(s.q_cond_inside, s.net_area));
            }
        }
    }
    SurfaceTotals { solar, opaque_conduction, window_conduction }
}

/// Solar gains through the first `n` surfaces that transmit any, by zone.
pub open spec fn solar_gains_by_zone<T: Scalar>(
    surfaces: Seq<SurfaceState<T>>,
    n: nat,
) -> Map<Seq<char>, T>
    decreases n,
{
    if n == 0 {
        Map::empty()
    } else {
        let rest = solar_gains_by_zone(surfaces, (n - 1) as nat);
        let s = surfaces[n - 1];
        if gt(s.transmitted_solar, num(0)) {
            summed(rest, s.zone@, s.transmitted_solar)
        } else {
            rest
        }
    }
}

/// The solar gains of each zone [W].
pub fn solar_gains<T: Scalar>(surfaces: &Vec<SurfaceState<T>>) -> (r: Table<T>)
    ensures
        r@ == solar_gains_by_zone(surfaces@, surfaces@.len()),
{
    let mut gains: Table<T> = Table::new();
    for i in 0..surfaces.len()
        invariant
            gains@ == solar_gains_by_zone(surfaces@, i as nat),
    {
        if gt(surfaces[i].transmitted_solar, num(0)) {
            add_to(&mut gains, surfaces[i].zone.as_str(), surfaces[i].transmitted_solar);
        }
    }
    gains
}

} // verus!
