//! What variable-air-volume and dual-duct systems supply to their zones, and what every air loop
//! is told, on fixed-point numbers.
use crate::air_loop::{AirLoopSystemType, ControlSignals, LoopInfo, ZoneOaData};
use crate::air_side;
use crate::air_side::{AirStream, LoopInputs};
use crate::control;
use crate::control::{AirReading, HvacMode};
use crate::dual_duct;
use crate::dual_duct::{BoxRequest, BoxSupply};
use crate::fixed::Fixed;
use crate::rounding::{product_rounds_down, quotient_rounds_down, whole_product_is_exact};
use crate::scalar::{lit, num, plus, Scalar};
use crate::signal_laws::{
    cool_to, defaults_in_units, every_component_is_set, heat_to, humidity_limits_are_watched,
    is_humid, milli, or_else, temp_in,
};
use crate::signals;
use crate::vav;
use crate::vav::OutdoorAir;
use crate::zones;
use crate::zones::ZoneData;
use vstd::prelude::*;

verus! {

// ---------------------------------------------------------------------------
// Supply temperature

/// What is known of a zone that calls for cold air: its temperature, its design flow and its load
/// are of the size of a zone.
pub open spec fn is_ordinary(z: ZoneData<Fixed>, zone: Seq<char>) -> bool {
    &&& -1_000_000_000_000 <= temp_in(z, zone) <= 1_000_000_000_000
    &&& 1_000_000 <= or_else(z.design_flows@, zone, milli(500)).units <= 1_000_000_000_000
    &&& 0 <= or_else(z.cooling_loads@, zone, milli(0)).units <= 1_000_000_000_000_000
}

/// A zone asks for cold air: it is above its cooling setpoint and has a cooling load of more than
/// 100 W.
pub open spec fn asks_for_cold(z: ZoneData<Fixed>, zone: Seq<char>) -> bool {
    temp_in(z, zone) > cool_to(z, zone) && or_else(z.cooling_loads@, zone, milli(0)).units
        > 100_000_000_000
}

/// The supply temperature is cold enough for every zone that asks for cold air: at design flow,
/// with 1005 J/(kg K), the zone gets its load, but for rounding. It is no colder than one of them
/// needs, and 18 C where none asks.
pub proof fn supply_is_cold_enough_for_every_zone(
    served: Seq<String>,
    z: ZoneData<Fixed>,
    n: nat,
)
    requires
        n <= served.len(),
        forall|i: int| 0 <= i < n ==> is_ordinary(z, (#[trigger] served[i])@),
    ensures
        ({
            let supply = vav::supply_needed(served, z, n).units;
            &&& supply <= 18_000_000_000
            &&& forall|i: int|
                0 <= i < n && asks_for_cold(z, (#[trigger] served[i])@) ==> {
                    let zone = served[i]@;
                    let capacity = 1005 * or_else(z.design_flows@, zone, milli(500)).units;
                    (temp_in(z, zone) - supply + 1) * capacity > 1_000_000_000 * or_else(
                        z.cooling_loads@,
                        zone,
                        milli(0),
                    ).units
                }
            &&& supply == 18_000_000_000 || exists|i: int|
                0 <= i < n && asks_for_cold(z, (#[trigger] served[i])@) && {
                    let zone = served[i]@;
                    let capacity = 1005 * or_else(z.design_flows@, zone, milli(500)).units;
                    (temp_in(z, zone) - supply) * capacity <= 1_000_000_000 * or_else(
                        z.cooling_loads@,
                        zone,
                        milli(0),
                    ).units
                }
        }),
    decreases n,
{
    defaults_in_units();
    assert(num::<Fixed>(18).units == 18_000_000_000);
    if n > 0 {
        let m = (n - 1) as nat;
        supply_is_cold_enough_for_every_zone(served, z, m);
        let zone = served[n - 1]@;
        assert(is_ordinary(z, zone));
        let before = vav::supply_needed(served, z, m).units as int;
        let after = vav::supply_needed(served, z, n).units as int;
        let design = or_else(z.design_flows@, zone, milli(500));
        let load = or_else(z.cooling_loads@, zone, milli(0));
        let capacity = 1005 * design.units;
        if asks_for_cold(z, zone) {
            assert(num::<Fixed>(1005).units == 1_005_000_000_000);
            whole_product_is_exact(design, 1005, num(1005));
            let cap = design.product(num(1005));
            assert(cap.units == capacity);
            assert(load.units <= 9_000_000_000 * cap.units);
            quotient_rounds_down(load, cap);
            let q = load.quotient(cap).units as int;
            let t = temp_in(z, zone);
            assert(q <= 1_000_000_000_000_000) by (nonlinear_arith)
                requires
                    q * capacity <= 1_000_000_000 * load.units,
                    load.units <= 1_000_000_000_000_000,
                    capacity >= 1_005_000_000,
            ;
            let needed = t - q;
            assert(after == if needed < before {
                needed
            } else {
                before
            });
            assert((t - after + 1) * capacity > 1_000_000_000 * load.units) by (nonlinear_arith)
                requires
                    after <= t - q,
                    1_000_000_000 * load.units < q * capacity + capacity,
                    capacity > 0,
            ;
            if after == needed {
                assert((t - after) * capacity == q * capacity);
                assert(asks_for_cold(z, served[n - 1]@));
            }
        } else {
            assert(after == before);
        }
        assert forall|i: int| 0 <= i < n && asks_for_cold(z, (#[trigger] served[i])@) implies {
            let zone = served[i]@;
            let capacity = 1005 * or_else(z.design_flows@, zone, milli(500)).units;
            (temp_in(z, zone) - after + 1) * capacity > 1_000_000_000 * or_else(
                z.cooling_loads@,
                zone,
                milli(0),
            ).units
        } by {
            let name = served[i]@;
            assert(is_ordinary(z, name));
            let c = 1005 * or_else(z.design_flows@, name, milli(500)).units;
            if i < m {
                let t = temp_in(z, name);
                assert((t - after + 1) * c >= (t - before + 1) * c) by (nonlinear_arith)
                    requires
                        after <= before,
                        c > 0,
                ;
            }
        }
        if after == before && before != 18_000_000_000 {
            let i = choose|i: int|
                0 <= i < m && asks_for_cold(z, (#[trigger] served[i])@) && {
                    let zone = served[i]@;
                    let capacity = 1005 * or_else(z.design_flows@, zone, milli(500)).units;
                    (temp_in(z, zone) - before) * capacity <= 1_000_000_000 * or_else(
                        z.cooling_loads@,
                        zone,
                        milli(0),
                    ).units
                };
            assert(asks_for_cold(z, served[i]@));
        }
    }
}

/// The setpoint of the supply air is what the zones need, between the cooling supply temperature of
/// the loop and 18 C.
pub proof fn supply_setpoint_is_what_is_needed(li: LoopInfo<Fixed>, z: ZoneData<Fixed>)
    requires
        li.cooling_supply_temp.units <= 18_000_000_000,
    ensures
        ({
            let needed = vav::supply_needed(
                li.served_zones@,
                z,
                li.served_zones@.len(),
            ).units;
            let r = vav::supply_setpoint(li, z).units;
            &&& needed <= li.cooling_supply_temp.units ==> r == li.cooling_supply_temp.units
            &&& needed >= 18_000_000_000 ==> r == 18_000_000_000
            &&& li.cooling_supply_temp.units <= needed <= 18_000_000_000 ==> r == needed
        }),
{
    assert(num::<Fixed>(18).units == 18_000_000_000);
}

// ---------------------------------------------------------------------------
// Zone boxes

/// A box heats a zone below its heating setpoint, cools one above its cooling setpoint, and cools a
/// zone between the two only where that is too humid.
pub proof fn box_follows_its_zone(z: ZoneData<Fixed>, zone: Seq<char>)
    requires
        heat_to(z, zone) <= cool_to(z, zone),
    ensures
        ({
            let mode = vav::box_mode(z, zone);
            let t = temp_in(z, zone);
            &&& t < heat_to(z, zone) ==> mode == HvacMode::Heating
            &&& t > cool_to(z, zone) ==> mode == HvacMode::Cooling
            &&& heat_to(z, zone) <= t <= cool_to(z, zone) ==> mode == (if is_humid(z, zone) {
                HvacMode::Cooling
            } else {
                HvacMode::Deadband
            })
        }),
{
    defaults_in_units();
    humidity_limits_are_watched(z, zone);
}

/// A box that ramps passes its least share of the design flow at the setpoint, and its top share 5 K
/// beyond it and further.
pub proof fn ramp_goes_from_least_to_top(design: Fixed, least: Fixed, top: Fixed, error: Fixed)
    requires
        0 <= least.units <= 1_000_000_000,
        0 <= top.units <= 1_000_000_000,
    ensures
        error.units <= 0 ==> vav::ramped_flow(design, least, top, error) == design.product(least),
        error.units >= 5_000_000_000 ==> vav::ramped_flow(design, least, top, error)
            == design.product(top),
{
    assert(num::<Fixed>(0).units == 0);
    assert(num::<Fixed>(5).units == 5_000_000_000);
    let way = top.difference(least);
    if error.units <= 0 {
        let share = num::<Fixed>(0).quotient(num(5));
        assert(share.units == 0);
        assert(way.units * 0 == 0);
        assert(way.product(share).units == 0);
        assert(least.sum(way.product(share)) == least);
    }
    if error.units >= 5_000_000_000 {
        let share = num::<Fixed>(5).quotient(num(5));
        assert(share.units == 1_000_000_000);
        whole_product_is_exact(way, 1, share);
        assert(least.sum(way.product(share)) == top);
    }
}

/// A box in the deadband passes its least flow. In heating it opens up to half the design flow by
/// how far the zone is below its setpoint; in cooling up to the whole of it by how far the zone is
/// above, where its load does not say more; a zone that is only dried gets the least flow.
pub proof fn box_opens_for_its_zone(
    z: ZoneData<Fixed>,
    zone: Seq<char>,
    least: Fixed,
    supply: Fixed,
)
    requires
        0 <= least.units <= 1_000_000_000,
        -1_000_000_000_000 <= temp_in(z, zone) <= 1_000_000_000_000,
        -1_000_000_000_000 <= heat_to(z, zone) <= cool_to(z, zone) <= 1_000_000_000_000,
    ensures
        ({
            let flow = vav::box_flow(z, zone, least, supply);
            let design = or_else(z.design_flows@, zone, milli(500));
            let t = temp_in(z, zone);
            let (cold, warm) = (heat_to(z, zone) - t, t - cool_to(z, zone));
            let unloaded = or_else(z.cooling_loads@, zone, milli(0)).units <= 100_000_000_000;
            &&& cold >= 5_000_000_000 ==> flow == design.product(milli(500))
            &&& 0 < cold < 5_000_000_000 ==> flow == vav::ramped_flow(
                design,
                least,
                milli(500),
                Fixed { units: cold as i64 },
            )
            &&& unloaded && warm >= 5_000_000_000 ==> flow == design.product(milli(1_000))
            &&& unloaded && 0 < warm < 5_000_000_000 ==> flow == vav::ramped_flow(
                design,
                least,
                milli(1_000),
                Fixed { units: warm as i64 },
            )
            &&& cold <= 0 && warm <= 0 && (unloaded || !is_humid(z, zone)) ==> flow
                == design.product(least)
        }),
{
    defaults_in_units();
    box_follows_its_zone(z, zone);
    let t = or_else(z.temps@, zone, milli(21_000));
    let design = or_else(z.design_flows@, zone, milli(500));
    let cold = or_else(z.heat_sp@, zone, milli(21_100)).difference(t);
    let warm = t.difference(or_else(z.cool_sp@, zone, milli(23_900)));
    ramp_goes_from_least_to_top(design, least, milli(500), cold);
    ramp_goes_from_least_to_top(design, least, milli(1_000), warm);
}

/// A box that cools by its load passes what carries the load at the supply temperature, with
/// 1005 J/(kg K) and a difference of 1 K at least, but for rounding, between its least flow and the
/// design flow.
pub proof fn cooling_box_carries_its_load(
    z: ZoneData<Fixed>,
    zone: Seq<char>,
    least: Fixed,
    supply: Fixed,
)
    requires
        is_ordinary(z, zone),
        -1_000_000_000_000 <= supply.units <= 1_000_000_000_000,
        temp_in(z, zone) > cool_to(z, zone) >= heat_to(z, zone),
        or_else(z.cooling_loads@, zone, milli(0)).units > 100_000_000_000,
        or_else(z.design_flows@, zone, milli(500)).product(least).units <= or_else(
            z.design_flows@,
            zone,
            milli(500),
        ).units,
    ensures
        ({
            let flow = vav::box_flow(z, zone, least, supply).units;
            let design = or_else(z.design_flows@, zone, milli(500));
            let lowest = design.product(least).units;
            let load = or_else(z.cooling_loads@, zone, milli(0)).units;
            let dt = temp_in(z, zone) - supply.units;
            let lift = if dt > 1_000_000_000 {
                dt
            } else {
                1_000_000_000
            };
            &&& lowest <= flow <= design.units
            &&& lowest < flow ==> flow * (1005 * lift) <= 1_000_000_000 * load
            &&& flow < design.units ==> (flow + 1) * (1005 * lift) > 1_000_000_000 * load
        }),
{
    defaults_in_units();
    box_follows_its_zone(z, zone);
    assert(num::<Fixed>(1005).units == 1_005_000_000_000);
    assert(num::<Fixed>(100).units == 100_000_000_000);
    let t = or_else(z.temps@, zone, milli(21_000));
    let load = or_else(z.cooling_loads@, zone, milli(0));
    let lift = t.difference(supply).greater(num(1));
    whole_product_is_exact(lift, 1005, num(1005));
    let cap = num::<Fixed>(1005).product(lift);
    assert(cap.units == 1005 * lift.units);
    quotient_rounds_down(load, cap);
    let q = load.quotient(cap).units as int;
    let c = cap.units as int;
    let flow = vav::box_flow(z, zone, least, supply).units as int;
    if flow <= q {
        assert(flow * c <= q * c) by (nonlinear_arith)
            requires
                flow <= q,
                c > 0,
        ;
    }
    if flow >= q {
        assert((flow + 1) * c >= q * c + c) by (nonlinear_arith)
            requires
                flow >= q,
                c > 0,
        ;
    }
}

/// The flows of the boxes add up, and each zone gets the flow of its box.
pub proof fn box_flows_add_up(
    served: Seq<String>,
    z: ZoneData<Fixed>,
    least: Fixed,
    supply: Fixed,
    n: nat,
)
    requires
        n < served.len(),
    ensures
        vav::box_flow_total(served, z, least, supply, 0).units == 0,
        vav::box_flow_total(served, z, least, supply, n + 1) == vav::box_flow_total(
            served,
            z,
            least,
            supply,
            n,
        ).sum(vav::box_flow(z, served[n as int]@, least, supply)),
        vav::box_flows(served, z, least, supply).contains_key(served[n as int]@),
        vav::box_flows(served, z, least, supply)[served[n as int]@] == vav::box_flow(
            z,
            served[n as int]@,
            least,
            supply,
        ),
{
    assert(num::<Fixed>(0).units == 0);
}

// ---------------------------------------------------------------------------
// Ventilation

/// An empty zone needs the air of its floor area, and each share of its people adds that share of
/// theirs, but for rounding.
pub proof fn people_and_area_need_air(oa: ZoneOaData<Fixed>, occupancy: Fixed)
    requires
        0 <= oa.per_person_oa.units <= 1_000_000_000,
        0 <= oa.design_people.units <= 1_000_000_000_000_000,
        0 <= oa.per_area_oa.units <= 1_000_000_000,
        0 <= oa.floor_area.units <= 1_000_000_000_000_000,
        0 <= occupancy.units <= 1_000_000_000,
    ensures
        ({
            let need = vav::zone_ventilation(oa, occupancy).units;
            let people = oa.per_person_oa.product(oa.design_people).units;
            let area = oa.per_area_oa.product(oa.floor_area).units;
            &&& people * occupancy.units <= 1_000_000_000 * (need - area) + 999_999_999
            &&& 1_000_000_000 * (need - area) <= people * occupancy.units
            &&& occupancy.units == 0 ==> need == area
            &&& occupancy.units == 1_000_000_000 ==> need == people + area
        }),
{
    let people = oa.per_person_oa.product(oa.design_people);
    let area = oa.per_area_oa.product(oa.floor_area);
    product_rounds_down(
        oa.per_person_oa,
        oa.design_people,
        1_000_000_000,
        1_000_000_000_000_000,
    );
    product_rounds_down(oa.per_area_oa, oa.floor_area, 1_000_000_000, 1_000_000_000_000_000);
    assert(oa.per_person_oa.units * oa.design_people.units >= 0) by (nonlinear_arith)
        requires
            0 <= oa.per_person_oa.units,
            0 <= oa.design_people.units,
    ;
    assert(oa.per_area_oa.units * oa.floor_area.units >= 0) by (nonlinear_arith)
        requires
            0 <= oa.per_area_oa.units,
            0 <= oa.floor_area.units,
    ;
    product_rounds_down(people, occupancy, 1_000_000_000_000_000, 1_000_000_000);
    assert(people.units * occupancy.units >= 0) by (nonlinear_arith)
        requires
            0 <= people.units,
            0 <= occupancy.units,
    ;
    if occupancy.units == 0 {
        assert(people.units * occupancy.units == 0) by (nonlinear_arith)
            requires
                occupancy.units == 0,
        ;
    }
    if occupancy.units == 1_000_000_000 {
        assert(people.units * occupancy.units == 1_000_000_000 * people.units)
            by (nonlinear_arith)
            requires
                occupancy.units == 1_000_000_000,
        ;
    }
}

/// Every zone adds what it needs to the outdoor air; the critical share is the largest of need over
/// supply, where the zone is supplied with more than a litre a second, at 1.204 kg/m3.
pub proof fn every_zone_needs_its_air(
    oa_data: Seq<ZoneOaData<Fixed>>,
    occupancy: Seq<Fixed>,
    flows: Map<Seq<char>, Fixed>,
    n: nat,
)
    requires
        n < oa_data.len(),
    ensures
        ({
            let (outdoor, critical) = vav::ventilation_sums(oa_data, occupancy, flows, n);
            let (outdoor1, critical1) = vav::ventilation_sums(oa_data, occupancy, flows, n + 1);
            let oa = oa_data[n as int];
            let need = vav::zone_ventilation(oa, occupancy[n as int]);
            let supply = or_else(flows, oa.zone_name@, milli(100)).quotient(milli(1_204));
            let share = need.quotient(supply);
            &&& outdoor1 == outdoor.sum(need)
            &&& supply.units <= 1_000_000 ==> critical1 == critical
            &&& supply.units > 1_000_000 ==> critical1.units == (if share.units > critical.units {
                share.units
            } else {
                critical.units
            })
        }),
        vav::ventilation_sums(oa_data, occupancy, flows, 0).0.units == 0,
        vav::ventilation_sums(oa_data, occupancy, flows, 0).1.units == 0,
{
    defaults_in_units();
    assert(lit::<Fixed>(1204, 1000) == milli(1_204));
    assert(lit::<Fixed>(1, 1000) == milli(1));
}

/// The outdoor air of a system is what its zones need together, over the supply and over the
/// efficiency of the ventilation: one less the critical share of a zone, plus the mean share. It is
/// the design fraction where no zone asks or hardly any air moves, and never less.
pub proof fn critical_zone_raises_the_outdoor_air(
    oa_data: Seq<ZoneOaData<Fixed>>,
    occupancy: Seq<Fixed>,
    flows: Map<Seq<char>, Fixed>,
    total: Fixed,
    min_oa: Fixed,
)
    requires
        0 <= min_oa.units <= 1_000_000_000,
    ensures
        ({
            let (outdoor, critical) = vav::ventilation_sums(
                oa_data,
                occupancy,
                flows,
                oa_data.len(),
            );
            let r = vav::ventilation_fraction(oa_data, occupancy, flows, total, min_oa);
            let supply = total.quotient(milli(1_204));
            let mean = outdoor.quotient(supply);
            let e = milli(1_000).sum(mean).difference(critical).units;
            let wanted = outdoor.quotient(
                Fixed {
                    units: (if e < 150_000_000 {
                        150_000_000
                    } else if e > 1_000_000_000 {
                        1_000_000_000
                    } else {
                        e as int
                    }) as i64,
                },
            ).quotient(supply).units;
            &&& oa_data.len() == 0 || supply.units <= 10_000_000 ==> r == min_oa
            &&& oa_data.len() > 0 && supply.units > 10_000_000 ==> {
                &&& wanted <= min_oa.units ==> r == min_oa
                &&& wanted >= 1_000_000_000 ==> r.units == 1_000_000_000
                &&& min_oa.units <= wanted <= 1_000_000_000 ==> r.units == wanted
            }
        }),
{
    defaults_in_units();
    assert(lit::<Fixed>(1204, 1000) == milli(1_204));
    assert(lit::<Fixed>(1, 100) == milli(10));
    assert(lit::<Fixed>(15, 100) == milli(150));
}

// ---------------------------------------------------------------------------
// Air handlers

/// A VAV system cools while more of its zones have a cooling load than a heating load, of more than
/// 100 W each. Its cooling coil then aims at the supply temperature and is off otherwise; its heating
/// coil keeps the mixed air from falling below 4 C and is off otherwise.
pub proof fn vav_coils_serve_the_majority(
    li: LoopInfo<Fixed>,
    z: ZoneData<Fixed>,
    supply: Fixed,
    mixed: Fixed,
)
    ensures
        ({
            let n = li.served_zones@.len();
            let limit = milli(100_000);
            let cools = zones::zones_above(li.served_zones@, z.cooling_loads@, limit, n)
                > zones::zones_above(li.served_zones@, z.heating_loads@, limit, n);
            let rule = vav::vav_rule(li, z, supply, mixed);
            &&& vav::cooling_dominates(li.served_zones@, z) == cools
            &&& cools ==> rule.cooling == supply
            &&& !cools ==> rule.cooling.units == 99_000_000_000
            &&& mixed.units < 4_000_000_000 ==> rule.heating.units == 4_000_000_000
            &&& mixed.units >= 4_000_000_000 ==> rule.heating.units == -99_000_000_000
            &&& rule.heat_pump is None && rule.cooling_first && !rule.furnaces
        }),
{
    defaults_in_units();
    assert(num::<Fixed>(4).units == 4_000_000_000);
}

/// The outdoor air of a VAV system is its ventilation, unless it cools, its economizer is not held
/// back and outdoor air helps: then it is what free cooling takes, as long as the mixed air is no
/// colder than the supply.
pub proof fn vav_cools_free_where_it_can(
    li: LoopInfo<Fixed>,
    z: ZoneData<Fixed>,
    outdoor: OutdoorAir<Fixed>,
    return_enthalpy: Fixed,
    supply: Fixed,
    ventilation: Fixed,
)
    ensures
        ({
            let r = vav::vav_oa_fraction(li, z, outdoor, return_enthalpy, supply, ventilation);
            let t = zones::zone_mean(li.served_zones@, z.temps@, milli(21_000), milli(21_000));
            let helps = control::outdoor_air_helps(
                li.economizer,
                outdoor.reading,
                AirReading { temp: t, enthalpy: return_enthalpy },
            );
            let free = control::free_cooling_fraction(t, outdoor.reading.temp, supply, ventilation);
            let mixed = control::mixed_temp(t, outdoor.inlet_temp, free).units;
            let works = !outdoor.economizer_lockout && vav::cooling_dominates(li.served_zones@, z)
                && helps;
            &&& !works ==> r == ventilation
            &&& works && mixed < supply.units ==> r == ventilation
            &&& works && mixed >= supply.units ==> r == free
        }),
{
    defaults_in_units();
}

/// The signals of a VAV system: the mean temperature of its zones as return air, the flows of its
/// boxes to the zones and their total, though no less than 0.05 kg/s, through every component, and
/// the supply setpoint.
pub proof fn vav_signals_fit_together(
    r: ControlSignals<Fixed>,
    li: LoopInfo<Fixed>,
    z: ZoneData<Fixed>,
    outdoor: OutdoorAir<Fixed>,
    return_enthalpy: Fixed,
    occupancy: Seq<Fixed>,
    min_oa: Fixed,
    component: int,
)
    requires
        vav::vav_signals(r, li, z, outdoor, return_enthalpy, occupancy, min_oa),
    ensures
        ({
            let n = li.served_zones@.len();
            let t = zones::zone_mean(li.served_zones@, z.temps@, milli(21_000), milli(21_000));
            let supply = r.sat_setpoint;
            let total = vav::box_flow_total(
                li.served_zones@,
                z,
                li.min_vav_fraction,
                supply,
                n,
            ).units;
            let oa = r.coil_setpoints@["__oa_fraction__"@];
            &&& supply == vav::supply_setpoint(li, z)
            &&& r.coil_setpoints@["__return_air_temp__"@] == t
            &&& r.coil_setpoints@["__vav_mixed_air_temp__"@] == control::mixed_temp(
                t,
                outdoor.inlet_temp,
                oa,
            )
            &&& r.zone_air_flows@ == vav::box_flows(
                li.served_zones@,
                z,
                li.min_vav_fraction,
                supply,
            )
            &&& 0 <= component < li.component_names@.len() ==> {
                let flow = r.air_mass_flows@[li.component_names@[component]@].units;
                &&& total >= 50_000_000 ==> flow == total
                &&& total < 50_000_000 ==> flow == 50_000_000
            }
        }),
{
    defaults_in_units();
    reveal_strlit("__oa_fraction__");
    reveal_strlit("__return_air_temp__");
    reveal_strlit("__vav_mixed_air_temp__");
    assert("__oa_fraction__"@.len() == 15);
    assert("__return_air_temp__"@.len() == 19);
    assert("__vav_mixed_air_temp__"@.len() == 22);
    if 0 <= component < li.component_names@.len() {
        let name = li.component_names@[component]@;
        every_component_is_set(
            li.component_names@,
            vav::vav_rule(li, z, milli(0), milli(0)),
            name,
            milli(0),
        );
    }
}

// ---------------------------------------------------------------------------
// Dual duct

/// A mixing box is asked for the load of its zone as a share of what the deck can give at design
/// flow, with 1005 J/(kg K) and the way from the setpoint to the deck, though no less than 1 K: the
/// share times that is the load, but for rounding, and it is between nothing and one.
pub proof fn box_is_asked_for_its_share(
    li: LoopInfo<Fixed>,
    z: ZoneData<Fixed>,
    zone: Seq<char>,
)
    requires
        heat_to(z, zone) <= cool_to(z, zone),
        ({
            let flow = or_else(
                z.design_flows@,
                zone,
                or_else(li.dd_boxes@, zone, milli(500)),
            ).units;
            &&& 1_000_000 <= flow <= 1_000_000_000_000
            &&& or_else(z.heating_loads@, zone, milli(0)).units <= 1_000_000_000_000_000
            &&& or_else(z.cooling_loads@, zone, milli(0)).units <= 1_000_000_000_000_000
            &&& -1_000_000_000_000 <= heat_to(z, zone)
            &&& cool_to(z, zone) <= 1_000_000_000_000
            &&& -1_000_000_000_000 <= li.heating_supply_temp.units <= 1_000_000_000_000
            &&& -1_000_000_000_000 <= li.cooling_supply_temp.units <= 1_000_000_000_000
        }),
    ensures
        ({
            let r = dual_duct::requested(li, z, zone);
            let mode = vav::box_mode(z, zone);
            let flow = or_else(
                z.design_flows@,
                zone,
                or_else(li.dd_boxes@, zone, milli(500)),
            ).units;
            let (way, load) = if mode == HvacMode::Heating {
                (
                    li.heating_supply_temp.units - heat_to(z, zone),
                    or_else(z.heating_loads@, zone, milli(0)).units,
                )
            } else {
                (
                    cool_to(z, zone) - li.cooling_supply_temp.units,
                    or_else(z.cooling_loads@, zone, milli(0)).units,
                )
            };
            let lift = if way > 1_000_000_000 {
                way
            } else {
                1_000_000_000
            };
            let heat = 1005 * flow * lift;
            let share = r.plr.units;
            &&& r.heating <==> mode == HvacMode::Heating
            &&& r.cooling <==> mode == HvacMode::Cooling
            &&& 0 <= share <= 1_000_000_000
            &&& mode == HvacMode::Deadband || load <= 0 ==> share == 0
            &&& mode != HvacMode::Deadband && load > 0 ==> {
                &&& share * heat <= 1_000_000_000_000_000_000 * load + 1_000_000_000 * share
                &&& share < 1_000_000_000 ==> (share + 1) * heat > 1_000_000_000_000_000_000 * load
            }
        }),
{
    defaults_in_units();
    assert(num::<Fixed>(1005).units == 1_005_000_000_000);
    let flow = or_else(z.design_flows@, zone, or_else(li.dd_boxes@, zone, milli(500)));
    whole_product_is_exact(flow, 1005, num(1005));
    let cap = flow.product(num(1005));
    assert(cap.units == 1005 * flow.units);
    let hot = li.heating_supply_temp.difference(or_else(z.heat_sp@, zone, milli(21_100))).greater(
        num(1),
    );
    let cold = or_else(z.cool_sp@, zone, milli(23_900)).difference(li.cooling_supply_temp).greater(
        num(1),
    );
    share_of_a_deck(or_else(z.heating_loads@, zone, milli(0)), cap, hot);
    share_of_a_deck(or_else(z.cooling_loads@, zone, milli(0)), cap, cold);
}

proof fn share_of_a_deck(load: Fixed, cap: Fixed, lift: Fixed)
    requires
        1_005_000_000 <= cap.units <= 1_005_000_000_000_000,
        1_000_000_000 <= lift.units <= 3_000_000_000_000,
        load.units <= 1_000_000_000_000_000,
    ensures
        load.units > 0 ==> {
            let q = load.quotient(cap.product(lift)).units;
            let share = if q > 1_000_000_000 {
                1_000_000_000
            } else {
                q as int
            };
            let heat = cap.units * lift.units;
            &&& 0 <= q
            &&& share * heat <= 1_000_000_000_000_000_000 * load.units + 1_000_000_000 * share
            &&& share < 1_000_000_000 ==> (share + 1) * heat > 1_000_000_000_000_000_000
                * load.units
        },
{
    if load.units > 0 {
        product_rounds_down(cap, lift, 1_005_000_000_000_000, 3_000_000_000_000);
        let p = cap.product(lift);
        let heat = cap.units * lift.units;
        assert(heat >= 1_005_000_000 * 1_000_000_000) by (nonlinear_arith)
            requires
                heat == cap.units * lift.units,
                cap.units >= 1_005_000_000,
                lift.units >= 1_000_000_000,
        ;
        quotient_rounds_down(load, p);
        let q = load.quotient(p).units as int;
        let k = p.units as int;
        let share = if q > 1_000_000_000 {
            1_000_000_000
        } else {
            q
        };
        assert(share * heat <= share * (1_000_000_000 * k) + 1_000_000_000 * share)
            by (nonlinear_arith)
            requires
                0 <= share,
                heat < 1_000_000_000 * k + 1_000_000_000,
        ;
        assert(share * (1_000_000_000 * k) == 1_000_000_000 * (share * k)) by (nonlinear_arith);
        assert(share * k <= q * k) by (nonlinear_arith)
            requires
                share <= q,
                k >= 0,
        ;
        if share < 1_000_000_000 {
            assert((share + 1) * heat >= (share + 1) * (1_000_000_000 * k)) by (nonlinear_arith)
                requires
                    0 <= share,
                    heat >= 1_000_000_000 * k,
            ;
            assert((share + 1) * (1_000_000_000 * k) == 1_000_000_000 * (share * k + k))
                by (nonlinear_arith);
        }
    }
}

/// A zone without a box of its own gets its design flow from the two decks together: in heating a
/// fifth and the share asked for of the rest from the hot deck, in cooling the same from the cold
/// deck, and half from each without a call. Its supply carries what the two streams carry, but for
/// rounding.
pub proof fn decks_share_the_flow(
    request: BoxRequest<Fixed>,
    flow: Fixed,
    hot: Fixed,
    cold: Fixed,
) -> (active: int)
    requires
        0 <= request.plr.units <= 1_000_000_000,
        1_000_000 <= flow.units <= 1_000_000_000_000,
        0 <= hot.units <= 1_000_000_000_000,
        0 <= cold.units <= 1_000_000_000_000,
        request.heating || request.cooling,
    ensures
        ({
            let s = dual_duct::unboxed_supply(request, flow, hot, cold);
            let f = flow.units;
            let carried = if request.heating {
                active * hot.units + (f - active) * cold.units
            } else {
                (f - active) * hot.units + active * cold.units
            };
            let wanted = f * (200_000_000 + request.plr.units * 8 / 10);
            &&& s.flow == flow
            &&& 0 <= active <= f
            &&& wanted - 3_000_000_000 - f <= 1_000_000_000 * active <= wanted + 2_000_000_000 + f
            &&& carried - 2_000_000_000 - f <= s.temp.units * f <= carried
        }),
{
    defaults_in_units();
    let f = flow.units as int;
    product_rounds_down(flow, milli(200), 1_000_000_000_000, 200_000_000);
    let low = flow.product(milli(200));
    let l = low.units as int;
    assert(0 <= l <= f);
    let rest = flow.difference(low);
    let plr = request.plr;
    product_rounds_down(plr, rest, 1_000_000_000, 1_000_000_000_000);
    let part = plr.product(rest);
    let p = plr.units as int;
    assert(0 <= p * (f - l) <= 1_000_000_000 * (f - l)) by (nonlinear_arith)
        requires
            0 <= p <= 1_000_000_000,
            0 <= f - l,
    ;
    let active = low.sum(part);
    let a = active.units as int;
    assert(0 <= a <= f);
    let (x, y) = if request.heating {
        (active, flow.difference(active))
    } else {
        (flow.difference(active), active)
    };
    product_rounds_down(x, hot, 1_000_000_000_000, 1_000_000_000_000);
    product_rounds_down(y, cold, 1_000_000_000_000, 1_000_000_000_000);
    let heat = x.product(hot).sum(y.product(cold));
    assert(0 <= x.units * hot.units && 0 <= y.units * cold.units) by (nonlinear_arith)
        requires
            0 <= x.units,
            0 <= y.units,
            0 <= hot.units,
            0 <= cold.units,
    ;
    assert(x.units * hot.units + y.units * cold.units <= f * 1_000_000_000_000)
        by (nonlinear_arith)
        requires
            0 <= x.units,
            0 <= y.units,
            x.units + y.units == f,
            hot.units <= 1_000_000_000_000,
            cold.units <= 1_000_000_000_000,
    ;
    quotient_rounds_down(heat, flow);
    // What is wanted of the deck, next to what rounding makes of it.
    let w = p * 8 / 10;
    let wanted = f * (200_000_000 + w);
    assert(10 * w <= 8 * p < 10 * w + 10);
    assert(p * (f - l) == p * f - p * l) by (nonlinear_arith);
    assert(1_000_000_000 * l <= f * 200_000_000 < 1_000_000_000 * l + 1_000_000_000);
    let pf = p * f;
    let pl = p * l;
    assert(pf - 5 * p <= 5 * pl <= pf) by (nonlinear_arith)
        requires
            pf == p * f,
            pl == p * l,
            0 <= p,
            5 * l <= f < 5 * l + 5,
    ;
    assert(wanted == f * 200_000_000 + f * w) by (nonlinear_arith)
        requires
            wanted == f * (200_000_000 + w),
    ;
    assert(8 * pf - 10 * f <= 10 * (f * w) <= 8 * pf) by (nonlinear_arith)
        requires
            pf == p * f,
            10 * w <= 8 * p < 10 * w + 10,
            f >= 0,
    ;
    a
}

/// Without a call each deck gives half the flow, so that the supply lies in the middle, but for
/// rounding.
pub proof fn idle_decks_share_evenly(
    request: BoxRequest<Fixed>,
    flow: Fixed,
    hot: Fixed,
    cold: Fixed,
)
    requires
        !request.heating,
        !request.cooling,
        1_000_000_000 <= flow.units <= 1_000_000_000_000,
        0 <= hot.units <= 1_000_000_000_000,
        0 <= cold.units <= 1_000_000_000_000,
    ensures
        ({
            let s = dual_duct::unboxed_supply(request, flow, hot, cold);
            &&& s.flow == flow
            &&& hot.units + cold.units - 2_010 <= 2 * s.temp.units <= hot.units + cold.units
        }),
{
    defaults_in_units();
    let f = flow.units as int;
    let half = flow.quotient(num(2));
    quotient_rounds_down(flow, num(2));
    let h = half.units as int;
    product_rounds_down(half, hot, 1_000_000_000_000, 1_000_000_000_000);
    product_rounds_down(half, cold, 1_000_000_000_000, 1_000_000_000_000);
    let heat = half.product(hot).sum(half.product(cold));
    let both = hot.units + cold.units;
    assert(0 <= h * hot.units && 0 <= h * cold.units) by (nonlinear_arith)
        requires
            0 <= h,
            0 <= hot.units,
            0 <= cold.units,
    ;
    assert(h * hot.units + h * cold.units == h * both) by (nonlinear_arith)
        requires
            both == hot.units + cold.units,
    ;
    assert(f * both - both <= 2 * (h * both) <= f * both) by (nonlinear_arith)
        requires
            2 * h <= f <= 2 * h + 1,
            0 <= both,
    ;
    assert(2 * (h * both) <= f * 2_000_000_000_000) by (nonlinear_arith)
        requires
            2 * (h * both) <= f * both,
            both <= 2_000_000_000_000,
            f >= 0,
    ;
    quotient_rounds_down(heat, flow);
    let t = dual_duct::unboxed_supply(request, flow, hot, cold).temp.units as int;
    assert(2 * t <= both) by (nonlinear_arith)
        requires
            2 * (t * f) <= f * both,
            f > 0,
    ;
    assert(2 * t >= both - 2_010) by (nonlinear_arith)
        requires
            2 * (t * f + f) > f * both - both - 4_000_000_000,
            both <= 2_000_000_000_000,
            f >= 1_000_000_000,
    ;
}

/// Each zone of a dual-duct system is supplied by its box, or as a zone without one; the flows add
/// up.
pub proof fn dual_duct_supplies_every_zone<T: Scalar>(
    li: LoopInfo<T>,
    z: ZoneData<T>,
    boxes: Seq<Option<BoxSupply<T>>>,
    n: nat,
)
    requires
        n < li.served_zones@.len(),
    ensures
        ({
            let zone = li.served_zones@[n as int]@;
            let s = match boxes[n as int] {
                Some(s) => s,
                None => dual_duct::unboxed_supply(
                    dual_duct::requested(li, z, zone),
                    or_else(z.design_flows@, zone, lit(5, 10)),
                    li.heating_supply_temp,
                    li.cooling_supply_temp,
                ),
            };
            let temps = dual_duct::supply_temps(li, z, boxes, n + 1);
            let flows = dual_duct::supply_flows(li, z, boxes, n + 1);
            &&& temps.contains_key(zone) && temps[zone] == s.temp
            &&& flows.contains_key(zone) && flows[zone] == s.flow
            &&& forall|other: Seq<char>|
                other != zone ==> #[trigger] temps.contains_key(other) == dual_duct::supply_temps(
                    li,
                    z,
                    boxes,
                    n,
                ).contains_key(other)
            &&& dual_duct::supply_total(li, z, boxes, n + 1) == plus(
                dual_duct::supply_total(li, z, boxes, n),
                s.flow,
            )
        }),
        dual_duct::supply_total(li, z, boxes, 0) == num::<T>(0),
{
}

/// Each deck runs at its supply temperature while some zone calls for it, and is off otherwise.
pub proof fn decks_run_on_call(li: LoopInfo<Fixed>, z: ZoneData<Fixed>)
    ensures
        ({
            let rule = dual_duct::deck_rule(li, z);
            let served = li.served_zones@;
            let hot = exists|i: int|
                0 <= i < served.len() && vav::box_mode(z, (#[trigger] served[i])@)
                    == HvacMode::Heating;
            let cold = exists|i: int|
                0 <= i < served.len() && vav::box_mode(z, (#[trigger] served[i])@)
                    == HvacMode::Cooling;
            &&& hot ==> rule.heating == li.heating_supply_temp
            &&& !hot ==> rule.heating.units == -99_000_000_000
            &&& cold ==> rule.cooling == li.cooling_supply_temp
            &&& !cold ==> rule.cooling.units == 99_000_000_000
        }),
{
    defaults_in_units();
}

/// The signals of a dual-duct system: the least outdoor air, and the flows of its zones together,
/// though no less than 0.05 kg/s, through every component.
pub proof fn dual_duct_signals_fit_together(
    r: ControlSignals<Fixed>,
    li: LoopInfo<Fixed>,
    z: ZoneData<Fixed>,
    boxes: Seq<Option<BoxSupply<Fixed>>>,
    t_outdoor: Fixed,
    min_oa: Fixed,
    component: int,
)
    requires
        dual_duct::dual_duct_signals(r, li, z, boxes, t_outdoor, min_oa),
    ensures
        ({
            let n = li.served_zones@.len();
            let t = zones::zone_mean(li.served_zones@, z.temps@, milli(21_000), milli(21_000));
            let total = dual_duct::supply_total(li, z, boxes, n).units;
            &&& r.coil_setpoints@["__oa_fraction__"@] == min_oa
            &&& r.coil_setpoints@["__return_air_temp__"@] == t
            &&& r.coil_setpoints@["__vav_mixed_air_temp__"@] == control::mixed_temp(
                t,
                t_outdoor,
                min_oa,
            )
            &&& r.zone_air_flows@ == dual_duct::supply_flows(li, z, boxes, n)
            &&& r.zone_supply_temps@ == dual_duct::supply_temps(li, z, boxes, n)
            &&& 0 <= component < li.component_names@.len() ==> {
                let flow = r.air_mass_flows@[li.component_names@[component]@].units;
                &&& total >= 50_000_000 ==> flow == total
                &&& total < 50_000_000 ==> flow == 50_000_000
            }
        }),
{
    defaults_in_units();
    reveal_strlit("__oa_fraction__");
    reveal_strlit("__return_air_temp__");
    reveal_strlit("__vav_mixed_air_temp__");
    assert("__oa_fraction__"@.len() == 15);
    assert("__return_air_temp__"@.len() == 19);
    assert("__vav_mixed_air_temp__"@.len() == 22);
    if 0 <= component < li.component_names@.len() {
        let name = li.component_names@[component]@;
        every_component_is_set(
            li.component_names@,
            dual_duct::deck_rule(li, z),
            name,
            milli(0),
        );
    }
}

// ---------------------------------------------------------------------------
// Every loop

/// A loop is off while its availability is below one half, and never without a schedule.
pub proof fn loop_is_off_below_one_half(availability: Fixed)
    ensures
        air_side::is_switched_off(Some(availability)) <==> availability.units < 500_000_000,
        !air_side::is_switched_off(Option::<Fixed>::None),
{
    defaults_in_units();
}

/// In a loop that is off outdoor air stands: every component reports its state, no flow, no power
/// and no heat.
pub proof fn idle_components_hold_outdoor_air<T: Scalar>(outdoor: AirStream<T>)
    ensures
        ({
            let o = air_side::idle_outputs(outdoor);
            &&& o.contains_key("outlet_temperature"@) && o["outlet_temperature"@] == outdoor.t_db
            &&& o.contains_key("outlet_temp"@) && o["outlet_temp"@] == outdoor.t_db
            &&& o.contains_key("inlet_temperature"@) && o["inlet_temperature"@] == outdoor.t_db
            &&& o.contains_key("outlet_humidity_ratio"@) && o["outlet_humidity_ratio"@]
                == outdoor.w
            &&& o.contains_key("outlet_w"@) && o["outlet_w"@] == outdoor.w
            &&& o.contains_key("inlet_humidity_ratio"@) && o["inlet_humidity_ratio"@] == outdoor.w
            &&& o.contains_key("outlet_enthalpy"@) && o["outlet_enthalpy"@] == outdoor.h
            &&& o.contains_key("inlet_enthalpy"@) && o["inlet_enthalpy"@] == outdoor.h
            &&& o.contains_key("mass_flow"@) && o["mass_flow"@] == num::<T>(0)
            &&& o.contains_key("electric_power"@) && o["electric_power"@] == num::<T>(0)
            &&& o.contains_key("fuel_power"@) && o["fuel_power"@] == num::<T>(0)
            &&& o.contains_key("thermal_output"@) && o["thermal_output"@] == num::<T>(0)
        }),
{
    reveal_strlit("outlet_temperature");
    reveal_strlit("outlet_temp");
    reveal_strlit("inlet_temperature");
    reveal_strlit("outlet_humidity_ratio");
    reveal_strlit("outlet_w");
    reveal_strlit("inlet_humidity_ratio");
    reveal_strlit("outlet_enthalpy");
    reveal_strlit("inlet_enthalpy");
    reveal_strlit("mass_flow");
    reveal_strlit("electric_power");
    reveal_strlit("fuel_power");
    reveal_strlit("thermal_output");
    assert("outlet_temperature"@.len() == 18);
    assert("outlet_temp"@.len() == 11);
    assert("inlet_temperature"@.len() == 17);
    assert("outlet_humidity_ratio"@.len() == 21);
    assert("outlet_w"@.len() == 8);
    assert("inlet_humidity_ratio"@.len() == 20);
    assert("outlet_enthalpy"@.len() == 15);
    assert("inlet_enthalpy"@.len() == 14 && "inlet_enthalpy"@[0] == 'i');
    assert("mass_flow"@.len() == 9);
    assert("electric_power"@.len() == 14 && "electric_power"@[0] == 'e');
    assert("fuel_power"@.len() == 10);
    assert("thermal_output"@.len() == 14 && "thermal_output"@[0] == 't');
}

/// With demand control the outdoor air is what people and floor need over the design flow, though
/// no less than the floor needs and no more than the design fraction; without it, or without data,
/// it is the design fraction.
pub proof fn demand_sets_the_outdoor_air(li: LoopInfo<Fixed>, occupancy: Seq<Fixed>)
    ensures
        ({
            let r = air_side::min_oa_now(li, occupancy).units;
            let n = li.zone_oa_data@.len();
            let flow = li.design_supply_flow;
            let people = air_side::occupied_outdoor_air(li.zone_oa_data@, occupancy, n).quotient(
                flow,
            ).units;
            let floor = air_side::area_outdoor_air(li.zone_oa_data@, n).quotient(flow).units;
            let design = li.min_oa_fraction.units;
            let works = li.dcv && n > 0;
            let part = |x: int|
                if x < 0 {
                    0
                } else if x > 1_000_000_000 {
                    1_000_000_000
                } else {
                    x
                };
            &&& !works ==> r == design
            &&& works && flow.units <= 0 && design >= 0 ==> r == design
            &&& works && flow.units > 0 ==> {
                let need = if part(people as int) > part(floor as int) {
                    part(people as int)
                } else {
                    part(floor as int)
                };
                &&& need <= design ==> r == need
                &&& need > design ==> r == design
            }
        }),
{
    defaults_in_units();
}

/// Each zone adds its air at its occupancy, and the air of its floor.
pub proof fn zones_add_their_outdoor_air<T: Scalar>(
    oa_data: Seq<ZoneOaData<T>>,
    occupancy: Seq<T>,
    n: nat,
)
    requires
        n < oa_data.len(),
    ensures
        air_side::occupied_outdoor_air(oa_data, occupancy, 0) == num::<T>(0),
        air_side::area_outdoor_air(oa_data, 0) == num::<T>(0),
        air_side::occupied_outdoor_air(oa_data, occupancy, n + 1) == plus(
            air_side::occupied_outdoor_air(oa_data, occupancy, n),
            vav::zone_ventilation(oa_data[n as int], occupancy[n as int]),
        ),
        air_side::area_outdoor_air(oa_data, n + 1) == plus(
            air_side::area_outdoor_air(oa_data, n),
            oa_data[n as int].per_area_oa.product(oa_data[n as int].floor_area),
        ),
{
}

/// The mode that a zone is predicted to need follows from the temperature that it would reach;
/// where that is not known, from the larger of its loads, if it is more than 10 W; and else from
/// its temperature.
pub proof fn prediction_follows_the_zone(z: ZoneData<Fixed>, zone: Seq<char>)
    requires
        heat_to(z, zone) <= cool_to(z, zone),
    ensures
        ({
            let mode = air_side::predicted_mode(z, zone);
            let known = z.predicted_temps@.contains_key(zone);
            let heat = or_else(z.heating_loads@, zone, milli(0)).units;
            let cool = or_else(z.cooling_loads@, zone, milli(0)).units;
            let by_load = (heat > 10_000_000_000 || cool > 10_000_000_000) && heat != cool;
            let t = if known {
                z.predicted_temps@[zone].units as int
            } else {
                temp_in(z, zone)
            };
            &&& !known && heat > 10_000_000_000 && heat > cool ==> mode == HvacMode::Heating
            &&& !known && cool > 10_000_000_000 && cool > heat ==> mode == HvacMode::Cooling
            &&& known || !by_load ==> {
                &&& t < heat_to(z, zone) ==> mode == HvacMode::Heating
                &&& t > cool_to(z, zone) ==> mode == HvacMode::Cooling
                &&& heat_to(z, zone) <= t <= cool_to(z, zone) ==> mode == HvacMode::Deadband
            }
        }),
{
    defaults_in_units();
}

/// Every zone of a loop has the mode predicted for it.
pub proof fn every_zone_has_its_prediction<T: Scalar>(
    served: Seq<String>,
    z: ZoneData<T>,
    zone: Seq<char>,
)
    ensures
        ({
            let modes = air_side::predicted_modes(served, z);
            let own = exists|i: int| 0 <= i < served.len() && (#[trigger] served[i])@ == zone;
            &&& modes.contains_key(zone) <==> own
            &&& own ==> modes[zone] == air_side::predicted_mode(z, zone)
        }),
{
}

/// A zone counts as loaded by its cooling load over five times its heat capacity, between nothing
/// and one.
pub proof fn zones_count_by_load_over_capacity(z: ZoneData<Fixed>, zone: Seq<char>)
    requires
        0 <= or_else(z.thermal_caps@, zone, milli(1_000)).units <= 1_000_000_000_000_000_000,
        -9_000_000_000_000_000_000 <= or_else(z.cooling_loads@, zone, milli(0)).units
            <= 9_000_000_000_000_000_000,
    ensures
        ({
            let r = air_side::zone_part_load(z, zone).units;
            let capacity = 5 * or_else(z.thermal_caps@, zone, milli(1_000)).units;
            let load = or_else(z.cooling_loads@, zone, milli(0)).units;
            let base = if capacity > 1_000_000_000 {
                capacity
            } else {
                1_000_000_000
            };
            &&& 0 <= r <= 1_000_000_000
            &&& load <= 0 ==> r == 0
            &&& 0 <= load <= base ==> r * base <= 1_000_000_000 * load < r * base + base
            &&& load >= base ==> r == 1_000_000_000
        }),
{
    defaults_in_units();
    let cap = or_else(z.thermal_caps@, zone, milli(1_000));
    let load = or_else(z.cooling_loads@, zone, milli(0));
    whole_product_is_exact(cap, 5, num(5));
    let base = cap.product(num(5)).greater(num(1));
    let b = base.units as int;
    quotient_rounds_down(load, base);
    let q = load.quotient(base).units as int;
    if load.units <= 0 {
        assert(q <= 0) by (nonlinear_arith)
            requires
                q * b <= 1_000_000_000 * load.units,
                load.units <= 0,
                b > 0,
        ;
    }
    if load.units >= b {
        assert(q >= 1_000_000_000) by (nonlinear_arith)
            requires
                1_000_000_000 * load.units < q * b + b,
                load.units >= b,
                b > 0,
        ;
    } else {
        assert(q <= 1_000_000_000) by (nonlinear_arith)
            requires
                q * b <= 1_000_000_000 * load.units,
                load.units <= b,
                b > 0,
        ;
    }
}

/// Resets change the supply temperatures of a loop and nothing else, each only where the loop has
/// it.
pub proof fn resets_change_supply_temperatures_only<T: Scalar>(
    li: LoopInfo<T>,
    z: ZoneData<T>,
    t_outdoor: T,
)
    ensures
        ({
            let after = air_side::after_resets(li, z, t_outdoor);
            let loads = Seq::new(
                li.served_zones@.len(),
                |i: int| air_side::zone_part_load(z, li.served_zones@[i]@),
            );
            &&& li.cooling_sat_reset is None ==> after.cooling_supply_temp
                == li.cooling_supply_temp
            &&& li.heating_sat_reset is None ==> after.heating_supply_temp
                == li.heating_supply_temp
            &&& li.cooling_sat_reset is Some ==> after.cooling_supply_temp
                == control::cooling_reset(
                li.cooling_sat_reset->Some_0,
                t_outdoor,
                li.cooling_supply_temp,
                loads,
            )
            &&& li.heating_sat_reset is Some ==> after.heating_supply_temp
                == control::heating_reset(
                li.heating_sat_reset->Some_0,
                t_outdoor,
                li.heating_supply_temp,
                loads,
            )
            &&& after == (LoopInfo {
                cooling_supply_temp: after.cooling_supply_temp,
                heating_supply_temp: after.heating_supply_temp,
                ..li
            })
        }),
{
}

/// The economizer of a packaged unit compares outdoor air with the air of its first zone, and that
/// of any other loop with the mean of its zones: 21 C and 0.008 kg/kg where nothing is known.
pub proof fn economizers_compare_with_their_zones(li: LoopInfo<Fixed>, z: ZoneData<Fixed>)
    requires
        li.served_zones@.len() > 0,
    ensures
        ({
            let (t, w) = air_side::compared_air(li, z);
            let first = li.served_zones@[0]@;
            &&& li.system_type == AirLoopSystemType::PszAc ==> t == or_else(
                z.temps@,
                first,
                milli(21_000),
            ) && w == or_else(z.humidity_ratios@, first, milli(8))
            &&& li.system_type != AirLoopSystemType::PszAc ==> t == zones::zone_mean(
                li.served_zones@,
                z.temps@,
                milli(21_000),
                milli(21_000),
            ) && w == zones::zone_mean(li.served_zones@, z.humidity_ratios@, milli(8), milli(8))
        }),
{
    defaults_in_units();
}

/// Each kind of loop is controlled as its kind is.
pub proof fn loops_are_controlled_by_their_kind<T: Scalar>(
    r: ControlSignals<T>,
    li: LoopInfo<T>,
    z: ZoneData<T>,
    modes: Map<Seq<char>, HvacMode>,
    inputs: LoopInputs<T>,
    min_oa: T,
)
    requires
        air_side::loop_signals(r, li, z, modes, inputs, min_oa),
    ensures
        ({
            let kind = li.system_type;
            let fan_coil = kind == AirLoopSystemType::Fcu || kind == AirLoopSystemType::Ptac
                || kind == AirLoopSystemType::Pthp;
            &&& kind == AirLoopSystemType::PszAc ==> signals::psz_signals(
                r,
                li,
                z,
                modes,
                inputs.outdoor,
                inputs.return_enthalpy,
                min_oa,
            )
            &&& kind == AirLoopSystemType::Doas ==> signals::doas_signals(
                r,
                li,
                z,
                inputs.outdoor.temp,
            )
            &&& fan_coil ==> signals::fcu_signals(r, li, z, modes, inputs.outdoor.temp)
            &&& kind == AirLoopSystemType::Vav ==> vav::vav_signals(
                r,
                li,
                z,
                OutdoorAir {
                    reading: inputs.outdoor,
                    inlet_temp: inputs.outdoor.temp,
                    economizer_lockout: false,
                },
                inputs.return_enthalpy,
                inputs.occupancy@,
                min_oa,
            )
            &&& kind == AirLoopSystemType::DualDuct ==> dual_duct::dual_duct_signals(
                r,
                li,
                z,
                inputs.boxes@,
                inputs.outdoor.temp,
                min_oa,
            )
        }),
{
}

/// The air passes the components in their order, past the heat recovery unit.
pub proof fn air_passes_by_the_recovery_unit(
    names: Seq<Seq<char>>,
    further: Seq<char>,
    heat_recovery: Seq<char>,
)
    ensures
        air_side::chain_of(Seq::empty(), heat_recovery).len() == 0,
        further == heat_recovery ==> air_side::chain_of(names.push(further), heat_recovery)
            == air_side::chain_of(names, heat_recovery),
        further != heat_recovery ==> air_side::chain_of(names.push(further), heat_recovery)
            == air_side::chain_of(names, heat_recovery).push(further),
{
    reveal(Seq::filter);
    assert(names.push(further).drop_last() =~= names);
}

/// The first zone that is too dry says how far to humidify; without one there is nothing to
/// humidify.
pub proof fn first_dry_zone_is_humidified(z: ZoneData<Fixed>, served: Seq<String>, from: nat)
    requires
        from < served.len(),
    ensures
        ({
            let zone = served[from as int]@;
            let dry = z.min_rh@.contains_key(zone) && or_else(
                z.rel_humidity@,
                zone,
                z.default_rel_humidity,
            ).units < z.min_rh@[zone].min_rh.units;
            let r = zones::first_dry_zone(z, served, from);
            &&& dry ==> r == Some(z.min_rh@[zone].w_target)
            &&& !dry ==> r == zones::first_dry_zone(z, served, from + 1)
        }),
        zones::first_dry_zone(z, served, served.len()) is None,
{
}

} // verus!
