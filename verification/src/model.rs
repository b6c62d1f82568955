//! The parts of a building model that the control of its systems is made from.
use crate::air_loop::{
    AirLoopSystemType, CyclingMethod, FanOperatingMode, LoopInfo, ZoneOaData,
};
use crate::air_side;
use crate::control::{Economizer, EconomizerType, PlantResetConfig, SatResetConfig};
use crate::scalar;
use crate::scalar::{count, gt, lit, num, same, Scalar};
use crate::table;
use crate::table::Table;
use crate::text;
use crate::text::{is_listed, same_text};
use vstd::prelude::*;
use vstd::string::*;

verus! {

/// The kind of a piece of equipment in an air loop.
#[derive(Clone, Copy, Debug, PartialEq, Eq, Structural)]
pub enum EquipmentKind {
    Fan,
    HeatingCoil,
    CoolingCoil,
    CoolingCoilMultiSpeed,
    Wshp,
    Gshp,
    HeatRecovery,
    Humidifier,
    Duct,
    EvapCooler,
}

/// A piece of equipment in an air loop.
pub struct EquipmentInput<T> {
    pub kind: EquipmentKind,
    pub name: String,
    pub submeter: String,
    /// Design flow of a fan [m3/s]; not positive where it is to be sized.
    pub design_flow_rate: T,
    /// Energy source of a heating coil.
    pub source: String,
    /// Plant loop of a heating or cooling coil.
    pub plant_loop: Option<String>,
}

/// The kind of a terminal box.
#[derive(Clone, Copy, Debug, PartialEq, Eq, Structural)]
pub enum TerminalKind {
    VavBox,
    PfpBox,
    DualDuctBox,
}

/// A terminal box.
pub struct TerminalInput<T> {
    pub kind: TerminalKind,
    pub name: String,
    pub submeter: String,
    /// Design flow of a dual-duct box [kg/s]; not positive where it is to be sized.
    pub design_flow: T,
    /// Plant loop of the reheat coil of a VAV box.
    pub plant_loop: Option<String>,
}

/// A zone that an air loop serves.
pub struct ZoneConnection<T> {
    pub zone: String,
    pub terminal: Option<TerminalInput<T>>,
    /// Outdoor air per person [m3/s].
    pub per_person_oa: Option<T>,
    /// Outdoor air per floor area [m3/s per m2].
    pub per_area_oa: Option<T>,
}

/// An air loop of the model.
pub struct AirLoopInput<T> {
    pub name: String,
    pub system_type: AirLoopSystemType,
    pub equipment: Vec<EquipmentInput<T>>,
    pub zone_terminals: Vec<ZoneConnection<T>>,
    pub minimum_damper_position: Option<T>,
    /// The least outdoor air fraction by the needs of the zones.
    pub required_oa_fraction: T,
    pub min_vav_fraction: T,
    pub availability_schedule: Option<String>,
    pub heating_supply_temp: T,
    pub cooling_supply_temp: T,
    pub cycling: CyclingMethod,
    pub fan_operating_mode: FanOperatingMode,
    pub cooling_sat_reset: Option<SatResetConfig<T>>,
    pub heating_sat_reset: Option<SatResetConfig<T>>,
    pub economizer: Option<Economizer<T>>,
    pub dcv: bool,
    /// Design flow of each zone served [kg/s].
    pub design_zone_flow: T,
}

/// The kind of a piece of plant equipment.
#[derive(Clone, Copy, Debug, PartialEq, Eq, Structural)]
pub enum PlantEquipmentKind {
    Boiler,
    Chiller,
    CoolingTower,
    Pump,
    HeatExchanger,
    ThermalStorage,
}

/// A piece of plant equipment.
pub struct PlantEquipmentInput<T> {
    pub kind: PlantEquipmentKind,
    pub name: String,
    pub submeter: String,
    /// Efficiency of a boiler.
    pub efficiency: T,
    /// Capacity of a boiler or chiller [W]; not positive where it is to be sized.
    pub capacity: T,
    /// COP of a chiller.
    pub cop: T,
    /// Source loop of a heat exchanger.
    pub source_loop: String,
    /// Condenser loop of a water-cooled chiller.
    pub condenser_plant_loop: Option<String>,
}

/// How the load of a plant loop is shared among its units.
#[derive(Clone, Copy, Debug, PartialEq, Eq, Structural)]
pub enum StagingMode {
    /// One unit after the other.
    Sequential,
    /// All units alike.
    EqualSplit,
}

/// A plant loop of the model.
pub struct PlantLoopInput<T> {
    pub name: String,
    /// Design temperature difference [K].
    pub design_delta_t: T,
    /// Design supply temperature [C].
    pub design_supply_temp: T,
    pub setpoint_reset: Option<PlantResetConfig<T>>,
    pub staging_mode: StagingMode,
    /// The part load of a unit at which the next one may start.
    pub staging_threshold: T,
    pub supply_equipment: Vec<PlantEquipmentInput<T>>,
}

/// People in a zone.
pub struct PeopleInput<T> {
    pub count: T,
    pub schedule: Option<String>,
}

/// The outdoor air that a zone asks for.
#[derive(Clone, Copy, Debug)]
pub struct OutdoorAirRate<T> {
    /// Per person [m3/s].
    pub per_person: T,
    /// Per floor area [m3/s per m2].
    pub per_area: T,
}

/// A zone of the model.
pub struct ZoneInput<T> {
    pub name: String,
    pub outdoor_air: Option<OutdoorAirRate<T>>,
    /// Floor area [m2].
    pub floor_area: T,
    /// The people of the zone, one entry for each group.
    pub people: Vec<PeopleInput<T>>,
}

/// A building model.
pub struct ModelInput<T> {
    pub air_loops: Vec<AirLoopInput<T>>,
    pub plant_loops: Vec<PlantLoopInput<T>>,
}

// ---------------------------------------------------------------------------
// Names in a loop

/// The names of equipment, in order.
pub open spec fn equipment_names<T>(equipment: Seq<EquipmentInput<T>>) -> Seq<Seq<char>> {
    equipment.map_values(|e: EquipmentInput<T>| e.name@)
}

fn component_names<T>(equipment: &Vec<EquipmentInput<T>>) -> (r: Vec<String>)
    ensures
        air_side::texts(r@) == equipment_names(equipment@),
{
    let mut names: Vec<String> = Vec::new();
    for i in 0..equipment.len()
        invariant
            names@.len() == i,
            forall|k: int| 0 <= k < i ==> (#[trigger] names@[k])@ == equipment@[k].name@,
    {
        names.push(equipment[i].name.clone());
    }
    assert(air_side::texts(names@) =~= equipment_names(equipment@));
    names
}

/// Some equipment of a kind has the name.
pub open spec fn has_named<T>(
    equipment: Seq<EquipmentInput<T>>,
    kind: EquipmentKind,
    name: Seq<char>,
) -> bool {
    exists|i: int|
        0 <= i < equipment.len() && (#[trigger] equipment[i]).kind == kind && equipment[i].name@
            == name
}

/// The names of the fans of a loop, each once.
pub open spec fn are_fan_names<T>(names: Seq<String>, equipment: Seq<EquipmentInput<T>>) -> bool {
    &&& forall|name: Seq<char>| #[trigger]
        text::listed(names, name) <==> has_named(equipment, EquipmentKind::Fan, name)
    &&& forall|i: int, j: int|
        0 <= i < j < names.len() ==> (#[trigger] names[i])@ != (#[trigger] names[j])@
}

fn fan_names<T>(equipment: &Vec<EquipmentInput<T>>) -> (r: Vec<String>)
    ensures
        are_fan_names(r@, equipment@),
{
    let mut names: Vec<String> = Vec::new();
    for i in 0..equipment.len()
        invariant
            are_fan_names(names@, equipment@.take(i as int)),
    {
        let ghost here = equipment@.take(i as int);
        let ghost next = equipment@.take(i + 1);
        let ghost before = names@;
        let is_new_fan = equipment[i].kind == EquipmentKind::Fan && !is_listed(
            &names,
            equipment[i].name.as_str(),
        );
        if is_new_fan {
            names.push(equipment[i].name.clone());
        }
        proof {
            let fan = equipment@[i as int];
            assert forall|name: Seq<char>| #[trigger]
                has_named(next, EquipmentKind::Fan, name) <==> has_named(
                    here,
                    EquipmentKind::Fan,
                    name,
                ) || (fan.kind == EquipmentKind::Fan && fan.name@ == name) by {
                if has_named(here, EquipmentKind::Fan, name) {
                    let k = choose|k: int|
                        0 <= k < here.len() && (#[trigger] here[k]).kind == EquipmentKind::Fan
                            && here[k].name@ == name;
                    assert(next[k] == here[k]);
                }
                if has_named(next, EquipmentKind::Fan, name) {
                    let k = choose|k: int|
                        0 <= k < next.len() && (#[trigger] next[k]).kind == EquipmentKind::Fan
                            && next[k].name@ == name;
                    if k < i {
                        assert(here[k] == next[k]);
                    }
                }
                assert(next[i as int] == fan);
            }
            assert forall|name: Seq<char>| #[trigger]
                text::listed(names@, name) <==> text::listed(before, name) || (is_new_fan && name
                    == fan.name@) by {
                if text::listed(before, name) {
                    let k = choose|k: int| 0 <= k < before.len() && (#[trigger] before[k])@ == name;
                    assert(names@[k]@ == name);
                }
                if text::listed(names@, name) {
                    let k = choose|k: int| 0 <= k < names@.len() && (#[trigger] names@[k])@ == name;
                    if k < before.len() {
                        assert(before[k]@ == name);
                    }
                }
                if is_new_fan {
                    assert(names@[before.len() as int]@ == fan.name@);
                }
            }
            assert forall|k: int, j: int| 0 <= k < j < names@.len() implies (#[trigger] names@[k])@
                != (#[trigger] names@[j])@ by {
                if j == before.len() {
                    assert(text::listed(before, before[k]@));
                }
            }
        }
    }
    assert(equipment@.take(equipment@.len() as int) =~= equipment@);
    names
}

/// The name of the first equipment of a kind from place `from` on.
pub open spec fn first_named<T>(
    equipment: Seq<EquipmentInput<T>>,
    kind: EquipmentKind,
    from: nat,
) -> Option<Seq<char>>
    decreases equipment.len() - from,
{
    if from >= equipment.len() {
        None
    } else if equipment[from as int].kind == kind {
        Some(equipment[from as int].name@)
    } else {
        first_named(equipment, kind, from + 1)
    }
}

/// A text that may be missing.
pub open spec fn text_of(value: Option<String>) -> Option<Seq<char>> {
    match value {
        Some(s) => Some(s@),
        None => None,
    }
}

pub fn copy_text(value: &Option<String>) -> (r: Option<String>)
    ensures
        text_of(r) == text_of(*value),
{
    match value {
        Some(s) => Some(s.clone()),
        None => None,
    }
}

fn find_heat_recovery<T>(equipment: &Vec<EquipmentInput<T>>) -> (r: Option<String>)
    ensures
        text_of(r) == first_named(equipment@, EquipmentKind::HeatRecovery, 0),
{
    for i in 0..equipment.len()
        invariant
            first_named(equipment@, EquipmentKind::HeatRecovery, 0) == first_named(
                equipment@,
                EquipmentKind::HeatRecovery,
                i as nat,
            ),
    {
        if equipment[i].kind == EquipmentKind::HeatRecovery {
            return Some(equipment[i].name.clone());
        }
    }
    None
}

/// The flow of the first fan, from place `from` on, that has one; one where none has.
pub open spec fn first_fan_flow<T: Scalar>(equipment: Seq<EquipmentInput<T>>, from: nat) -> T
    decreases equipment.len() - from,
{
    if from >= equipment.len() {
        num(1)
    } else if equipment[from as int].kind == EquipmentKind::Fan && gt(
        equipment[from as int].design_flow_rate,
        num(0),
    ) {
        equipment[from as int].design_flow_rate
    } else {
        first_fan_flow(equipment, from + 1)
    }
}

fn find_fan_flow<T: Scalar>(equipment: &Vec<EquipmentInput<T>>) -> (r: T)
    ensures
        r == first_fan_flow(equipment@, 0),
{
    for i in 0..equipment.len()
        invariant
            first_fan_flow(equipment@, 0) == first_fan_flow(equipment@, i as nat),
    {
        if equipment[i].kind == EquipmentKind::Fan && gt(equipment[i].design_flow_rate, num(0)) {
            return equipment[i].design_flow_rate;
        }
    }
    num(1)
}

// ---------------------------------------------------------------------------
// The boiler behind a loop

/// The plant loop of the first hot-water coil, from place `from` on, that names one.
pub open spec fn hot_water_loop<T>(
    equipment: Seq<EquipmentInput<T>>,
    from: nat,
) -> Option<Seq<char>>
    decreases equipment.len() - from,
{
    if from >= equipment.len() {
        None
    } else {
        let e = equipment[from as int];
        if e.kind == EquipmentKind::HeatingCoil && e.source@ == "hot_water"@ && e.plant_loop
            is Some {
            text_of(e.plant_loop)
        } else {
            hot_water_loop(equipment, from + 1)
        }
    }
}

/// The efficiency of the first boiler from place `from` on.
pub open spec fn first_boiler<T>(
    equipment: Seq<PlantEquipmentInput<T>>,
    from: nat,
) -> Option<T>
    decreases equipment.len() - from,
{
    if from >= equipment.len() {
        None
    } else if equipment[from as int].kind == PlantEquipmentKind::Boiler {
        Some(equipment[from as int].efficiency)
    } else {
        first_boiler(equipment, from + 1)
    }
}

/// The efficiency of the first boiler on the first plant loop, from place `from` on, with
/// the name.
pub open spec fn boiler_on<T>(
    plants: Seq<PlantLoopInput<T>>,
    name: Seq<char>,
    from: nat,
) -> Option<T>
    decreases plants.len() - from,
{
    if from >= plants.len() {
        None
    } else if plants[from as int].name@ == name {
        first_boiler(plants[from as int].supply_equipment@, 0)
    } else {
        boiler_on(plants, name, from + 1)
    }
}

/// The efficiency of the boiler behind the hot-water coils of a loop; 80 % where there is
/// none.
pub open spec fn boiler_efficiency<T: Scalar>(
    equipment: Seq<EquipmentInput<T>>,
    plants: Seq<PlantLoopInput<T>>,
) -> T {
    match hot_water_loop(equipment, 0) {
        Some(name) => match boiler_on(plants, name, 0) {
            Some(efficiency) => efficiency,
            None => lit(80, 100),
        },
        None => lit(80, 100),
    }
}

fn find_hot_water_loop<T>(equipment: &Vec<EquipmentInput<T>>) -> (r: Option<String>)
    ensures
        text_of(r) == hot_water_loop(equipment@, 0),
{
    for i in 0..equipment.len()
        invariant
            hot_water_loop(equipment@, 0) == hot_water_loop(equipment@, i as nat),
    {
        let e = &equipment[i];
        if e.kind == EquipmentKind::HeatingCoil && same_text(e.source.as_str(), "hot_water") {
            if let Some(name) = &e.plant_loop {
                return Some(name.clone());
            }
        }
    }
    None
}

fn find_first_boiler<T: Scalar>(equipment: &Vec<PlantEquipmentInput<T>>) -> (r: Option<T>)
    ensures
        r == first_boiler(equipment@, 0),
{
    for i in 0..equipment.len()
        invariant
            first_boiler(equipment@, 0) == first_boiler(equipment@, i as nat),
    {
        if equipment[i].kind == PlantEquipmentKind::Boiler {
            return Some(equipment[i].efficiency);
        }
    }
    None
}

fn find_boiler_efficiency<T: Scalar>(
    equipment: &Vec<EquipmentInput<T>>,
    plants: &Vec<PlantLoopInput<T>>,
) -> (r: T)
    ensures
        r == boiler_efficiency(equipment@, plants@),
{
    let name = match find_hot_water_loop(equipment) {
        Some(name) => name,
        None => {
            return lit(80, 100);
        },
    };
    for i in 0..plants.len()
        invariant
            boiler_on(plants@, name@, 0) == boiler_on(plants@, name@, i as nat),
            hot_water_loop(equipment@, 0) == Some(name@),
    {
        if plants[i].name == name {
            return match find_first_boiler(&plants[i].supply_equipment) {
                Some(efficiency) => efficiency,
                None => lit(80, 100),
            };
        }
    }
    lit(80, 100)
}

// ---------------------------------------------------------------------------
// Zones of a loop

/// The names of the zones served, in order.
pub open spec fn zone_names<T>(connections: Seq<ZoneConnection<T>>) -> Seq<Seq<char>> {
    connections.map_values(|c: ZoneConnection<T>| c.zone@)
}

fn served_zones<T>(connections: &Vec<ZoneConnection<T>>) -> (r: Vec<String>)
    ensures
        air_side::texts(r@) == zone_names(connections@),
{
    let mut names: Vec<String> = Vec::new();
    for i in 0..connections.len()
        invariant
            names@.len() == i,
            forall|k: int| 0 <= k < i ==> (#[trigger] names@[k])@ == connections@[k].zone@,
    {
        names.push(connections[i].zone.clone());
    }
    assert(air_side::texts(names@) =~= zone_names(connections@));
    names
}

/// Texts filed under names.
pub open spec fn texts_under(values: Table<String>) -> Map<Seq<char>, Seq<char>> {
    values@.map_values(|s: String| s@)
}

/// The VAV or fan-powered box of each of the first `n` zones that has one.
pub open spec fn boxes_by_zone<T>(
    connections: Seq<ZoneConnection<T>>,
    n: nat,
) -> Map<Seq<char>, Seq<char>>
    decreases n,
{
    if n == 0 {
        Map::empty()
    } else {
        let rest = boxes_by_zone(connections, (n - 1) as nat);
        match connections[n - 1].terminal {
            Some(terminal) => if terminal.kind != TerminalKind::DualDuctBox {
                rest.insert(connections[n - 1].zone@, terminal.name@)
            } else {
                rest
            },
            None => rest,
        }
    }
}

/// The design flow of the dual-duct box of each of the first `n` zones that has one; half
/// a kilogram per second until it is sized.
pub open spec fn dual_duct_flows<T: Scalar>(
    connections: Seq<ZoneConnection<T>>,
    n: nat,
) -> Map<Seq<char>, T>
    decreases n,
{
    if n == 0 {
        Map::empty()
    } else {
        let rest = dual_duct_flows(connections, (n - 1) as nat);
        match connections[n - 1].terminal {
            Some(terminal) => if terminal.kind == TerminalKind::DualDuctBox {
                rest.insert(
                    connections[n - 1].zone@,
                    if gt(terminal.design_flow, num(0)) {
                        terminal.design_flow
                    } else {
                        lit(5, 10)
                    },
                )
            } else {
                rest
            },
            None => rest,
        }
    }
}

fn find_boxes<T: Scalar>(connections: &Vec<ZoneConnection<T>>) -> (r: (Table<String>, Table<T>))
    ensures
        texts_under(r.0) == boxes_by_zone(connections@, connections@.len()),
        r.1@ == dual_duct_flows(connections@, connections@.len()),
{
    let mut boxes: Table<String> = Table::new();
    let mut flows: Table<T> = Table::new();
    assert(texts_under(boxes) =~= boxes_by_zone(connections@, 0));
    for i in 0..connections.len()
        invariant
            texts_under(boxes) == boxes_by_zone(connections@, i as nat),
            flows@ == dual_duct_flows(connections@, i as nat),
    {
        let zone = connections[i].zone.as_str();
        if let Some(terminal) = &connections[i].terminal {
            if terminal.kind == TerminalKind::DualDuctBox {
                let flow = if gt(terminal.design_flow, num(0)) {
                    terminal.design_flow
                } else {
                    lit(5, 10)
                };
                flows.insert(zone, flow);
            } else {
                let ghost before = boxes;
                boxes.insert(zone, terminal.name.clone());
                assert(texts_under(boxes) =~= texts_under(before).insert(
                    zone@,
                    terminal.name@,
                ));
            }
        }
    }
    (boxes, flows)
}

/// The ventilation needs of a zone, as a value.
pub ghost struct OaNeed<T> {
    pub zone_name: Seq<char>,
    pub design_people: T,
    pub per_person_oa: T,
    pub per_area_oa: T,
    pub floor_area: T,
    pub people_schedule: Option<Seq<char>>,
}

pub open spec fn oa_need<T>(data: ZoneOaData<T>) -> OaNeed<T> {
    OaNeed {
        zone_name: data.zone_name@,
        design_people: data.design_people,
        per_person_oa: data.per_person_oa,
        per_area_oa: data.per_area_oa,
        floor_area: data.floor_area,
        people_schedule: text_of(data.people_schedule),
    }
}

pub open spec fn oa_needs<T>(data: Seq<ZoneOaData<T>>) -> Seq<OaNeed<T>> {
    data.map_values(|d: ZoneOaData<T>| oa_need(d))
}

/// The place of the first zone, from place `from` on, with the name.
pub open spec fn zone_place<T>(zones: Seq<ZoneInput<T>>, name: Seq<char>, from: nat) -> Option<nat>
    decreases zones.len() - from,
{
    if from >= zones.len() {
        None
    } else if zones[from as int].name@ == name {
        Some(from)
    } else {
        zone_place(zones, name, from + 1)
    }
}

pub open spec fn rate_or_zero<T: Scalar>(rate: Option<T>) -> T {
    match rate {
        Some(v) => v,
        None => num(0),
    }
}

/// The ventilation needs of a zone served: none without rates or without such a zone. The
/// first group of people counts.
pub open spec fn connection_need<T: Scalar>(
    connection: ZoneConnection<T>,
    zones: Seq<ZoneInput<T>>,
) -> Option<OaNeed<T>> {
    let per_person = rate_or_zero(connection.per_person_oa);
    let per_area = rate_or_zero(connection.per_area_oa);
    if same(per_person, num(0)) && same(per_area, num(0)) {
        None
    } else {
        match zone_place(zones, connection.zone@, 0) {
            None => None,
            Some(place) => {
                let zone = zones[place as int];
                let people = zone.people@;
                Some(
                    OaNeed {
                        zone_name: connection.zone@,
                        design_people: if people.len() > 0 {
                            people[0].count
                        } else {
                            num(0)
                        },
                        per_person_oa: per_person,
                        per_area_oa: per_area,
                        floor_area: zone.floor_area,
                        people_schedule: if people.len() > 0 {
                            text_of(people[0].schedule)
                        } else {
                            None
                        },
                    },
                )
            },
        }
    }
}

/// The ventilation needs of the first `n` zones served that have any.
pub open spec fn connection_needs<T: Scalar>(
    connections: Seq<ZoneConnection<T>>,
    zones: Seq<ZoneInput<T>>,
    n: nat,
) -> Seq<OaNeed<T>>
    decreases n,
{
    if n == 0 {
        Seq::empty()
    } else {
        let rest = connection_needs(connections, zones, (n - 1) as nat);
        match connection_need(connections[n - 1], zones) {
            Some(need) => rest.push(need),
            None => rest,
        }
    }
}

pub fn find_zone<T>(zones: &Vec<ZoneInput<T>>, name: &String) -> (r: Option<usize>)
    ensures
        match r {
            Some(i) => i < zones@.len() && zone_place(zones@, name@, 0) == Some(i as nat),
            None => zone_place(zones@, name@, 0) is None,
        },
{
    for i in 0..zones.len()
        invariant
            zone_place(zones@, name@, 0) == zone_place(zones@, name@, i as nat),
    {
        if zones[i].name == *name {
            return Some(i);
        }
    }
    None
}

fn find_oa_need<T: Scalar>(connection: &ZoneConnection<T>, zones: &Vec<ZoneInput<T>>) -> (r: Option<
    ZoneOaData<T>,
>)
    ensures
        match r {
            Some(data) => connection_need(*connection, zones@) == Some(oa_need(data)),
            None => connection_need(*connection, zones@) is None,
        },
{
    let per_person = match connection.per_person_oa {
        Some(v) => v,
        None => num(0),
    };
    let per_area = match connection.per_area_oa {
        Some(v) => v,
        None => num(0),
    };
    if same(per_person, num(0)) && same(per_area, num(0)) {
        return None;
    }
    let place: usize = match find_zone(zones, &connection.zone) {
        Some(i) => i,
        None => {
            return None;
        },
    };
    let zone = &zones[place];
    let (design_people, people_schedule) = if zone.people.len() > 0 {
        (zone.people[0].count, copy_text(&zone.people[0].schedule))
    } else {
        (num(0), None)
    };
    Some(
        ZoneOaData {
            zone_name: connection.zone.clone(),
            design_people,
            per_person_oa: per_person,
            per_area_oa: per_area,
            floor_area: zone.floor_area,
            people_schedule,
        },
    )
}

fn find_oa_needs<T: Scalar>(
    connections: &Vec<ZoneConnection<T>>,
    zones: &Vec<ZoneInput<T>>,
) -> (r: Vec<ZoneOaData<T>>)
    ensures
        oa_needs(r@) == connection_needs(connections@, zones@, connections@.len()),
{
    let mut needs: Vec<ZoneOaData<T>> = Vec::new();
    assert(oa_needs(needs@) =~= connection_needs(connections@, zones@, 0));
    for i in 0..connections.len()
        invariant
            oa_needs(needs@) == connection_needs(connections@, zones@, i as nat),
    {
        let ghost before = needs@;
        if let Some(data) = find_oa_need(&connections[i], zones) {
            needs.push(data);
            assert(oa_needs(needs@) =~= oa_needs(before).push(oa_need(data)));
        }
    }
    needs
}

// ---------------------------------------------------------------------------
// Loop descriptions

/// The least outdoor air fraction of a loop: all for an outdoor air system, else as given,
/// else by the needs of the zones.
pub open spec fn design_oa_fraction<T: Scalar>(al: AirLoopInput<T>) -> T {
    if al.system_type == AirLoopSystemType::Doas {
        num(1)
    } else {
        match al.minimum_damper_position {
            Some(position) => position,
            None => al.required_oa_fraction,
        }
    }
}

pub open spec fn economizer_of<T>(al: AirLoopInput<T>) -> Economizer<T> {
    match al.economizer {
        Some(e) => e,
        None => Economizer {
            economizer_type: EconomizerType::NoEconomizer,
            high_limit: None,
            high_limit_enthalpy: None,
        },
    }
}

/// `li` describes an air loop of the model.
pub open spec fn describes<T: Scalar>(
    li: LoopInfo<T>,
    al: AirLoopInput<T>,
    plants: Seq<PlantLoopInput<T>>,
    zones: Seq<ZoneInput<T>>,
) -> bool {
    let connections = al.zone_terminals@;
    &&& li.name@ == al.name@
    &&& li.system_type == al.system_type
    &&& air_side::texts(li.component_names@) == equipment_names(al.equipment@)
    &&& are_fan_names(li.fan_names@, al.equipment@)
    &&& air_side::texts(li.served_zones@) == zone_names(connections)
    &&& li.min_oa_fraction == design_oa_fraction(al)
    &&& li.explicit_min_oa == (al.system_type != AirLoopSystemType::Doas
        && al.minimum_damper_position is Some)
    &&& li.min_vav_fraction == al.min_vav_fraction
    &&& text_of(li.availability_schedule) == text_of(al.availability_schedule)
    &&& li.heating_supply_temp == al.heating_supply_temp
    &&& li.cooling_supply_temp == al.cooling_supply_temp
    &&& li.cycling == al.cycling
    &&& li.fan_operating_mode == al.fan_operating_mode
    &&& texts_under(li.terminal_boxes) == boxes_by_zone(connections, connections.len())
    &&& li.dd_boxes@ == dual_duct_flows(connections, connections.len())
    &&& text_of(li.heat_recovery_name) == first_named(
        al.equipment@,
        EquipmentKind::HeatRecovery,
        0,
    )
    &&& li.hhw_boiler_efficiency == boiler_efficiency(al.equipment@, plants)
    &&& li.dcv == al.dcv
    &&& li.cooling_sat_reset == al.cooling_sat_reset
    &&& li.heating_sat_reset == al.heating_sat_reset
    &&& oa_needs(li.zone_oa_data@) == connection_needs(connections, zones, connections.len())
    &&& li.design_supply_flow == first_fan_flow(al.equipment@, 0)
    &&& li.economizer == economizer_of(al)
}

fn describe<T: Scalar>(
    al: &AirLoopInput<T>,
    plants: &Vec<PlantLoopInput<T>>,
    zones: &Vec<ZoneInput<T>>,
) -> (r: LoopInfo<T>)
    ensures
        describes(r, *al, plants@, zones@),
{
    let is_doas = al.system_type == AirLoopSystemType::Doas;
    let min_oa_fraction = if is_doas {
        num(1)
    } else {
        match al.minimum_damper_position {
            Some(position) => position,
            None => al.required_oa_fraction,
        }
    };
    let economizer = match al.economizer {
        Some(e) => e,
        None => Economizer {
            economizer_type: EconomizerType::NoEconomizer,
            high_limit: None,
            high_limit_enthalpy: None,
        },
    };
    let (terminal_boxes, dd_boxes) = find_boxes(&al.zone_terminals);
    LoopInfo {
        name: al.name.clone(),
        system_type: al.system_type,
        component_names: component_names(&al.equipment),
        fan_names: fan_names(&al.equipment),
        served_zones: served_zones(&al.zone_terminals),
        min_oa_fraction,
        min_vav_fraction: al.min_vav_fraction,
        availability_schedule: copy_text(&al.availability_schedule),
        heating_supply_temp: al.heating_supply_temp,
        cooling_supply_temp: al.cooling_supply_temp,
        cycling: al.cycling,
        fan_operating_mode: al.fan_operating_mode,
        terminal_boxes,
        dd_boxes,
        explicit_min_oa: !is_doas && al.minimum_damper_position.is_some(),
        heat_recovery_name: find_heat_recovery(&al.equipment),
        hhw_boiler_efficiency: find_boiler_efficiency(&al.equipment, plants),
        dcv: al.dcv,
        cooling_sat_reset: al.cooling_sat_reset,
        heating_sat_reset: al.heating_sat_reset,
        zone_oa_data: find_oa_needs(&al.zone_terminals, zones),
        design_supply_flow: find_fan_flow(&al.equipment),
        economizer,
    }
}

/// The descriptions of the air loops of a model, in order.
pub fn build_loop_infos<T: Scalar>(
    model: &ModelInput<T>,
    resolved_zones: &Vec<ZoneInput<T>>,
) -> (r: Vec<LoopInfo<T>>)
    ensures
        r@.len() == model.air_loops@.len(),
        forall|i: int|
            0 <= i < r@.len() ==> describes(
                #[trigger] r@[i],
                model.air_loops@[i],
                model.plant_loops@,
                resolved_zones@,
            ),
{
    let mut infos: Vec<LoopInfo<T>> = Vec::new();
    for i in 0..model.air_loops.len()
        invariant
            infos@.len() == i,
            forall|k: int|
                0 <= k < i ==> describes(
                    #[trigger] infos@[k],
                    model.air_loops@[k],
                    model.plant_loops@,
                    resolved_zones@,
                ),
    {
        infos.push(describe(&model.air_loops[i], &model.plant_loops, resolved_zones));
    }
    infos
}

} // verus!
