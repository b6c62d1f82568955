//! Energy accounting: which end use and which submeter the power of each component goes to.
use crate::air_loop::LoopInfo;
use crate::loop_results;
use crate::model;
use crate::model::{
    AirLoopInput, EquipmentKind, PlantEquipmentKind, PlantLoopInput, TerminalKind,
};
use crate::scalar;
use crate::scalar::{count, gt, num, plus, times, Scalar};
use crate::table;
use crate::table::Table;
use crate::text;
use crate::text::{join, same_text, strip_suffix};
use vstd::prelude::*;
use vstd::string::*;

verus! {

/// The kind of a component, for energy accounting.
#[derive(Clone, Copy, Debug, PartialEq, Eq, Structural)]
pub enum ComponentKind {
    Fan,
    HeatingCoil,
    CoolingCoil,
    Gshp,
    HeatRecovery,
    Humidifier,
    Duct,
    EvapCooler,
    DualDuctBox,
    Boiler,
    Chiller,
    CoolingTower,
    Pump,
    HeatExchanger,
    ThermalStorage,
    VrfOutdoor,
    VrfIndoor,
}

/// How a piece of air-loop equipment counts.
#[verifier::allow_in_spec]
pub fn equipment_kind(kind: EquipmentKind) -> ComponentKind
    returns
        (match kind {
            EquipmentKind::Fan => ComponentKind::Fan,
            EquipmentKind::HeatingCoil => ComponentKind::HeatingCoil,
            EquipmentKind::CoolingCoil => ComponentKind::CoolingCoil,
            EquipmentKind::CoolingCoilMultiSpeed => ComponentKind::CoolingCoil,
            EquipmentKind::Wshp => ComponentKind::CoolingCoil,
            EquipmentKind::Gshp => ComponentKind::Gshp,
            EquipmentKind::HeatRecovery => ComponentKind::HeatRecovery,
            EquipmentKind::Humidifier => ComponentKind::Humidifier,
            EquipmentKind::Duct => ComponentKind::Duct,
            EquipmentKind::EvapCooler => ComponentKind::EvapCooler,
        }),
{
    match kind {
        EquipmentKind::Fan => ComponentKind::Fan,
        EquipmentKind::HeatingCoil => ComponentKind::HeatingCoil,
        EquipmentKind::CoolingCoil => ComponentKind::CoolingCoil,
        EquipmentKind::CoolingCoilMultiSpeed => ComponentKind::CoolingCoil,
        EquipmentKind::Wshp => ComponentKind::CoolingCoil,
        EquipmentKind::Gshp => ComponentKind::Gshp,
        EquipmentKind::HeatRecovery => ComponentKind::HeatRecovery,
        EquipmentKind::Humidifier => ComponentKind::Humidifier,
        EquipmentKind::Duct => ComponentKind::Duct,
        EquipmentKind::EvapCooler => ComponentKind::EvapCooler,
    }
}

/// How a terminal box counts.
#[verifier::allow_in_spec]
pub fn terminal_kind(kind: TerminalKind) -> ComponentKind
    returns
        (match kind {
            TerminalKind::DualDuctBox => ComponentKind::DualDuctBox,
            _ => ComponentKind::HeatingCoil,
        }),
{
    match kind {
        TerminalKind::DualDuctBox => ComponentKind::DualDuctBox,
        _ => ComponentKind::HeatingCoil,
    }
}

/// How a piece of plant equipment counts.
#[verifier::allow_in_spec]
pub fn plant_kind(kind: PlantEquipmentKind) -> ComponentKind
    returns
        (match kind {
            PlantEquipmentKind::Boiler => ComponentKind::Boiler,
            PlantEquipmentKind::Chiller => ComponentKind::Chiller,
            PlantEquipmentKind::CoolingTower => ComponentKind::CoolingTower,
            PlantEquipmentKind::Pump => ComponentKind::Pump,
            PlantEquipmentKind::HeatExchanger => ComponentKind::HeatExchanger,
            PlantEquipmentKind::ThermalStorage => ComponentKind::ThermalStorage,
        }),
{
    match kind {
        PlantEquipmentKind::Boiler => ComponentKind::Boiler,
        PlantEquipmentKind::Chiller => ComponentKind::Chiller,
        PlantEquipmentKind::CoolingTower => ComponentKind::CoolingTower,
        PlantEquipmentKind::Pump => ComponentKind::Pump,
        PlantEquipmentKind::HeatExchanger => ComponentKind::HeatExchanger,
        PlantEquipmentKind::ThermalStorage => ComponentKind::ThermalStorage,
    }
}

/// What the accounting knows of a component.
pub struct Account {
    pub name: String,
    pub kind: ComponentKind,
    /// The submeter; nothing for a component that is not metered by itself.
    pub submeter: Option<String>,
}

/// An account as a value.
pub ghost struct AccountView {
    pub name: Seq<char>,
    pub kind: ComponentKind,
    pub submeter: Option<Seq<char>>,
}

pub open spec fn account_view(a: Account) -> AccountView {
    AccountView { name: a.name@, kind: a.kind, submeter: model::text_of(a.submeter) }
}

pub open spec fn account_views(list: Seq<Account>) -> Seq<AccountView> {
    list.map_values(|a: Account| account_view(a))
}

/// The accounts of the first `n` pieces of equipment of an air loop.
pub open spec fn equipment_accounts<T>(
    equipment: Seq<model::EquipmentInput<T>>,
    n: nat,
) -> Seq<AccountView>
    decreases n,
{
    if n == 0 {
        Seq::empty()
    } else {
        let e = equipment[n - 1];
        equipment_accounts(equipment, (n - 1) as nat).push(
            AccountView {
                name: e.name@,
                kind: equipment_kind(e.kind),
                submeter: Some(e.submeter@),
            },
        )
    }
}

/// The accounts of the terminal boxes of the first `n` zones of an air loop.
pub open spec fn terminal_accounts<T>(
    connections: Seq<model::ZoneConnection<T>>,
    n: nat,
) -> Seq<AccountView>
    decreases n,
{
    if n == 0 {
        Seq::empty()
    } else {
        let rest = terminal_accounts(connections, (n - 1) as nat);
        match connections[n - 1].terminal {
            Some(t) => rest.push(
                AccountView {
                    name: t.name@,
                    kind: terminal_kind(t.kind),
                    submeter: Some(t.submeter@),
                },
            ),
            None => rest,
        }
    }
}

/// The accounts of the first `n` pieces of plant equipment; heat exchangers have no meter.
pub open spec fn plant_accounts<T>(
    equipment: Seq<model::PlantEquipmentInput<T>>,
    n: nat,
) -> Seq<AccountView>
    decreases n,
{
    if n == 0 {
        Seq::empty()
    } else {
        let e = equipment[n - 1];
        plant_accounts(equipment, (n - 1) as nat).push(
            AccountView {
                name: e.name@,
                kind: plant_kind(e.kind),
                submeter: if e.kind == PlantEquipmentKind::HeatExchanger {
                    None
                } else {
                    Some(e.submeter@)
                },
            },
        )
    }
}

/// The accounts of the first `n` air loops.
pub open spec fn air_loop_accounts<T>(loops: Seq<AirLoopInput<T>>, n: nat) -> Seq<AccountView>
    decreases n,
{
    if n == 0 {
        Seq::empty()
    } else {
        let al = loops[n - 1];
        air_loop_accounts(loops, (n - 1) as nat) + equipment_accounts(
            al.equipment@,
            al.equipment@.len(),
        ) + terminal_accounts(al.zone_terminals@, al.zone_terminals@.len())
    }
}

/// The accounts of the first `n` plant loops.
pub open spec fn plant_loop_accounts<T>(plants: Seq<PlantLoopInput<T>>, n: nat) -> Seq<AccountView>
    decreases n,
{
    if n == 0 {
        Seq::empty()
    } else {
        plant_loop_accounts(plants, (n - 1) as nat) + plant_accounts(
            plants[n - 1].supply_equipment@,
            plants[n - 1].supply_equipment@.len(),
        )
    }
}

/// The accounts of all components of the loops of a model, in order.
pub fn loop_accounts<T>(
    loops: &Vec<AirLoopInput<T>>,
    plants: &Vec<PlantLoopInput<T>>,
) -> (r: Vec<Account>)
    ensures
        account_views(r@) == air_loop_accounts(loops@, loops@.len()) + plant_loop_accounts(
            plants@,
            plants@.len(),
        ),
{
    let mut list: Vec<Account> = Vec::new();
    assert(account_views(list@) =~= air_loop_accounts(loops@, 0));
    for i in 0..loops.len()
        invariant
            account_views(list@) == air_loop_accounts(loops@, i as nat),
    {
        let equipment = &loops[i].equipment;
        let ghost start = account_views(list@);
        assert(start =~= start + equipment_accounts(equipment@, 0));
        for j in 0..equipment.len()
            invariant
                account_views(list@) == start + equipment_accounts(equipment@, j as nat),
        {
            let ghost before = list@;
            let e = &equipment[j];
            let account = Account {
                name: e.name.clone(),
                kind: equipment_kind(e.kind),
                submeter: Some(e.submeter.clone()),
            };
            list.push(account);
            assert(account_views(list@) =~= account_views(before).push(account_view(account)));
            assert(account_views(list@) =~= start + equipment_accounts(
                equipment@,
                (j + 1) as nat,
            ));
        }
        let connections = &loops[i].zone_terminals;
        let ghost middle = account_views(list@);
        assert(middle =~= middle + terminal_accounts(connections@, 0));
        for j in 0..connections.len()
            invariant
                account_views(list@) == middle + terminal_accounts(connections@, j as nat),
        {
            if let Some(t) = &connections[j].terminal {
                let ghost before = list@;
                let account = Account {
                    name: t.name.clone(),
                    kind: terminal_kind(t.kind),
                    submeter: Some(t.submeter.clone()),
                };
                list.push(account);
                assert(account_views(list@) =~= account_views(before).push(account_view(account)));
            }
            assert(account_views(list@) =~= middle + terminal_accounts(
                connections@,
                (j + 1) as nat,
            ));
        }
    }
    let ghost air = account_views(list@);
    assert(air =~= air + plant_loop_accounts(plants@, 0));
    for i in 0..plants.len()
        invariant
            account_views(list@) == air + plant_loop_accounts(plants@, i as nat),
    {
        let equipment = &plants[i].supply_equipment;
        let ghost start = account_views(list@);
        assert(start =~= start + plant_accounts(equipment@, 0));
        for j in 0..equipment.len()
            invariant
                account_views(list@) == start + plant_accounts(equipment@, j as nat),
        {
            let ghost before = list@;
            let e = &equipment[j];
            let account = Account {
                name: e.name.clone(),
                kind: plant_kind(e.kind),
                submeter: if e.kind == PlantEquipmentKind::HeatExchanger {
                    None
                } else {
                    Some(e.submeter.clone())
                },
            };
            list.push(account);
            assert(account_views(list@) =~= account_views(before).push(account_view(account)));
            assert(account_views(list@) =~= start + plant_accounts(equipment@, (j + 1) as nat));
        }
        assert(account_views(list@) =~= air + plant_loop_accounts(plants@, (i + 1) as nat));
    }
    list
}

/// The kind of each component by its name; the last account under a name counts.
pub open spec fn kinds_of(accounts: Seq<AccountView>, n: nat) -> Map<Seq<char>, ComponentKind>
    decreases n,
{
    if n == 0 {
        Map::empty()
    } else {
        kinds_of(accounts, (n - 1) as nat).insert(accounts[n - 1].name, accounts[n - 1].kind)
    }
}

/// The submeter of each metered component by its name.
pub open spec fn meters_of(accounts: Seq<AccountView>, n: nat) -> Map<Seq<char>, Seq<char>>
    decreases n,
{
    if n == 0 {
        Map::empty()
    } else {
        let rest = meters_of(accounts, (n - 1) as nat);
        match accounts[n - 1].submeter {
            Some(meter) => rest.insert(accounts[n - 1].name, meter),
            None => rest,
        }
    }
}

/// The kinds and the submeters of components by their names.
pub fn index_accounts(accounts: &Vec<Account>) -> (r: (Table<ComponentKind>, Table<String>))
    ensures
        r.0@ == kinds_of(account_views(accounts@), accounts@.len()),
        model::texts_under(r.1) == meters_of(account_views(accounts@), accounts@.len()),
{
    let mut kinds: Table<ComponentKind> = Table::new();
    let mut meters: Table<String> = Table::new();
    let ghost views = account_views(accounts@);
    assert(model::texts_under(meters) =~= meters_of(views, 0));
    for i in 0..accounts.len()
        invariant
            views == account_views(accounts@),
            kinds@ == kinds_of(views, i as nat),
            model::texts_under(meters) == meters_of(views, i as nat),
    {
        let a = &accounts[i];
        assert(views[i as int] == account_view(*a));
        kinds.insert(a.name.as_str(), a.kind);
        if let Some(meter) = &a.submeter {
            let ghost before = meters;
            meters.insert(a.name.as_str(), meter.clone());
            assert(model::texts_under(meters) =~= model::texts_under(before).insert(
                a.name@,
                meter@,
            ));
        }
    }
    (kinds, meters)
}

// ---------------------------------------------------------------------------
// Zone multipliers

/// The largest multiplier of the first `n` zones of a list that have one.
pub open spec fn largest_multiplier(
    served: Seq<String>,
    multipliers: Map<Seq<char>, u32>,
    n: nat,
) -> Option<u32>
    decreases n,
{
    if n == 0 {
        None
    } else {
        let rest = largest_multiplier(served, multipliers, (n - 1) as nat);
        let zone = served[n - 1]@;
        if !multipliers.contains_key(zone) {
            rest
        } else {
            match rest {
                Some(m) => if m > multipliers[zone] {
                    Some(m)
                } else {
                    Some(multipliers[zone])
                },
                None => Some(multipliers[zone]),
            }
        }
    }
}

/// How many times the energy of a loop counts.
pub open spec fn loop_multiplier(served: Seq<String>, multipliers: Map<Seq<char>, u32>) -> u32 {
    match largest_multiplier(served, multipliers, served.len()) {
        Some(m) => m,
        None => 1,
    }
}

fn find_loop_multiplier(served: &Vec<String>, multipliers: &Table<u32>) -> (r: u32)
    ensures
        r == loop_multiplier(served@, multipliers@),
{
    let mut largest: Option<u32> = None;
    for i in 0..served.len()
        invariant
            largest == largest_multiplier(served@, multipliers@, i as nat),
    {
        if let Some(m) = multipliers.get(served[i].as_str()) {
            largest = match largest {
                Some(old_m) => if old_m > *m {
                    Some(old_m)
                } else {
                    Some(*m)
                },
                None => Some(*m),
            };
        }
    }
    match largest {
        Some(m) => m,
        None => 1,
    }
}

/// `map` with `value` under each of the first `n` names.
pub open spec fn all_set<V>(
    map: Map<Seq<char>, V>,
    names: Seq<Seq<char>>,
    value: V,
    n: nat,
) -> Map<Seq<char>, V>
    decreases n,
{
    if n == 0 {
        map
    } else {
        all_set(map, names, value, (n - 1) as nat).insert(names[n - 1], value)
    }
}

/// The components and terminal boxes of a loop.
pub open spec fn multiplied_names<T>(li: LoopInfo<T>) -> Seq<Seq<char>> {
    crate::air_side::texts(li.component_names@) + li.terminal_boxes.entries@.map_values(
        |e: (String, String)| e.1@,
    )
}

/// How many times the energy of each component of the first `n` loops counts; only loops
/// with a multiplier above one are listed.
pub open spec fn component_multipliers<T: Scalar>(
    loops: Seq<LoopInfo<T>>,
    multipliers: Map<Seq<char>, u32>,
    n: nat,
) -> Map<Seq<char>, T>
    decreases n,
{
    if n == 0 {
        Map::empty()
    } else {
        let rest = component_multipliers(loops, multipliers, (n - 1) as nat);
        let li = loops[n - 1];
        let m = loop_multiplier(li.served_zones@, multipliers);
        if m > 1 {
            all_set(
                rest,
                multiplied_names(li),
                T::whole(m as nat),
                multiplied_names(li).len(),
            )
        } else {
            rest
        }
    }
}

/// How many times the energy of each component counts.
pub fn multiply_components<T: Scalar>(
    loops: &Vec<LoopInfo<T>>,
    multipliers: &Table<u32>,
) -> (r: Table<T>)
    ensures
        r@ == component_multipliers(loops@, multipliers@, loops@.len()),
{
    let mut result: Table<T> = Table::new();
    for i in 0..loops.len()
        invariant
            result@ == component_multipliers(loops@, multipliers@, i as nat),
    {
        let li = &loops[i];
        let m: u32 = find_loop_multiplier(&li.served_zones, multipliers);
        if m > 1 {
            let value: T = count(m as usize);
            let ghost start = result@;
            let ghost names = multiplied_names(*li);
            let ghost first = li.component_names@.len();
            for j in 0..li.component_names.len()
                invariant
                    names == multiplied_names(*li),
                    result@ == all_set(start, names, value, j as nat),
            {
                assert(names[j as int] == li.component_names@[j as int]@);
                result.insert(li.component_names[j].as_str(), value);
            }
            for j in 0..li.terminal_boxes.entries.len()
                invariant
                    names == multiplied_names(*li),
                    first == li.component_names@.len(),
                    result@ == all_set(start, names, value, first + j as nat),
            {
                assert(names[first + j] == li.terminal_boxes.entries@[j as int].1@);
                result.insert(li.terminal_boxes.entries[j].1.as_str(), value);
            }
        }
    }
    result
}

// ---------------------------------------------------------------------------
// End uses

/// The power of a timestep by end use [W].
pub struct EnergySnapshot<T> {
    pub component_electric: Table<T>,
    pub component_fuel: Table<T>,
    pub pump_electric: Table<T>,
    pub humidification: Table<T>,
    pub heat_recovery: Table<T>,
    pub heat_rejection: Table<T>,
}

/// The power of a timestep by end use, as values.
pub ghost struct EndUses<T> {
    pub component_electric: Map<Seq<char>, T>,
    pub component_fuel: Map<Seq<char>, T>,
    pub pump_electric: Map<Seq<char>, T>,
    pub humidification: Map<Seq<char>, T>,
    pub heat_recovery: Map<Seq<char>, T>,
    pub heat_rejection: Map<Seq<char>, T>,
}

pub open spec fn end_uses<T>(s: EnergySnapshot<T>) -> EndUses<T> {
    EndUses {
        component_electric: s.component_electric@,
        component_fuel: s.component_fuel@,
        pump_electric: s.pump_electric@,
        humidification: s.humidification@,
        heat_recovery: s.heat_recovery@,
        heat_rejection: s.heat_rejection@,
    }
}

/// The name under which the power of a ground-source heat pump is booked: by the mode it
/// ran in.
pub open spec fn gshp_key<T: Scalar>(name: Seq<char>, thermal: T) -> Seq<char> {
    if gt(thermal, num(0)) {
        name + " [gshp heating]"@
    } else {
        name + " [gshp cooling]"@
    }
}

/// The end uses with the electric power of one component.
pub open spec fn with_electric<T: Scalar>(
    e: EndUses<T>,
    name: Seq<char>,
    kind: Option<ComponentKind>,
    power: T,
    thermal: T,
) -> EndUses<T> {
    match kind {
        Some(ComponentKind::Pump) => EndUses {
            pump_electric: e.pump_electric.insert(name, power),
            ..e
        },
        Some(ComponentKind::Humidifier) => EndUses {
            humidification: e.humidification.insert(name, power),
            ..e
        },
        Some(ComponentKind::HeatRecovery) => EndUses {
            heat_recovery: e.heat_recovery.insert(name, power),
            ..e
        },
        Some(ComponentKind::CoolingTower) => EndUses {
            heat_rejection: e.heat_rejection.insert(name, power),
            ..e
        },
        Some(ComponentKind::Gshp) => EndUses {
            component_electric: e.component_electric.insert(gshp_key(name, thermal), power),
            ..e
        },
        _ => EndUses { component_electric: e.component_electric.insert(name, power), ..e },
    }
}

pub open spec fn kind_of(kinds: Map<Seq<char>, ComponentKind>, name: Seq<char>) -> Option<
    ComponentKind,
> {
    if kinds.contains_key(name) {
        Some(kinds[name])
    } else {
        None
    }
}

/// The end uses with the power of one component, for all copies of its zones.
pub open spec fn with_component<T: Scalar>(
    e: EndUses<T>,
    name: Seq<char>,
    outputs: Map<Seq<char>, T>,
    multipliers: Map<Seq<char>, T>,
    kinds: Map<Seq<char>, ComponentKind>,
) -> EndUses<T> {
    let copies = table::value_or(multipliers, name, num(1));
    let electric = if outputs.contains_key("electric_power"@) {
        with_electric(
            e,
            name,
            kind_of(kinds, name),
            times(outputs["electric_power"@], copies),
            table::value_or(outputs, "thermal_output"@, num(0)),
        )
    } else {
        e
    };
    if name == "Weather"@ {
        e
    } else if outputs.contains_key("fuel_power"@) {
        EndUses {
            component_fuel: electric.component_fuel.insert(
                name,
                times(outputs["fuel_power"@], copies),
            ),
            ..electric
        }
    } else {
        electric
    }
}

/// The end uses with the power of components with results.
pub open spec fn with_components<T: Scalar>(
    e: EndUses<T>,
    results: Seq<(Seq<char>, Table<T>)>,
    multipliers: Map<Seq<char>, T>,
    kinds: Map<Seq<char>, ComponentKind>,
) -> EndUses<T>
    decreases results.len(),
{
    if results.len() == 0 {
        e
    } else {
        with_component(
            with_components(e, results.drop_last(), multipliers, kinds),
            results.last().0,
            results.last().1@,
            multipliers,
            kinds,
        )
    }
}

impl<T: Scalar> EnergySnapshot<T> {
    pub fn new() -> (r: Self)
        ensures
            end_uses(r) == (EndUses::<T> {
                component_electric: Map::empty(),
                component_fuel: Map::empty(),
                pump_electric: Map::empty(),
                humidification: Map::empty(),
                heat_recovery: Map::empty(),
                heat_rejection: Map::empty(),
            }),
    {
        EnergySnapshot {
            component_electric: Table::new(),
            component_fuel: Table::new(),
            pump_electric: Table::new(),
            humidification: Table::new(),
            heat_recovery: Table::new(),
            heat_rejection: Table::new(),
        }
    }

    fn book_electric(&mut self, name: &str, kind: Option<ComponentKind>, power: T, thermal: T)
        ensures
            end_uses(*final(self)) == with_electric(
                end_uses(*old(self)),
                name@,
                kind,
                power,
                thermal,
            ),
    {
        match kind {
            Some(ComponentKind::Pump) => self.pump_electric.insert(name, power),
            Some(ComponentKind::Humidifier) => self.humidification.insert(name, power),
            Some(ComponentKind::HeatRecovery) => self.heat_recovery.insert(name, power),
            Some(ComponentKind::CoolingTower) => self.heat_rejection.insert(name, power),
            Some(ComponentKind::Gshp) => {
                let key = if gt(thermal, num(0)) {
                    join(name, " [gshp heating]")
                } else {
                    join(name, " [gshp cooling]")
                };
                self.component_electric.insert(key.as_str(), power);
            },
            _ => self.component_electric.insert(name, power),
        }
    }

    fn book_component(
        &mut self,
        name: &str,
        outputs: &Table<T>,
        multipliers: &Table<T>,
        kinds: &Table<ComponentKind>,
    )
        ensures
            end_uses(*final(self)) == with_component(
                end_uses(*old(self)),
                name@,
                outputs@,
                multipliers@,
                kinds@,
            ),
    {
        if same_text(name, "Weather") {
            return ;
        }
        let copies = multipliers.get_or(name, num(1));
        if let Some(power) = outputs.get("electric_power") {
            let kind = match kinds.get(name) {
                Some(k) => Some(*k),
                None => None,
            };
            let thermal = outputs.get_or("thermal_output", num(0));
            self.book_electric(name, kind, times(*power, copies), thermal);
        }
        if let Some(power) = outputs.get("fuel_power") {
            self.component_fuel.insert(name, times(*power, copies));
        }
    }

    /// Books the power of all components with results by end use.
    pub fn book_components(
        &mut self,
        results: &Table<Table<T>>,
        multipliers: &Table<T>,
        kinds: &Table<ComponentKind>,
    )
        ensures
            end_uses(*final(self)) == with_components(
                end_uses(*old(self)),
                results.listed(),
                multipliers@,
                kinds@,
            ),
    {
        let ghost start = end_uses(*self);
        let ghost all = results.entries@;
        for i in 0..results.entries.len()
            invariant
                all == results.entries@,
                end_uses(*self) == with_components(
                    start,
                    table::listed_of(all.take(i as int)),
                    multipliers@,
                    kinds@,
                ),
        {
            proof {
                table::listed_one_more(all, i as int);
            }
            if !results.is_repeat(i) {
                self.book_component(
                    results.entries[i].0.as_str(),
                    &results.entries[i].1,
                    multipliers,
                    kinds,
                );
                assert(table::listed_of(all.take(i + 1)).drop_last() =~= table::listed_of(
                    all.take(i as int),
                ));
            }
        }
        assert(all.take(all.len() as int) =~= all);
    }

    /// Books the exhaust fan of a zone, if it runs.
    pub fn book_exhaust_fan(&mut self, zone: &str, power: T, copies: u32)
        ensures
            end_uses(*final(self)) == if gt(power, num(0)) {
                EndUses {
                    component_electric: end_uses(*old(self)).component_electric.insert(
                        "Exhaust Fan "@ + zone@,
                        times(power, T::whole(copies as nat)),
                    ),
                    ..end_uses(*old(self))
                }
            } else {
                end_uses(*old(self))
            },
    {
        if gt(power, num(0)) {
            let name = join("Exhaust Fan ", zone);
            self.component_electric.insert(name.as_str(), times(power, count(copies as usize)));
        }
    }

    /// Books the power of an electric radiant panel, if it runs.
    pub fn book_panel(&mut self, name: &str, power: T)
        ensures
            end_uses(*final(self)) == if gt(power, num(0)) {
                EndUses {
                    component_electric: end_uses(*old(self)).component_electric.insert(
                        name@,
                        power,
                    ),
                    ..end_uses(*old(self))
                }
            } else {
                end_uses(*old(self))
            },
    {
        if gt(power, num(0)) {
            self.component_electric.insert(name, power);
        }
    }
}

// ---------------------------------------------------------------------------
// Submeters

/// The power of submeters by end use.
pub type Meters<T> = Map<Seq<char>, Map<Seq<char>, T>>;

/// The power on a meter so far.
pub open spec fn on_meter<T>(meters: Meters<T>, meter: Seq<char>) -> Map<Seq<char>, T> {
    table::value_or(meters, meter, Map::empty())
}

/// The meters with `watts` more for an end use on one of them.
pub open spec fn metered<T: Scalar>(
    meters: Meters<T>,
    meter: Seq<char>,
    end_use: Seq<char>,
    watts: T,
) -> Meters<T> {
    let own = on_meter(meters, meter);
    meters.insert(
        meter,
        own.insert(end_use, plus(table::value_or(own, end_use, num(0)), watts)),
    )
}

/// What is booked on a meter is added to its end use there, and nothing else changes.
pub proof fn booking_changes_one_end_use<T: Scalar>(
    meters: Meters<T>,
    meter: Seq<char>,
    end_use: Seq<char>,
    watts: T,
    other_meter: Seq<char>,
    other_use: Seq<char>,
)
    ensures
        table::value_or(on_meter(metered(meters, meter, end_use, watts), meter), end_use, num(0))
            == plus(table::value_or(on_meter(meters, meter), end_use, num(0)), watts),
        (other_meter != meter || other_use != end_use) ==> {
            table::value_or(
                on_meter(metered(meters, meter, end_use, watts), other_meter),
                other_use,
                num(0),
            ) == table::value_or(on_meter(meters, other_meter), other_use, num::<T>(0))
        },
{
}

/// The meters of a timestep.
pub struct Submeters<T> {
    pub power: Table<Table<T>>,
}

pub open spec fn meters_view<T>(s: Submeters<T>) -> Meters<T> {
    loop_results::outputs_of(s.power)
}

/// The meter of a component: its own submeter, or the general one.
pub open spec fn meter_for(meters: Map<Seq<char>, Seq<char>>, name: Seq<char>) -> Seq<char> {
    table::value_or(meters, name, "General"@)
}

/// The end use of the electric power of a component by its kind.
pub open spec fn electric_end_use(kind: Option<ComponentKind>) -> Seq<char> {
    match kind {
        Some(ComponentKind::Fan) => "fan_electric"@,
        Some(ComponentKind::CoolingCoil) => "cooling_electric"@,
        Some(ComponentKind::EvapCooler) => "cooling_electric"@,
        Some(ComponentKind::ThermalStorage) => "cooling_electric"@,
        Some(ComponentKind::Chiller) => "cooling_electric"@,
        Some(ComponentKind::VrfOutdoor) => "cooling_electric"@,
        Some(ComponentKind::Gshp) => "cooling_electric"@,
        Some(ComponentKind::HeatingCoil) => "heating_electric"@,
        Some(ComponentKind::Boiler) => "heating_electric"@,
        _ => "misc_electric"@,
    }
}

/// The meter and the end use of electric power booked under a name. A ground-source heat
/// pump is booked with its mode behind its name.
pub open spec fn electric_route(
    key: Seq<char>,
    kinds: Map<Seq<char>, ComponentKind>,
    meters: Map<Seq<char>, Seq<char>>,
) -> (Seq<char>, Seq<char>) {
    if text::ends_with(key, " [gshp heating]"@) {
        (
            meter_for(meters, key.take(key.len() - " [gshp heating]"@.len())),
            "heating_electric"@,
        )
    } else if text::ends_with(key, " [gshp cooling]"@) {
        (
            meter_for(meters, key.take(key.len() - " [gshp cooling]"@.len())),
            "cooling_electric"@,
        )
    } else {
        (meter_for(meters, key), electric_end_use(kind_of(kinds, key)))
    }
}

/// The power of a ground-source heat pump in heating goes to the heating of its own meter.
pub proof fn gshp_heating_goes_to_its_own_meter<T: Scalar>(
    name: Seq<char>,
    thermal: T,
    kinds: Map<Seq<char>, ComponentKind>,
    meters: Map<Seq<char>, Seq<char>>,
)
    requires
        gt(thermal, num(0)),
    ensures
        electric_route(gshp_key(name, thermal), kinds, meters) == (
            meter_for(meters, name),
            "heating_electric"@,
        ),
{
    text::suffix_comes_off(name, " [gshp heating]"@);
}

/// The power of a ground-source heat pump out of heating goes to the cooling of its own
/// meter.
pub proof fn gshp_cooling_goes_to_its_own_meter<T: Scalar>(
    name: Seq<char>,
    thermal: T,
    kinds: Map<Seq<char>, ComponentKind>,
    meters: Map<Seq<char>, Seq<char>>,
)
    requires
        !gt(thermal, num(0)),
    ensures
        electric_route(gshp_key(name, thermal), kinds, meters) == (
            meter_for(meters, name),
            "cooling_electric"@,
        ),
{
    text::suffix_comes_off(name, " [gshp cooling]"@);
    let key = name + " [gshp cooling]"@;
    reveal_strlit(" [gshp heating]");
    reveal_strlit(" [gshp cooling]");
    if text::ends_with(key, " [gshp heating]"@) {
        // Both suffixes have fifteen characters, and they differ in the eighth.
        let at = key.len() - 15;
        assert(key.subrange(at, at + 15) == " [gshp heating]"@);
        assert(key[at + 7] == " [gshp heating]"@[7]);
        assert(key[at + 7] == " [gshp cooling]"@[7]);
    }
}

/// The meters with the electric power of components.
pub open spec fn with_electric_power<T: Scalar>(
    m: Meters<T>,
    powers: Seq<(Seq<char>, T)>,
    kinds: Map<Seq<char>, ComponentKind>,
    meters: Map<Seq<char>, Seq<char>>,
) -> Meters<T>
    decreases powers.len(),
{
    if powers.len() == 0 {
        m
    } else {
        let (meter, end_use) = electric_route(powers.last().0, kinds, meters);
        metered(
            with_electric_power(m, powers.drop_last(), kinds, meters),
            meter,
            end_use,
            powers.last().1,
        )
    }
}

/// The meters with the power of components for one end use.
pub open spec fn with_power<T: Scalar>(
    m: Meters<T>,
    powers: Seq<(Seq<char>, T)>,
    end_use: Seq<char>,
    meters: Map<Seq<char>, Seq<char>>,
) -> Meters<T>
    decreases powers.len(),
{
    if powers.len() == 0 {
        m
    } else {
        metered(
            with_power(m, powers.drop_last(), end_use, meters),
            meter_for(meters, powers.last().0),
            end_use,
            powers.last().1,
        )
    }
}

/// The meters with all end uses of a snapshot.
pub open spec fn with_snapshot<T: Scalar>(
    m: Meters<T>,
    s: EnergySnapshot<T>,
    kinds: Map<Seq<char>, ComponentKind>,
    meters: Map<Seq<char>, Seq<char>>,
) -> Meters<T> {
    let electric = with_electric_power(m, s.component_electric.listed(), kinds, meters);
    let fuel = with_power(electric, s.component_fuel.listed(), "heating_gas"@, meters);
    let pumps = with_power(fuel, s.pump_electric.listed(), "pump_electric"@, meters);
    let rejection = with_power(pumps, s.heat_rejection.listed(), "heat_rejection"@, meters);
    let humid = with_power(rejection, s.humidification.listed(), "humidification"@, meters);
    with_power(humid, s.heat_recovery.listed(), "heat_recovery"@, meters)
}

fn find_meter(meters: &Table<String>, name: &str) -> (r: String)
    ensures
        r@ == meter_for(model::texts_under(*meters), name@),
{
    match meters.get(name) {
        Some(meter) => meter.clone(),
        None => "General".to_owned(),
    }
}

fn find_electric_end_use(kind: Option<ComponentKind>) -> (r: String)
    ensures
        r@ == electric_end_use(kind),
{
    match kind {
        Some(ComponentKind::Fan) => "fan_electric".to_owned(),
        Some(ComponentKind::CoolingCoil)
        | Some(ComponentKind::EvapCooler)
        | Some(ComponentKind::ThermalStorage)
        | Some(ComponentKind::Chiller)
        | Some(ComponentKind::VrfOutdoor)
        | Some(ComponentKind::Gshp) => "cooling_electric".to_owned(),
        Some(ComponentKind::HeatingCoil) | Some(ComponentKind::Boiler) => {
            "heating_electric".to_owned()
        },
        _ => "misc_electric".to_owned(),
    }
}

fn route_electric(
    key: &str,
    kinds: &Table<ComponentKind>,
    meters: &Table<String>,
) -> (r: (String, String))
    ensures
        (r.0@, r.1@) == electric_route(key@, kinds@, model::texts_under(*meters)),
{
    if let Some(name) = strip_suffix(key, " [gshp heating]") {
        return (find_meter(meters, name.as_str()), "heating_electric".to_owned());
    }
    if let Some(name) = strip_suffix(key, " [gshp cooling]") {
        return (find_meter(meters, name.as_str()), "cooling_electric".to_owned());
    }
    let kind = match kinds.get(key) {
        Some(k) => Some(*k),
        None => None,
    };
    (find_meter(meters, key), find_electric_end_use(kind))
}

/// The power of an internal gain in all copies of its zone [W]: what it is rated at, as far as
/// its schedule has it on. Without a schedule it is always on.
#[verifier::allow_in_spec]
pub fn gain_power<T: Scalar>(power: T, schedule: Option<T>, copies: u32) -> T
    returns
        times(
            times(
                power,
                match schedule {
                    Some(part) => part,
                    None => num(1),
                },
            ),
            T::whole(copies as nat),
        ),
{
    let part = match schedule {
        Some(part) => part,
        None => num(1),
    };
    times(times(power, part), count(copies as usize))
}

impl<T: Scalar> Submeters<T> {
    pub fn new() -> (r: Self)
        ensures
            meters_view(r) == Map::<Seq<char>, Map<Seq<char>, T>>::empty(),
    {
        let s = Submeters { power: Table::new() };
        assert(meters_view(s) =~= Map::<Seq<char>, Map<Seq<char>, T>>::empty());
        s
    }

    /// Adds power to an end use on a meter.
    pub fn add(&mut self, meter: &str, end_use: &str, watts: T)
        ensures
            meters_view(*final(self)) == metered(meters_view(*old(self)), meter@, end_use@, watts),
    {
        let ghost before = meters_view(*self);
        let own = match self.power.get(meter) {
            Some(own) => own,
            None => &Table::new(),
        };
        let mut next: Table<T> = Table::new();
        next.merge(own);
        assert(own@ =~= on_meter(before, meter@));
        assert(next@ =~= own@);
        let sum = plus(next.get_or(end_use, num(0)), watts);
        next.insert(end_use, sum);
        self.power.insert(meter, next);
        assert(meters_view(*self) =~= metered(before, meter@, end_use@, watts));
    }

    fn add_all(&mut self, powers: &Table<T>, end_use: &str, meters: &Table<String>)
        ensures
            meters_view(*final(self)) == with_power(
                meters_view(*old(self)),
                powers.listed(),
                end_use@,
                model::texts_under(*meters),
            ),
    {
        let ghost start = meters_view(*self);
        let ghost all = powers.entries@;
        for i in 0..powers.entries.len()
            invariant
                all == powers.entries@,
                meters_view(*self) == with_power(
                    start,
                    table::listed_of(all.take(i as int)),
                    end_use@,
                    model::texts_under(*meters),
                ),
        {
            proof {
                table::listed_one_more(all, i as int);
            }
            if !powers.is_repeat(i) {
                let meter = find_meter(meters, powers.entries[i].0.as_str());
                self.add(meter.as_str(), end_use, powers.entries[i].1);
                assert(table::listed_of(all.take(i + 1)).drop_last() =~= table::listed_of(
                    all.take(i as int),
                ));
            }
        }
        assert(all.take(all.len() as int) =~= all);
    }

    fn add_electric(
        &mut self,
        powers: &Table<T>,
        kinds: &Table<ComponentKind>,
        meters: &Table<String>,
    )
        ensures
            meters_view(*final(self)) == with_electric_power(
                meters_view(*old(self)),
                powers.listed(),
                kinds@,
                model::texts_under(*meters),
            ),
    {
        let ghost start = meters_view(*self);
        let ghost all = powers.entries@;
        for i in 0..powers.entries.len()
            invariant
                all == powers.entries@,
                meters_view(*self) == with_electric_power(
                    start,
                    table::listed_of(all.take(i as int)),
                    kinds@,
                    model::texts_under(*meters),
                ),
        {
            proof {
                table::listed_one_more(all, i as int);
            }
            if !powers.is_repeat(i) {
                let (meter, end_use) = route_electric(
                    powers.entries[i].0.as_str(),
                    kinds,
                    meters,
                );
                self.add(meter.as_str(), end_use.as_str(), powers.entries[i].1);
                assert(table::listed_of(all.take(i + 1)).drop_last() =~= table::listed_of(
                    all.take(i as int),
                ));
            }
        }
        assert(all.take(all.len() as int) =~= all);
    }

    /// Adds all end uses of a snapshot, each to the meter of its component.
    pub fn add_snapshot(
        &mut self,
        s: &EnergySnapshot<T>,
        kinds: &Table<ComponentKind>,
        meters: &Table<String>,
    )
        ensures
            meters_view(*final(self)) == with_snapshot(
                meters_view(*old(self)),
                *s,
                kinds@,
                model::texts_under(*meters),
            ),
    {
        self.add_electric(&s.component_electric, kinds, meters);
        self.add_all(&s.component_fuel, "heating_gas", meters);
        self.add_all(&s.pump_electric, "pump_electric", meters);
        self.add_all(&s.heat_rejection, "heat_rejection", meters);
        self.add_all(&s.humidification, "humidification", meters);
        self.add_all(&s.heat_recovery, "heat_recovery", meters);
    }
}

} // verus!
