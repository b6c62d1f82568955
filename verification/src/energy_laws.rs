//! Where the energy of a component is booked: under which end use, on which meter, and how often.
use crate::air_loop::LoopInfo;
use crate::energy;
use crate::energy::{AccountView, ComponentKind, EndUses, EnergySnapshot, Meters};
use crate::fixed;
use crate::fixed::Fixed;
use crate::model::{
    AirLoopInput, EquipmentKind, PlantEquipmentKind, PlantLoopInput, TerminalKind,
};
use crate::scalar::{gt, num, plus, times, Scalar};
use crate::text;
use vstd::arithmetic::div_mod::*;
use vstd::prelude::*;

verus! {

// ---------------------------------------------------------------------------
// Kinds

/// Each piece of equipment is accounted for as what it is: coils of every make that cool, and
/// water-source heat pumps, as cooling coils, and terminal boxes that reheat as heating coils.
pub proof fn equipment_counts_as_what_it_is()
    ensures
        energy::equipment_kind(EquipmentKind::Fan) == ComponentKind::Fan,
        energy::equipment_kind(EquipmentKind::HeatingCoil) == ComponentKind::HeatingCoil,
        energy::equipment_kind(EquipmentKind::CoolingCoil) == ComponentKind::CoolingCoil,
        energy::equipment_kind(EquipmentKind::CoolingCoilMultiSpeed) == ComponentKind::CoolingCoil,
        energy::equipment_kind(EquipmentKind::Wshp) == ComponentKind::CoolingCoil,
        energy::equipment_kind(EquipmentKind::Gshp) == ComponentKind::Gshp,
        energy::equipment_kind(EquipmentKind::HeatRecovery) == ComponentKind::HeatRecovery,
        energy::equipment_kind(EquipmentKind::Humidifier) == ComponentKind::Humidifier,
        energy::equipment_kind(EquipmentKind::Duct) == ComponentKind::Duct,
        energy::equipment_kind(EquipmentKind::EvapCooler) == ComponentKind::EvapCooler,
        energy::terminal_kind(TerminalKind::VavBox) == ComponentKind::HeatingCoil,
        energy::terminal_kind(TerminalKind::PfpBox) == ComponentKind::HeatingCoil,
        energy::terminal_kind(TerminalKind::DualDuctBox) == ComponentKind::DualDuctBox,
        energy::plant_kind(PlantEquipmentKind::Boiler) == ComponentKind::Boiler,
        energy::plant_kind(PlantEquipmentKind::Chiller) == ComponentKind::Chiller,
        energy::plant_kind(PlantEquipmentKind::CoolingTower) == ComponentKind::CoolingTower,
        energy::plant_kind(PlantEquipmentKind::Pump) == ComponentKind::Pump,
        energy::plant_kind(PlantEquipmentKind::HeatExchanger) == ComponentKind::HeatExchanger,
        energy::plant_kind(PlantEquipmentKind::ThermalStorage) == ComponentKind::ThermalStorage,
{
}

/// Every piece of equipment of an air loop has an account, under its name, its kind and its
/// submeter.
pub proof fn equipment_has_an_account<T>(
    equipment: Seq<crate::model::EquipmentInput<T>>,
    n: nat,
    i: int,
)
    requires
        0 <= i < n <= equipment.len(),
    ensures
        energy::equipment_accounts(equipment, n).len() == n,
        energy::equipment_accounts(equipment, n)[i].name == equipment[i].name@,
        energy::equipment_accounts(equipment, n)[i].kind == energy::equipment_kind(
            equipment[i].kind,
        ),
        energy::equipment_accounts(equipment, n)[i].submeter == Some(equipment[i].submeter@),
    decreases n,
{
    if n > 1 {
        let j = if i < n - 1 {
            i
        } else {
            0
        };
        equipment_has_an_account(equipment, (n - 1) as nat, j);
    } else {
        assert(energy::equipment_accounts(equipment, 0).len() == 0);
    }
}

/// Every piece of plant equipment has an account, under its name, its kind and, but for heat
/// exchangers, its submeter.
pub proof fn plant_equipment_has_an_account<T>(
    equipment: Seq<crate::model::PlantEquipmentInput<T>>,
    n: nat,
    i: int,
)
    requires
        0 <= i < n <= equipment.len(),
    ensures
        energy::plant_accounts(equipment, n).len() == n,
        energy::plant_accounts(equipment, n)[i].name == equipment[i].name@,
        energy::plant_accounts(equipment, n)[i].kind == energy::plant_kind(equipment[i].kind),
        equipment[i].kind == PlantEquipmentKind::HeatExchanger ==> energy::plant_accounts(
            equipment,
            n,
        )[i].submeter is None,
        equipment[i].kind != PlantEquipmentKind::HeatExchanger ==> energy::plant_accounts(
            equipment,
            n,
        )[i].submeter == Some(equipment[i].submeter@),
    decreases n,
{
    if n > 1 {
        let j = if i < n - 1 {
            i
        } else {
            0
        };
        plant_equipment_has_an_account(equipment, (n - 1) as nat, j);
    } else {
        assert(energy::plant_accounts(equipment, 0).len() == 0);
    }
}

/// Every terminal box has an account under its name, its kind and its submeter, and a zone without
/// one has none.
pub proof fn terminals_have_accounts<T>(
    connections: Seq<crate::model::ZoneConnection<T>>,
    n: nat,
)
    requires
        n < connections.len(),
    ensures
        energy::terminal_accounts(connections, 0).len() == 0,
        ({
            let before = energy::terminal_accounts(connections, n);
            let after = energy::terminal_accounts(connections, n + 1);
            match connections[n as int].terminal {
                Some(t) => {
                    &&& after.len() == before.len() + 1
                    &&& after.drop_last() == before
                    &&& after.last().name == t.name@
                    &&& after.last().kind == energy::terminal_kind(t.kind)
                    &&& after.last().submeter == Some(t.submeter@)
                },
                None => after == before,
            }
        }),
{
    let before = energy::terminal_accounts(connections, n);
    let after = energy::terminal_accounts(connections, n + 1);
    if connections[n as int].terminal is Some {
        assert(after.drop_last() =~= before);
    }
}

/// The last account under a name gives the component its kind and its meter.
pub proof fn last_account_counts(accounts: Seq<AccountView>, n: nat, i: int)
    requires
        0 <= i < n <= accounts.len(),
        forall|j: int| i < j < n ==> (#[trigger] accounts[j]).name != accounts[i].name,
    ensures
        energy::kinds_of(accounts, n).contains_key(accounts[i].name),
        energy::kinds_of(accounts, n)[accounts[i].name] == accounts[i].kind,
        accounts[i].submeter is Some ==> {
            &&& energy::meters_of(accounts, n).contains_key(accounts[i].name)
            &&& energy::meters_of(accounts, n)[accounts[i].name] == accounts[i].submeter->Some_0
        },
    decreases n,
{
    if i < n - 1 {
        assert(accounts[n - 1].name != accounts[i].name);
        last_account_counts(accounts, (n - 1) as nat, i);
    }
}

// ---------------------------------------------------------------------------
// Booking

/// What is under a name, or nothing.
pub open spec fn under<T: Scalar>(map: Map<Seq<char>, T>, name: Seq<char>) -> T {
    if map.contains_key(name) {
        map[name]
    } else {
        num(0)
    }
}

/// How often a component counts.
pub open spec fn copies_of<T: Scalar>(multipliers: Map<Seq<char>, T>, name: Seq<char>) -> T {
    if multipliers.contains_key(name) {
        multipliers[name]
    } else {
        num(1)
    }
}

/// The electric power of a component is booked, as often as it counts, under its name: that of
/// pumps under pumps, that of humidifiers under humidification, that of heat recovery units under
/// heat recovery, that of cooling towers under heat rejection, and all else under components. The
/// rest of the books stays as it was.
pub proof fn electric_power_is_booked_by_kind<T: Scalar>(
    e: EndUses<T>,
    name: Seq<char>,
    outputs: Map<Seq<char>, T>,
    multipliers: Map<Seq<char>, T>,
    kinds: Map<Seq<char>, ComponentKind>,
)
    requires
        name != "Weather"@,
        outputs.contains_key("electric_power"@),
        !outputs.contains_key("fuel_power"@),
    ensures
        ({
            let after = energy::with_component(e, name, outputs, multipliers, kinds);
            let watts = times(outputs["electric_power"@], copies_of(multipliers, name));
            let known = kinds.contains_key(name);
            let kind = kinds[name];
            let heats = gt(under(outputs, "thermal_output"@), num(0));
            let key = if known && kind == ComponentKind::Gshp {
                if heats {
                    name + " [gshp heating]"@
                } else {
                    name + " [gshp cooling]"@
                }
            } else {
                name
            };
            let pump = known && kind == ComponentKind::Pump;
            let humid = known && kind == ComponentKind::Humidifier;
            let recovery = known && kind == ComponentKind::HeatRecovery;
            let tower = known && kind == ComponentKind::CoolingTower;
            &&& after.component_fuel == e.component_fuel
            &&& pump ==> after.pump_electric == e.pump_electric.insert(name, watts)
            &&& !pump ==> after.pump_electric == e.pump_electric
            &&& humid ==> after.humidification == e.humidification.insert(name, watts)
            &&& !humid ==> after.humidification == e.humidification
            &&& recovery ==> after.heat_recovery == e.heat_recovery.insert(name, watts)
            &&& !recovery ==> after.heat_recovery == e.heat_recovery
            &&& tower ==> after.heat_rejection == e.heat_rejection.insert(name, watts)
            &&& !tower ==> after.heat_rejection == e.heat_rejection
            &&& pump || humid || recovery || tower ==> after.component_electric
                == e.component_electric
            &&& !pump && !humid && !recovery && !tower ==> after.component_electric
                == e.component_electric.insert(key, watts)
        }),
{
}

/// The fuel of a component is booked, as often as it counts, under its name, whatever its kind,
/// and changes nothing of the electric power.
pub proof fn fuel_is_booked_as_fuel<T: Scalar>(
    e: EndUses<T>,
    name: Seq<char>,
    outputs: Map<Seq<char>, T>,
    multipliers: Map<Seq<char>, T>,
    kinds: Map<Seq<char>, ComponentKind>,
)
    requires
        name != "Weather"@,
    ensures
        ({
            let after = energy::with_component(e, name, outputs, multipliers, kinds);
            let electric = energy::with_component(
                e,
                name,
                outputs.remove("fuel_power"@),
                multipliers,
                kinds,
            );
            &&& outputs.contains_key("fuel_power"@) ==> after.component_fuel
                == e.component_fuel.insert(
                name,
                times(outputs["fuel_power"@], copies_of(multipliers, name)),
            )
            &&& !outputs.contains_key("fuel_power"@) ==> after.component_fuel == e.component_fuel
            &&& after.component_electric == electric.component_electric
            &&& after.pump_electric == electric.pump_electric
            &&& after.humidification == electric.humidification
            &&& after.heat_recovery == electric.heat_recovery
            &&& after.heat_rejection == electric.heat_rejection
            &&& !outputs.contains_key("electric_power"@) ==> after.component_electric
                == e.component_electric
        }),
{
    reveal_strlit("fuel_power");
    reveal_strlit("electric_power");
    reveal_strlit("thermal_output");
    assert("fuel_power"@.len() == 10);
    assert("electric_power"@.len() == 14);
    assert("thermal_output"@.len() == 14);
}

/// The weather is no component, and nothing of it is booked.
pub proof fn weather_is_not_booked<T: Scalar>(
    e: EndUses<T>,
    outputs: Map<Seq<char>, T>,
    multipliers: Map<Seq<char>, T>,
    kinds: Map<Seq<char>, ComponentKind>,
)
    ensures
        energy::with_component(e, "Weather"@, outputs, multipliers, kinds) == e,
{
}

/// All components are booked, one after the other.
pub proof fn every_component_is_booked<T: Scalar>(
    e: EndUses<T>,
    results: Seq<(Seq<char>, crate::table::Table<T>)>,
    name: Seq<char>,
    outputs: crate::table::Table<T>,
    multipliers: Map<Seq<char>, T>,
    kinds: Map<Seq<char>, ComponentKind>,
)
    ensures
        energy::with_components(e, Seq::empty(), multipliers, kinds) == e,
        energy::with_components(e, results.push((name, outputs)), multipliers, kinds)
            == energy::with_component(
            energy::with_components(e, results, multipliers, kinds),
            name,
            outputs@,
            multipliers,
            kinds,
        ),
{
    assert(results.push((name, outputs)).drop_last() =~= results);
}

// ---------------------------------------------------------------------------
// Meters

/// What a meter shows for an end use.
pub open spec fn reading<T: Scalar>(m: Meters<T>, meter: Seq<char>, end_use: Seq<char>) -> T {
    if m.contains_key(meter) && m[meter].contains_key(end_use) {
        m[meter][end_use]
    } else {
        num(0)
    }
}

/// The meters show more for one end use on one of them, and else what they did.
pub open spec fn shows_more<T: Scalar>(
    before: Meters<T>,
    after: Meters<T>,
    meter: Seq<char>,
    end_use: Seq<char>,
    watts: T,
) -> bool {
    &&& reading(after, meter, end_use) == plus(reading(before, meter, end_use), watts)
    &&& forall|other: Seq<char>, other_use: Seq<char>|
        (other != meter || other_use != end_use) ==> #[trigger] reading(after, other, other_use)
            == reading(before, other, other_use)
}

/// The meter of a component: its submeter, or else the general one.
pub open spec fn own_meter(meters: Map<Seq<char>, Seq<char>>, name: Seq<char>) -> Seq<char> {
    if meters.contains_key(name) {
        meters[name]
    } else {
        "General"@
    }
}

/// The name carries no mode of a ground-source heat pump.
pub open spec fn is_plain_name(name: Seq<char>) -> bool {
    !text::ends_with(name, " [gshp heating]"@) && !text::ends_with(name, " [gshp cooling]"@)
}

/// The electric power of a component shows on its own meter, or on the general one, and nowhere
/// else: of equipment that cools under cooling, of equipment that heats under heating, of fans
/// under fans, and of anything else, known or not, under miscellaneous.
pub proof fn electric_power_shows_by_kind<T: Scalar>(
    m: Meters<T>,
    powers: Seq<(Seq<char>, T)>,
    name: Seq<char>,
    watts: T,
    kinds: Map<Seq<char>, ComponentKind>,
    meters: Map<Seq<char>, Seq<char>>,
)
    requires
        is_plain_name(name),
    ensures
        ({
            let before = energy::with_electric_power(m, powers, kinds, meters);
            let after = energy::with_electric_power(m, powers.push((name, watts)), kinds, meters);
            let meter = own_meter(meters, name);
            let known = kinds.contains_key(name);
            let kind = kinds[name];
            let cools = known && (kind == ComponentKind::CoolingCoil || kind
                == ComponentKind::EvapCooler || kind == ComponentKind::ThermalStorage || kind
                == ComponentKind::Chiller || kind == ComponentKind::VrfOutdoor || kind
                == ComponentKind::Gshp);
            let heats = known && (kind == ComponentKind::HeatingCoil || kind
                == ComponentKind::Boiler);
            let fan = known && kind == ComponentKind::Fan;
            &&& cools ==> shows_more(before, after, meter, "cooling_electric"@, watts)
            &&& heats ==> shows_more(before, after, meter, "heating_electric"@, watts)
            &&& fan ==> shows_more(before, after, meter, "fan_electric"@, watts)
            &&& !cools && !heats && !fan ==> shows_more(
                before,
                after,
                meter,
                "misc_electric"@,
                watts,
            )
        }),
        energy::with_electric_power(m, Seq::empty(), kinds, meters) == m,
{
    assert(powers.push((name, watts)).drop_last() =~= powers);
}

/// The electric power of a ground-source heat pump shows on its own meter, under heating where it
/// gave heat to the air and else under cooling, as it was booked.
pub proof fn heat_pump_power_shows_by_mode<T: Scalar>(
    m: Meters<T>,
    powers: Seq<(Seq<char>, T)>,
    name: Seq<char>,
    watts: T,
    kinds: Map<Seq<char>, ComponentKind>,
    meters: Map<Seq<char>, Seq<char>>,
)
    ensures
        ({
            let before = energy::with_electric_power(m, powers, kinds, meters);
            let heating = energy::with_electric_power(
                m,
                powers.push((name + " [gshp heating]"@, watts)),
                kinds,
                meters,
            );
            let cooling = energy::with_electric_power(
                m,
                powers.push((name + " [gshp cooling]"@, watts)),
                kinds,
                meters,
            );
            let meter = own_meter(meters, name);
            &&& shows_more(before, heating, meter, "heating_electric"@, watts)
            &&& shows_more(before, cooling, meter, "cooling_electric"@, watts)
        }),
{
    let (hot, cold) = (name + " [gshp heating]"@, name + " [gshp cooling]"@);
    assert(powers.push((hot, watts)).drop_last() =~= powers);
    assert(powers.push((cold, watts)).drop_last() =~= powers);
    text::suffix_comes_off(name, " [gshp heating]"@);
    text::suffix_comes_off(name, " [gshp cooling]"@);
    reveal_strlit(" [gshp heating]");
    reveal_strlit(" [gshp cooling]");
    if text::ends_with(cold, " [gshp heating]"@) {
        // Both suffixes have fifteen characters, and they differ in the eighth.
        let at = cold.len() - 15;
        assert(cold.subrange(at, at + 15) == " [gshp heating]"@);
        assert(cold[at + 7] == " [gshp heating]"@[7]);
        assert(cold[at + 7] == " [gshp cooling]"@[7]);
    }
}

/// The power of components for a given end use shows on their meters under that end use.
pub proof fn power_shows_under_its_end_use<T: Scalar>(
    m: Meters<T>,
    powers: Seq<(Seq<char>, T)>,
    name: Seq<char>,
    watts: T,
    end_use: Seq<char>,
    meters: Map<Seq<char>, Seq<char>>,
)
    ensures
        energy::with_power(m, Seq::empty(), end_use, meters) == m,
        shows_more(
            energy::with_power(m, powers, end_use, meters),
            energy::with_power(m, powers.push((name, watts)), end_use, meters),
            own_meter(meters, name),
            end_use,
            watts,
        ),
{
    assert(powers.push((name, watts)).drop_last() =~= powers);
}

/// A snapshot without entries changes no meter; the fuel of a component shows under heating gas,
/// and pumps, heat rejection, humidification and heat recovery show under their names.
pub proof fn snapshot_shows_under_its_end_uses<T: Scalar>(
    m: Meters<T>,
    s: EnergySnapshot<T>,
    kinds: Map<Seq<char>, ComponentKind>,
    meters: Map<Seq<char>, Seq<char>>,
    name: Seq<char>,
    watts: T,
)
    ensures
        ({
            let after = energy::with_snapshot(m, s, kinds, meters);
            let one = seq![(name, watts)];
            let none = Seq::<(Seq<char>, T)>::empty();
            let meter = own_meter(meters, name);
            let (e, f, p, r, h, v) = (
                s.component_electric.listed(),
                s.component_fuel.listed(),
                s.pump_electric.listed(),
                s.heat_rejection.listed(),
                s.humidification.listed(),
                s.heat_recovery.listed(),
            );
            &&& e == none && f == none && p == none && r == none && h == none && v == none ==> after
                == m
            &&& e == none && f == one && p == none && r == none && h == none && v == none
                ==> shows_more(m, after, meter, "heating_gas"@, watts)
            &&& e == none && f == none && p == one && r == none && h == none && v == none
                ==> shows_more(m, after, meter, "pump_electric"@, watts)
            &&& e == none && f == none && p == none && r == one && h == none && v == none
                ==> shows_more(m, after, meter, "heat_rejection"@, watts)
            &&& e == none && f == none && p == none && r == none && h == one && v == none
                ==> shows_more(m, after, meter, "humidification"@, watts)
            &&& e == none && f == none && p == none && r == none && h == none && v == one
                ==> shows_more(m, after, meter, "heat_recovery"@, watts)
            &&& f == none && p == none && r == none && h == none && v == none ==> after
                == energy::with_electric_power(m, e, kinds, meters)
        }),
{
    let none = Seq::<(Seq<char>, T)>::empty();
    assert(none.push((name, watts)) =~= seq![(name, watts)]);
    power_shows_under_its_end_use(m, none, name, watts, "heating_gas"@, meters);
    power_shows_under_its_end_use(m, none, name, watts, "pump_electric"@, meters);
    power_shows_under_its_end_use(m, none, name, watts, "heat_rejection"@, meters);
    power_shows_under_its_end_use(m, none, name, watts, "humidification"@, meters);
    power_shows_under_its_end_use(m, none, name, watts, "heat_recovery"@, meters);
}

// ---------------------------------------------------------------------------
// Copies

/// A loop counts as often as the zone that it serves with the largest multiplier, and once where
/// none has one.
pub proof fn loop_counts_by_its_largest_zone(
    served: Seq<String>,
    multipliers: Map<Seq<char>, u32>,
    n: nat,
)
    requires
        n <= served.len(),
    ensures
        ({
            let found = energy::largest_multiplier(served, multipliers, n);
            &&& found is Some ==> exists|i: int|
                0 <= i < n && multipliers.contains_key((#[trigger] served[i])@)
                    && multipliers[served[i]@] == found->Some_0
            &&& forall|i: int|
                0 <= i < n && multipliers.contains_key((#[trigger] served[i])@) ==> found is Some
                    && multipliers[served[i]@] <= found->Some_0
        }),
        n == served.len() ==> {
            let m = energy::loop_multiplier(served, multipliers);
            &&& (forall|i: int|
                0 <= i < served.len() ==> !multipliers.contains_key((#[trigger] served[i])@))
                ==> m == 1
            &&& forall|i: int|
                0 <= i < served.len() && multipliers.contains_key((#[trigger] served[i])@)
                    ==> multipliers[served[i]@] <= m
        },
    decreases n,
{
    if n > 0 {
        loop_counts_by_its_largest_zone(served, multipliers, (n - 1) as nat);
        let rest = energy::largest_multiplier(served, multipliers, (n - 1) as nat);
        let last = served[n - 1]@;
        if rest is Some {
            let i = choose|i: int|
                0 <= i < n - 1 && multipliers.contains_key((#[trigger] served[i])@)
                    && multipliers[served[i]@] == rest->Some_0;
            assert(multipliers.contains_key(served[i]@));
        }
        if multipliers.contains_key(last) {
            assert(multipliers.contains_key(served[n - 1]@));
        }
    }
}

proof fn set_names_hold<V>(
    map: Map<Seq<char>, V>,
    names: Seq<Seq<char>>,
    value: V,
    n: nat,
    name: Seq<char>,
)
    requires
        n <= names.len(),
    ensures
        ({
            let after = energy::all_set(map, names, value, n);
            let named = exists|i: int| 0 <= i < n && #[trigger] names[i] == name;
            &&& named ==> after.contains_key(name) && after[name] == value
            &&& !named ==> (after.contains_key(name) <==> map.contains_key(name)) && (
            after.contains_key(name) ==> after[name] == map[name])
        }),
    decreases n,
{
    if n > 0 {
        set_names_hold(map, names, value, (n - 1) as nat, name);
        if names[n - 1] == name {
            assert(names[n - 1] == name);
        }
        if exists|i: int| 0 <= i < n && #[trigger] names[i] == name {
            let i = choose|i: int| 0 <= i < n && #[trigger] names[i] == name;
            if i < n - 1 {
                assert(names[i] == name);
            }
        }
    }
}

/// The components and terminal boxes of a loop count as often as the loop, where it counts more
/// than once; those of other loops count as they did.
pub proof fn components_count_like_their_loop<T: Scalar>(
    loops: Seq<LoopInfo<T>>,
    multipliers: Map<Seq<char>, u32>,
    n: nat,
    name: Seq<char>,
)
    requires
        n < loops.len(),
    ensures
        energy::component_multipliers::<T>(loops, multipliers, 0) == Map::<Seq<char>, T>::empty(),
        ({
            let before = energy::component_multipliers(loops, multipliers, n);
            let after = energy::component_multipliers(loops, multipliers, n + 1);
            let li = loops[n as int];
            let m = energy::loop_multiplier(li.served_zones@, multipliers);
            let own = (exists|i: int|
                0 <= i < li.component_names@.len() && (#[trigger] li.component_names@[i])@ == name)
                || (exists|i: int|
                0 <= i < li.terminal_boxes.entries@.len() && (
                #[trigger] li.terminal_boxes.entries@[i]).1@ == name);
            &&& own && m > 1 ==> after.contains_key(name) && after[name] == T::whole(m as nat)
            &&& !own || m <= 1 ==> (after.contains_key(name) <==> before.contains_key(name)) && (
            after.contains_key(name) ==> after[name] == before[name])
        }),
{
    let li = loops[n as int];
    let before = energy::component_multipliers(loops, multipliers, n);
    let m = energy::loop_multiplier(li.served_zones@, multipliers);
    let names = energy::multiplied_names(li);
    let (a, b) = (li.component_names@, li.terminal_boxes.entries@);
    set_names_hold(before, names, T::whole(m as nat), names.len(), name);
    assert(names.len() == a.len() + b.len());
    assert forall|i: int| 0 <= i < a.len() implies #[trigger] names[i] == a[i]@ by {
    }
    assert forall|i: int| 0 <= i < b.len() implies #[trigger] names[a.len() + i] == b[i].1@ by {
    }
    if exists|i: int| 0 <= i < a.len() && (#[trigger] a[i])@ == name {
        let i = choose|i: int| 0 <= i < a.len() && (#[trigger] a[i])@ == name;
        assert(names[i] == name);
    }
    if exists|i: int| 0 <= i < b.len() && (#[trigger] b[i]).1@ == name {
        let i = choose|i: int| 0 <= i < b.len() && (#[trigger] b[i]).1@ == name;
        assert(names[a.len() + i] == name);
    }
    if exists|i: int| 0 <= i < names.len() && #[trigger] names[i] == name {
        let i = choose|i: int| 0 <= i < names.len() && #[trigger] names[i] == name;
        if i < a.len() {
            assert(a[i]@ == name);
        } else {
            assert(names[a.len() + (i - a.len())] == b[i - a.len()].1@);
            assert(b[i - a.len()].1@ == name);
        }
    }
}

/// A gain without a schedule draws its power in each copy of its zone, and one whose schedule is
/// off draws nothing; the draw grows with the schedule.
pub proof fn gains_draw_by_schedule_and_copies(power: Fixed, part: Fixed, copies: u32)
    requires
        0 <= power.units <= 1_000_000_000_000_000,
        0 <= part.units <= 1_000_000_000,
        copies <= 1000,
    ensures
        energy::gain_power(power, None, copies).units == power.units * copies,
        energy::gain_power(power, Some(num::<Fixed>(1)), copies) == energy::gain_power(
            power,
            None,
            copies,
        ),
        energy::gain_power(power, Some(num::<Fixed>(0)), copies).units == 0,
        ({
            let watts = energy::gain_power(power, Some(part), copies).units;
            power.units * part.units * copies - 1_000_000_000 * copies <= 1_000_000_000 * watts
                <= power.units * part.units * copies
        }),
{
    let one: Fixed = num(1);
    assert(one.units == 1_000_000_000);
    let whole = Fixed::whole(copies as nat);
    assert(whole.units == copies * 1_000_000_000);
    assert(power.units * one.units == 1_000_000_000 * power.units) by (nonlinear_arith)
        requires
            one.units == 1_000_000_000,
    ;
    lemma_div_multiples_vanish(power.units as int, fixed::SCALE as int);
    assert(power.product(one) == power);
    times_whole(power, copies);
    assert(power.units * 0 == 0);
    let zero = Fixed { units: 0 };
    assert(power.product(num(0)) == zero);
    times_whole(zero, copies);
    assert(0 * copies == 0);
    let exact = power.units * part.units;
    assert(0 <= exact <= 1_000_000_000_000_000_000_000_000) by (nonlinear_arith)
        requires
            exact == power.units * part.units,
            0 <= power.units <= 1_000_000_000_000_000,
            0 <= part.units <= 1_000_000_000,
    ;
    lemma_fundamental_div_mod(exact, fixed::SCALE as int);
    lemma_mod_bound(exact, fixed::SCALE as int);
    lemma_div_pos_is_pos(exact, fixed::SCALE as int);
    let p = power.product(part);
    times_whole(p, copies);
    let (w, c) = (p.units as int, copies as int);
    assert(exact * c - 1_000_000_000 * c <= 1_000_000_000 * (w * c) <= exact * c)
        by (nonlinear_arith)
        requires
            1_000_000_000 * w <= exact < 1_000_000_000 * w + 1_000_000_000,
            0 <= c,
    ;
}

proof fn times_whole(x: Fixed, copies: u32)
    requires
        0 <= x.units <= 1_000_000_000_000_000,
        copies <= 1000,
    ensures
        x.product(Fixed::whole(copies as nat)).units == x.units * copies,
{
    let whole = Fixed::whole(copies as nat);
    let n = x.units * copies;
    assert(0 <= n <= 1_000_000_000_000_000_000) by (nonlinear_arith)
        requires
            n == x.units * copies,
            0 <= x.units <= 1_000_000_000_000_000,
            copies <= 1000,
    ;
    assert(x.units * whole.units == 1_000_000_000 * n) by (nonlinear_arith)
        requires
            whole.units == copies * 1_000_000_000,
            n == x.units * copies,
    ;
    lemma_div_multiples_vanish(n, fixed::SCALE as int);
}

/// The equipment and then the boxes of each air loop follow on those of the loops before it, and the
/// equipment of each plant loop on that of the plant loops before it.
pub proof fn loops_bring_their_accounts<T>(
    loops: Seq<AirLoopInput<T>>,
    plants: Seq<PlantLoopInput<T>>,
    n: nat,
)
    ensures
        energy::air_loop_accounts(loops, 0).len() == 0,
        energy::plant_loop_accounts(plants, 0).len() == 0,
        n < loops.len() ==> energy::air_loop_accounts(loops, n + 1) == energy::air_loop_accounts(
            loops,
            n,
        ) + energy::equipment_accounts(
            loops[n as int].equipment@,
            loops[n as int].equipment@.len(),
        ) + energy::terminal_accounts(
            loops[n as int].zone_terminals@,
            loops[n as int].zone_terminals@.len(),
        ),
        n < plants.len() ==> energy::plant_loop_accounts(plants, n + 1)
            == energy::plant_loop_accounts(plants, n) + energy::plant_accounts(
            plants[n as int].supply_equipment@,
            plants[n as int].supply_equipment@.len(),
        ),
{
}

} // verus!
