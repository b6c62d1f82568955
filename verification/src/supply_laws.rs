//! What holds of the air that several loops supply to one zone.
use crate::air_side::Supply;
use crate::fixed;
use crate::fixed::Fixed;
use crate::loop_results;
use crate::scalar::{gt, num, over, plus, times, Scalar};
use vstd::arithmetic::div_mod::*;
use vstd::prelude::*;

verus! {

/// The supplies of a list at two places, and at no other, go to the zone.
pub open spec fn supplied_twice<T>(
    list: Seq<(Seq<char>, Supply<T>)>,
    zone: Seq<char>,
    first: int,
    second: int,
) -> bool {
    &&& 0 <= first < second < list.len()
    &&& forall|k: int|
        0 <= k < list.len() ==> ((#[trigger] list[k]).0 == zone <==> k == first || k == second)
}

/// The supply at one place of a list, and at no other, goes to the zone.
pub open spec fn supplied_once<T>(
    list: Seq<(Seq<char>, Supply<T>)>,
    zone: Seq<char>,
    place: int,
) -> bool {
    &&& 0 <= place < list.len()
    &&& forall|k: int| 0 <= k < list.len() ==> ((#[trigger] list[k]).0 == zone <==> k == place)
}

/// What one supply adds to flow, heat and moisture.
pub open spec fn with_supply<T: Scalar>(sums: (T, T, T), s: Supply<T>) -> (T, T, T) {
    (
        plus(sums.0, s.flow),
        plus(sums.1, times(s.temp, s.flow)),
        plus(sums.2, times(s.w, s.flow)),
    )
}

/// Flow, heat and moisture where there is no supply.
pub open spec fn no_supply<T: Scalar>() -> (T, T, T) {
    (num(0), num(0), num(0))
}

/// The supply with a flow, and heat and moisture spread over it; nothing where the flow is not
/// positive.
pub open spec fn spread_over_flow<T: Scalar>(sums: (T, T, T)) -> Option<Supply<T>> {
    if gt(sums.0, num(0)) {
        Some(Supply { temp: over(sums.1, sums.0), flow: sums.0, w: over(sums.2, sums.0) })
    } else {
        None
    }
}

/// What a zone gets of the supplies in a list: its entry in the mix, or nothing.
pub open spec fn mixed_for<T: Scalar>(
    list: Seq<(Seq<char>, Supply<T>)>,
    zone: Seq<char>,
) -> Option<Supply<T>> {
    let mixed = loop_results::mixed_supplies(list);
    if mixed.contains_key(zone) {
        Some(mixed[zone])
    } else {
        None
    }
}

proof fn sums_of_two<T: Scalar>(
    list: Seq<(Seq<char>, Supply<T>)>,
    zone: Seq<char>,
    first: int,
    second: int,
    n: nat,
)
    requires
        supplied_twice(list, zone, first, second),
        n <= list.len(),
    ensures
        ({
            let one = with_supply(no_supply(), list[first].1);
            loop_results::supply_sums(list, zone, n) == if n <= first {
                no_supply()
            } else if n <= second {
                one
            } else {
                with_supply(one, list[second].1)
            }
        }),
    decreases n,
{
    if n > 0 {
        sums_of_two(list, zone, first, second, (n - 1) as nat);
        assert(list[n - 1].0 == zone <==> n - 1 == first || n - 1 == second);
    }
}

/// A zone that two loops supply gets the air of both: the flows add up, and temperature and
/// humidity are heat and moisture of the two, spread over the flow. It is left out where the two
/// flows together are not positive. So it is on every number type.
pub proof fn two_loops_add_up<T: Scalar>(
    list: Seq<(Seq<char>, Supply<T>)>,
    zone: Seq<char>,
    first: int,
    second: int,
)
    requires
        supplied_twice(list, zone, first, second),
    ensures
        mixed_for(list, zone) == spread_over_flow(
            with_supply(with_supply(no_supply(), list[first].1), list[second].1),
        ),
{
    sums_of_two(list, zone, first, second, list.len());
    assert(list[first].0 == zone);
}

/// A zone that two loops supply gets, on fixed-point numbers, the sum of their flows, at the
/// means of their temperatures and humidities, weighted by flow. It is left out where the two
/// flows together are not positive.
pub proof fn two_loops_mix_by_flow(
    list: Seq<(Seq<char>, Supply<Fixed>)>,
    zone: Seq<char>,
    first: int,
    second: int,
)
    requires
        supplied_twice(list, zone, first, second),
    ensures
        ({
            let (a, b) = (list[first].1, list[second].1);
            let flow = a.flow.sum(b.flow);
            let mixed = loop_results::mixed_supplies(list);
            &&& mixed.contains_key(zone) <==> gt(flow, num(0))
            &&& gt(flow, num(0)) ==> mixed[zone] == Supply {
                temp: a.temp.product(a.flow).sum(b.temp.product(b.flow)).quotient(flow),
                flow,
                w: a.w.product(a.flow).sum(b.w.product(b.flow)).quotient(flow),
            }
        }),
{
    two_loops_add_up(list, zone, first, second);
}

proof fn sums_of_one<T: Scalar>(
    list: Seq<(Seq<char>, Supply<T>)>,
    zone: Seq<char>,
    place: int,
    n: nat,
)
    requires
        supplied_once(list, zone, place),
        n <= list.len(),
    ensures
        loop_results::supply_sums(list, zone, n) == if n <= place {
            no_supply()
        } else {
            with_supply(no_supply(), list[place].1)
        },
    decreases n,
{
    if n > 0 {
        sums_of_one(list, zone, place, (n - 1) as nat);
        assert(list[n - 1].0 == zone <==> n - 1 == place);
    }
}

/// A zone that one loop supplies gets its flow, with its heat and moisture spread over it, on
/// every number type.
pub proof fn one_loop_stands_alone<T: Scalar>(
    list: Seq<(Seq<char>, Supply<T>)>,
    zone: Seq<char>,
    place: int,
)
    requires
        supplied_once(list, zone, place),
    ensures
        mixed_for(list, zone) == spread_over_flow(with_supply(no_supply(), list[place].1)),
{
    sums_of_one(list, zone, place, list.len());
    assert(list[place].0 == zone);
}

/// A loop that comes to others adds its flow, heat and moisture to what they bring together, on
/// every number type and however many they are.
pub proof fn further_loop_joins_the_mix<T: Scalar>(
    list: Seq<(Seq<char>, Supply<T>)>,
    zone: Seq<char>,
    s: Supply<T>,
)
    ensures
        loop_results::supply_sums(list.push((zone, s)), zone, list.len() + 1) == with_supply(
            loop_results::supply_sums(list, zone, list.len()),
            s,
        ),
        mixed_for(list.push((zone, s)), zone) == spread_over_flow(
            with_supply(loop_results::supply_sums(list, zone, list.len()), s),
        ),
{
    let all = list.push((zone, s));
    sums_of_joined(list, seq![(zone, s)], zone, list.len());
    assert(list + seq![(zone, s)] =~= all);
    assert(all[list.len() as int].0 == zone);
}

/// A zone that one loop supplies gets, on fixed-point numbers, the flow of that loop, and is left
/// out where that flow is not positive.
pub proof fn one_loop_keeps_its_flow(
    list: Seq<(Seq<char>, Supply<Fixed>)>,
    zone: Seq<char>,
    place: int,
)
    requires
        supplied_once(list, zone, place),
    ensures
        ({
            let a = list[place].1;
            let mixed = loop_results::mixed_supplies(list);
            &&& mixed.contains_key(zone) <==> gt(a.flow, num(0))
            &&& gt(a.flow, num(0)) ==> mixed[zone] == Supply {
                temp: a.temp.product(a.flow).quotient(a.flow),
                flow: a.flow,
                w: a.w.product(a.flow).quotient(a.flow),
            }
        }),
{
    one_loop_stands_alone(list, zone, place);
}

proof fn sums_of_joined<T: Scalar>(
    a: Seq<(Seq<char>, Supply<T>)>,
    b: Seq<(Seq<char>, Supply<T>)>,
    zone: Seq<char>,
    n: nat,
)
    requires
        n <= a.len() + b.len(),
    ensures
        n <= a.len() ==> loop_results::supply_sums(a + b, zone, n) == loop_results::supply_sums(
            a,
            zone,
            n,
        ),
        n >= a.len() && !loop_results::is_supplied(b, zone) ==> loop_results::supply_sums(
            a + b,
            zone,
            n,
        ) == loop_results::supply_sums(a, zone, a.len()),
        n >= a.len() && !loop_results::is_supplied(a, zone) ==> loop_results::supply_sums(
            a + b,
            zone,
            n,
        ) == loop_results::supply_sums(b, zone, (n - a.len()) as nat),
        n <= a.len() && !loop_results::is_supplied(a, zone) ==> loop_results::supply_sums(
            a,
            zone,
            n,
        ) == (num::<T>(0), num::<T>(0), num::<T>(0)),
    decreases n,
{
    if n > 0 {
        sums_of_joined(a, b, zone, (n - 1) as nat);
        if n <= a.len() {
            assert((a + b)[n - 1] == a[n - 1]);
        } else {
            let m = (n - a.len()) as nat;
            assert((a + b)[n - 1] == b[m - 1]);
            assert((m - 1) as nat == (n - 1 - a.len()) as nat);
        }
    }
    if n == a.len() {
        assert(loop_results::supply_sums(b, zone, 0) == (num::<T>(0), num::<T>(0), num::<T>(0)));
    }
}

/// Loops that do not supply a zone make no difference to it, whichever side they are listed on.
pub proof fn other_loops_make_no_difference<T: Scalar>(
    a: Seq<(Seq<char>, Supply<T>)>,
    b: Seq<(Seq<char>, Supply<T>)>,
    zone: Seq<char>,
)
    requires
        !loop_results::is_supplied(b, zone),
    ensures
        loop_results::mixed_supply(a + b, zone) == loop_results::mixed_supply(a, zone),
        loop_results::mixed_supply(b + a, zone) == loop_results::mixed_supply(a, zone),
{
    sums_of_joined(a, b, zone, a.len() + b.len());
    sums_of_joined(b, a, zone, a.len() + b.len());
}

/// The flows to a zone of the first `n` supplies of a list, in units.
pub open spec fn flow_units(
    list: Seq<(Seq<char>, Supply<Fixed>)>,
    zone: Seq<char>,
    n: nat,
) -> int
    decreases n,
{
    if n == 0 {
        0
    } else if list[n - 1].0 == zone {
        flow_units(list, zone, (n - 1) as nat) + list[n - 1].1.flow.units
    } else {
        flow_units(list, zone, (n - 1) as nat)
    }
}

/// No flow of a list is negative.
pub open spec fn flows_not_negative(list: Seq<(Seq<char>, Supply<Fixed>)>) -> bool {
    forall|k: int| 0 <= k < list.len() ==> 0 <= (#[trigger] list[k]).1.flow.units
}

proof fn flow_units_grow(
    list: Seq<(Seq<char>, Supply<Fixed>)>,
    zone: Seq<char>,
    n: nat,
    limit: nat,
)
    requires
        n <= limit <= list.len(),
        flows_not_negative(list),
    ensures
        0 <= flow_units(list, zone, n) <= flow_units(list, zone, limit),
    decreases limit,
{
    if n < limit {
        flow_units_grow(list, zone, n, (limit - 1) as nat);
    } else if n > 0 {
        flow_units_grow(list, zone, (n - 1) as nat, (n - 1) as nat);
    }
}

proof fn flow_sum_is_exact(
    list: Seq<(Seq<char>, Supply<Fixed>)>,
    zone: Seq<char>,
    n: nat,
)
    requires
        n <= list.len(),
        flows_not_negative(list),
        flow_units(list, zone, list.len()) <= i64::MAX,
    ensures
        loop_results::supply_sums(list, zone, n).0.units == flow_units(list, zone, n),
    decreases n,
{
    flow_units_grow(list, zone, n, list.len());
    if n > 0 {
        flow_sum_is_exact(list, zone, (n - 1) as nat);
    }
}

proof fn flow_units_of_joined(
    a: Seq<(Seq<char>, Supply<Fixed>)>,
    b: Seq<(Seq<char>, Supply<Fixed>)>,
    zone: Seq<char>,
    n: nat,
)
    requires
        n <= a.len() + b.len(),
    ensures
        flow_units(a + b, zone, n) == if n <= a.len() {
            flow_units(a, zone, n)
        } else {
            flow_units(a, zone, a.len()) + flow_units(b, zone, (n - a.len()) as nat)
        },
    decreases n,
{
    if n > 0 {
        flow_units_of_joined(a, b, zone, (n - 1) as nat);
        if n <= a.len() {
            assert((a + b)[n - 1] == a[n - 1]);
        } else {
            let m = (n - a.len()) as nat;
            assert((a + b)[n - 1] == b[m - 1]);
            assert(flow_units(b, zone, 0) == 0);
            assert((m - 1) as nat == (n - 1 - a.len()) as nat);
        }
    }
}

/// What a zone gets from one list of supplies and what it gets from another adds up where the
/// lists are mixed together, however many of each go to it.
pub proof fn flows_of_joined_lists_add_up(
    a: Seq<(Seq<char>, Supply<Fixed>)>,
    b: Seq<(Seq<char>, Supply<Fixed>)>,
    zone: Seq<char>,
)
    requires
        flows_not_negative(a),
        flows_not_negative(b),
        flow_units(a, zone, a.len()) + flow_units(b, zone, b.len()) <= i64::MAX,
    ensures
        loop_results::supply_sums(a + b, zone, (a + b).len()).0.units
            == loop_results::supply_sums(a, zone, a.len()).0.units + loop_results::supply_sums(
            b,
            zone,
            b.len(),
        ).0.units,
{
    assert forall|k: int| 0 <= k < (a + b).len() implies 0 <= (
    #[trigger] (a + b)[k]).1.flow.units by {
        if k < a.len() {
            assert((a + b)[k] == a[k]);
        } else {
            assert((a + b)[k] == b[k - a.len()]);
        }
    }
    flow_units_of_joined(a, b, zone, (a + b).len());
    flow_units_grow(a, zone, 0, a.len());
    flow_units_grow(b, zone, 0, b.len());
    assert(flow_units(b, zone, 0) == 0);
    flow_sum_is_exact(a, zone, a.len());
    flow_sum_is_exact(b, zone, b.len());
    flow_sum_is_exact(a + b, zone, (a + b).len());
}

/// What a supply carries, in units: moisture, or else heat.
pub open spec fn carried(s: Supply<Fixed>, moisture: bool) -> int {
    if moisture {
        s.w.product(s.flow).units as int
    } else {
        s.temp.product(s.flow).units as int
    }
}

/// What the first `n` supplies of a list carry to a zone, in units.
pub open spec fn carried_units(
    list: Seq<(Seq<char>, Supply<Fixed>)>,
    zone: Seq<char>,
    moisture: bool,
    n: nat,
) -> int
    decreases n,
{
    if n == 0 {
        0
    } else if list[n - 1].0 == zone {
        carried_units(list, zone, moisture, (n - 1) as nat) + carried(list[n - 1].1, moisture)
    } else {
        carried_units(list, zone, moisture, (n - 1) as nat)
    }
}

/// The same without signs.
pub open spec fn carried_size(
    list: Seq<(Seq<char>, Supply<Fixed>)>,
    zone: Seq<char>,
    moisture: bool,
    n: nat,
) -> int
    decreases n,
{
    if n == 0 {
        0
    } else {
        let rest = carried_size(list, zone, moisture, (n - 1) as nat);
        let last = carried(list[n - 1].1, moisture);
        if list[n - 1].0 != zone {
            rest
        } else if last < 0 {
            rest - last
        } else {
            rest + last
        }
    }
}

proof fn carried_size_grows(
    list: Seq<(Seq<char>, Supply<Fixed>)>,
    zone: Seq<char>,
    moisture: bool,
    n: nat,
    limit: nat,
)
    requires
        n <= limit <= list.len(),
    ensures
        0 <= carried_size(list, zone, moisture, n) <= carried_size(list, zone, moisture, limit),
    decreases limit,
{
    if n < limit {
        carried_size_grows(list, zone, moisture, n, (limit - 1) as nat);
    } else if n > 0 {
        carried_size_grows(list, zone, moisture, (n - 1) as nat, (n - 1) as nat);
    }
}

/// What supply sums hold of heat, or of moisture.
pub open spec fn carried_sum(
    list: Seq<(Seq<char>, Supply<Fixed>)>,
    zone: Seq<char>,
    moisture: bool,
    n: nat,
) -> Fixed {
    if moisture {
        loop_results::supply_sums(list, zone, n).2
    } else {
        loop_results::supply_sums(list, zone, n).1
    }
}

proof fn carried_sum_is_exact(
    list: Seq<(Seq<char>, Supply<Fixed>)>,
    zone: Seq<char>,
    moisture: bool,
    n: nat,
)
    requires
        n <= list.len(),
        carried_size(list, zone, moisture, list.len()) <= i64::MAX,
    ensures
        carried_sum(list, zone, moisture, n).units == carried_units(list, zone, moisture, n),
        -carried_size(list, zone, moisture, n) <= carried_units(list, zone, moisture, n)
            <= carried_size(list, zone, moisture, n),
    decreases n,
{
    carried_size_grows(list, zone, moisture, n, list.len());
    if n > 0 {
        carried_sum_is_exact(list, zone, moisture, (n - 1) as nat);
    }
}

proof fn carried_by_joined(
    a: Seq<(Seq<char>, Supply<Fixed>)>,
    b: Seq<(Seq<char>, Supply<Fixed>)>,
    zone: Seq<char>,
    moisture: bool,
    n: nat,
)
    requires
        n <= a.len() + b.len(),
    ensures
        n <= a.len() ==> {
            &&& carried_units(a + b, zone, moisture, n) == carried_units(a, zone, moisture, n)
            &&& carried_size(a + b, zone, moisture, n) == carried_size(a, zone, moisture, n)
        },
        n > a.len() ==> {
            let m = (n - a.len()) as nat;
            &&& carried_units(a + b, zone, moisture, n) == carried_units(
                a,
                zone,
                moisture,
                a.len(),
            ) + carried_units(b, zone, moisture, m)
            &&& carried_size(a + b, zone, moisture, n) == carried_size(a, zone, moisture, a.len())
                + carried_size(b, zone, moisture, m)
        },
    decreases n,
{
    if n > 0 {
        carried_by_joined(a, b, zone, moisture, (n - 1) as nat);
        if n <= a.len() {
            assert((a + b)[n - 1] == a[n - 1]);
        } else {
            let m = (n - a.len()) as nat;
            assert((a + b)[n - 1] == b[m - 1]);
            assert(carried_units(b, zone, moisture, 0) == 0);
            assert(carried_size(b, zone, moisture, 0) == 0);
            assert((m - 1) as nat == (n - 1 - a.len()) as nat);
        }
    }
}

/// A number is not at the end of its range.
pub open spec fn is_inner(x: Fixed) -> bool {
    i64::MIN < x.units < i64::MAX
}

/// A mean over a flow, times that flow, is what was carried, but for less than the flow.
proof fn mean_times_flow(carried: Fixed, flow: Fixed)
    requires
        flow.units > 0,
        is_inner(carried.quotient(flow)),
    ensures
        carried.units * fixed::SCALE - flow.units < carried.quotient(flow).units * flow.units
            <= carried.units * fixed::SCALE,
{
    let exact = carried.units * fixed::SCALE;
    let q = exact / (flow.units as int);
    lemma_fundamental_div_mod(exact, flow.units as int);
    lemma_mod_bound(exact, flow.units as int);
    assert(flow.units * q == q * flow.units) by (nonlinear_arith);
}

/// What holds of a zone where the supplies of one set of loops and those of another are mixed
/// together, given what it gets of each alone: the flows add up, and temperature and humidity
/// are the means of the two, weighted by flow, to within one unit of rounding.
pub open spec fn mixes_by_flow(a: Supply<Fixed>, b: Supply<Fixed>, both: Supply<Fixed>) -> bool {
    let flow = a.flow.units + b.flow.units;
    let heat = a.temp.units * a.flow.units + b.temp.units * b.flow.units;
    let moisture = a.w.units * a.flow.units + b.w.units * b.flow.units;
    &&& both.flow.units == flow
    &&& heat - flow < both.temp.units * flow < heat + flow
    &&& moisture - flow < both.w.units * flow < moisture + flow
}

/// No number of a supply is at the end of its range.
pub open spec fn is_finite(s: Supply<Fixed>) -> bool {
    is_inner(s.temp) && is_inner(s.flow) && is_inner(s.w)
}

/// A zone that two sets of loops supply gets from both together the flow-weighted mean of what
/// it gets from each. It needs numbers that stay within their range.
pub proof fn sets_of_loops_mix_by_flow(
    a: Seq<(Seq<char>, Supply<Fixed>)>,
    b: Seq<(Seq<char>, Supply<Fixed>)>,
    zone: Seq<char>,
)
    requires
        flows_not_negative(a),
        flows_not_negative(b),
        flow_units(a, zone, a.len()) + flow_units(b, zone, b.len()) <= i64::MAX,
        forall|moisture: bool|
            #![trigger carried_size(a, zone, moisture, a.len())]
            carried_size(a, zone, moisture, a.len()) + carried_size(b, zone, moisture, b.len())
                <= i64::MAX,
        loop_results::mixed_supplies(a).contains_key(zone),
        loop_results::mixed_supplies(b).contains_key(zone),
        is_finite(loop_results::mixed_supplies(a)[zone]),
        is_finite(loop_results::mixed_supplies(b)[zone]),
        loop_results::mixed_supplies(a + b).contains_key(zone) ==> is_finite(
            loop_results::mixed_supplies(a + b)[zone],
        ),
    ensures
        loop_results::mixed_supplies(a + b).contains_key(zone),
        mixes_by_flow(
            loop_results::mixed_supplies(a)[zone],
            loop_results::mixed_supplies(b)[zone],
            loop_results::mixed_supplies(a + b)[zone],
        ),
{
    flows_of_joined_lists_add_up(a, b, zone);
    let k = choose|k: int| 0 <= k < a.len() && (#[trigger] a[k]).0 == zone;
    assert((a + b)[k].0 == zone);
    assert(loop_results::is_supplied(a + b, zone));
    joined_mean(a, b, zone, false);
    joined_mean(a, b, zone, true);
}

/// The mean of heat, or of moisture, over the flow of two lists that are mixed together.
proof fn joined_mean(
    a: Seq<(Seq<char>, Supply<Fixed>)>,
    b: Seq<(Seq<char>, Supply<Fixed>)>,
    zone: Seq<char>,
    moisture: bool,
)
    requires
        carried_size(a, zone, moisture, a.len()) + carried_size(b, zone, moisture, b.len())
            <= i64::MAX,
        ({
            let fa = loop_results::supply_sums(a, zone, a.len()).0;
            let fb = loop_results::supply_sums(b, zone, b.len()).0;
            let fc = loop_results::supply_sums(a + b, zone, (a + b).len()).0;
            &&& fa.units > 0
            &&& fb.units > 0
            &&& fc.units == fa.units + fb.units
            &&& is_inner(carried_sum(a, zone, moisture, a.len()).quotient(fa))
            &&& is_inner(carried_sum(b, zone, moisture, b.len()).quotient(fb))
            &&& is_inner(carried_sum(a + b, zone, moisture, (a + b).len()).quotient(fc))
        }),
    ensures
        ({
            let fa = loop_results::supply_sums(a, zone, a.len()).0;
            let fb = loop_results::supply_sums(b, zone, b.len()).0;
            let fc = loop_results::supply_sums(a + b, zone, (a + b).len()).0;
            let qa = carried_sum(a, zone, moisture, a.len()).quotient(fa);
            let qb = carried_sum(b, zone, moisture, b.len()).quotient(fb);
            let qc = carried_sum(a + b, zone, moisture, (a + b).len()).quotient(fc);
            let mean = qa.units * fa.units + qb.units * fb.units;
            mean - fc.units < qc.units * fc.units < mean + fc.units
        }),
{
    let fa = loop_results::supply_sums(a, zone, a.len()).0;
    let fb = loop_results::supply_sums(b, zone, b.len()).0;
    let fc = loop_results::supply_sums(a + b, zone, (a + b).len()).0;
    carried_size_grows(a, zone, moisture, 0, a.len());
    carried_size_grows(b, zone, moisture, 0, b.len());
    carried_by_joined(a, b, zone, moisture, (a + b).len());
    assert(carried_size(b, zone, moisture, 0) == 0);
    assert(carried_units(b, zone, moisture, 0) == 0);
    carried_sum_is_exact(a, zone, moisture, a.len());
    carried_sum_is_exact(b, zone, moisture, b.len());
    carried_sum_is_exact(a + b, zone, moisture, (a + b).len());
    mean_times_flow(carried_sum(a, zone, moisture, a.len()), fa);
    mean_times_flow(carried_sum(b, zone, moisture, b.len()), fb);
    mean_times_flow(carried_sum(a + b, zone, moisture, (a + b).len()), fc);
}

} // verus!
