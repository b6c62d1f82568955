//! The order in which plant loops are simulated.
//!
//! A loop that gives to others comes before them: the source loop of a heat exchanger
//! before the loop that it serves, and a chilled-water loop before the condenser loop that
//! takes its heat. Loops on a cycle, and those behind one, come last and work with the
//! values of the timestep before.
use crate::model::{PlantEquipmentKind, PlantLoopInput};
use vstd::prelude::*;
use vstd::seq_lib::*;
use vstd::set_lib::*;
use vstd::string::*;

verus! {

// ---------------------------------------------------------------------------
// Links between loops

/// The loop with the name, the last one where several share it, among the first `n`.
pub open spec fn loop_named<T>(
    plants: Seq<PlantLoopInput<T>>,
    name: Seq<char>,
    n: nat,
) -> Option<usize>
    decreases n,
{
    if n == 0 {
        None
    } else if plants[n - 1].name@ == name {
        Some((n - 1) as usize)
    } else {
        loop_named(plants, name, (n - 1) as nat)
    }
}

fn find_loop<T>(plants: &Vec<PlantLoopInput<T>>, name: &String) -> (r: Option<usize>)
    ensures
        r == loop_named(plants@, name@, plants@.len()),
        r is Some ==> r->Some_0 < plants@.len(),
{
    let mut n: usize = plants.len();
    while n > 0
        invariant
            n <= plants@.len(),
            loop_named(plants@, name@, plants@.len()) == loop_named(plants@, name@, n as nat),
        decreases n,
    {
        if plants[n - 1].name == *name {
            return Some(n - 1);
        }
        n = n - 1;
    }
    None
}

/// For each loop, the loops that come after it, in the order in which the links were found.
pub type Links = Seq<Seq<usize>>;

/// The links with one more from `a` to `b`.
pub open spec fn linked(links: Links, a: usize, b: usize) -> Links {
    links.update(a as int, links[a as int].push(b))
}

/// The links with that of one piece of equipment of loop `i`, if it makes one: from the
/// source loop of a heat exchanger to `i`, and from `i` to the condenser loop of a chiller.
pub open spec fn with_equipment<T>(
    links: Links,
    plants: Seq<PlantLoopInput<T>>,
    i: int,
    j: int,
) -> Links {
    let eq = plants[i].supply_equipment@[j];
    if eq.kind == PlantEquipmentKind::HeatExchanger {
        match loop_named(plants, eq.source_loop@, plants.len()) {
            Some(source) => linked(links, source, i as usize),
            None => links,
        }
    } else if eq.kind == PlantEquipmentKind::Chiller {
        match eq.condenser_plant_loop {
            Some(name) => match loop_named(plants, name@, plants.len()) {
                Some(condenser) => linked(links, i as usize, condenser),
                None => links,
            },
            None => links,
        }
    } else {
        links
    }
}

/// The links by the first `m` pieces of equipment of loop `i`, on top of `links`.
pub open spec fn with_loop<T>(links: Links, plants: Seq<PlantLoopInput<T>>, i: int, m: nat) -> Links
    decreases m,
{
    if m == 0 {
        links
    } else {
        with_equipment(with_loop(links, plants, i, (m - 1) as nat), plants, i, m - 1)
    }
}

/// The links by the equipment of the first `n` loops.
pub open spec fn loop_links<T>(plants: Seq<PlantLoopInput<T>>, n: nat) -> Links
    decreases n,
{
    if n == 0 {
        Seq::new(plants.len(), |i: int| Seq::empty())
    } else {
        with_loop(
            loop_links(plants, (n - 1) as nat),
            plants,
            n - 1,
            plants[n - 1].supply_equipment@.len(),
        )
    }
}

pub open spec fn views(adj: Seq<Vec<usize>>) -> Links {
    adj.map_values(|v: Vec<usize>| v@)
}

/// Every link leads to a loop.
pub open spec fn links_inside(links: Links) -> bool {
    forall|a: int, k: int|
        0 <= a < links.len() && 0 <= k < links[a].len() ==> (#[trigger] links[a][k]) < links.len()
}

fn add_link(adj: &mut Vec<Vec<usize>>, a: usize, b: usize)
    requires
        a < old(adj)@.len(),
        b < old(adj)@.len(),
        links_inside(views(old(adj)@)),
    ensures
        views(final(adj)@) == linked(views(old(adj)@), a, b),
        final(adj)@.len() == old(adj)@.len(),
        links_inside(views(final(adj)@)),
{
    let ghost before = adj@;
    let list = &mut adj[a];
    list.push(b);
    proof {
        let after = views(adj@);
        assert(after =~= linked(views(before), a, b));
        assert forall|x: int, k: int|
            0 <= x < after.len() && 0 <= k < after[x].len() implies (#[trigger] after[x][k])
            < after.len() by {
            if x == a && k == views(before)[x].len() {
            } else {
                assert(after[x][k] == views(before)[x][k]);
            }
        }
    }
}

fn build_links<T>(plants: &Vec<PlantLoopInput<T>>) -> (r: Vec<Vec<usize>>)
    ensures
        views(r@) == loop_links(plants@, plants@.len()),
        r@.len() == plants@.len(),
        links_inside(views(r@)),
{
    let n: usize = plants.len();
    let mut adj: Vec<Vec<usize>> = Vec::new();
    for i in 0..n
        invariant
            adj@.len() == i,
            forall|k: int| 0 <= k < i ==> (#[trigger] adj@[k])@ == Seq::<usize>::empty(),
    {
        adj.push(Vec::new());
    }
    assert(views(adj@) =~= loop_links(plants@, 0));
    for i in 0..n
        invariant
            n == plants@.len(),
            adj@.len() == n,
            views(adj@) == loop_links(plants@, i as nat),
            links_inside(views(adj@)),
    {
        let ghost start = views(adj@);
        let equipment = &plants[i].supply_equipment;
        for j in 0..equipment.len()
            invariant
                n == plants@.len(),
                adj@.len() == n,
                i < n,
                equipment@ == plants@[i as int].supply_equipment@,
                views(adj@) == with_loop(start, plants@, i as int, j as nat),
                links_inside(views(adj@)),
        {
            let eq = &equipment[j];
            if eq.kind == PlantEquipmentKind::HeatExchanger {
                if let Some(source) = find_loop(plants, &eq.source_loop) {
                    add_link(&mut adj, source, i);
                }
            } else if eq.kind == PlantEquipmentKind::Chiller {
                if let Some(name) = &eq.condenser_plant_loop {
                    if let Some(condenser) = find_loop(plants, name) {
                        add_link(&mut adj, i, condenser);
                    }
                }
            }
        }
    }
    adj
}

// ---------------------------------------------------------------------------
// Sorting

/// How often `b` occurs in a list.
pub open spec fn times_in(list: Seq<usize>, b: usize) -> nat
    decreases list.len(),
{
    if list.len() == 0 {
        0
    } else {
        times_in(list.drop_last(), b) + if list.last() == b {
            1nat
        } else {
            0nat
        }
    }
}

/// How many links lead to `b` from those of the first `n` loops that are not in `done`.
pub open spec fn open_links(links: Links, done: Seq<usize>, b: usize, n: nat) -> nat
    decreases n,
{
    if n == 0 {
        0
    } else {
        open_links(links, done, b, (n - 1) as nat) + if done.contains((n - 1) as usize) {
            0
        } else {
            times_in(links[n - 1], b)
        }
    }
}

/// The sort on its way: loops that are ready, the number of links to each loop that are
/// still open, and the loops that are placed.
pub ghost struct Sort {
    pub ready: Seq<usize>,
    pub open: Seq<nat>,
    pub placed: Seq<usize>,
}

/// The loops among the first `n` to which no link leads.
pub open spec fn without_links(links: Links, n: nat) -> Seq<usize>
    decreases n,
{
    if n == 0 {
        Seq::empty()
    } else {
        let rest = without_links(links, (n - 1) as nat);
        if open_links(links, Seq::empty(), (n - 1) as usize, links.len()) == 0 {
            rest.push((n - 1) as usize)
        } else {
            rest
        }
    }
}

pub open spec fn start(links: Links) -> Sort {
    Sort {
        ready: without_links(links, links.len()),
        open: Seq::new(
            links.len(),
            |b: int| open_links(links, Seq::empty(), b as usize, links.len()),
        ),
        placed: Seq::empty(),
    }
}

/// The sort after the first `m` loops of a list have lost a link; one that has no more
/// becomes ready.
pub open spec fn released(s: Sort, list: Seq<usize>, m: nat) -> Sort
    decreases m,
{
    if m == 0 {
        s
    } else {
        let rest = released(s, list, (m - 1) as nat);
        let b = list[m - 1];
        let left = (rest.open[b as int] - 1) as nat;
        Sort {
            ready: if left == 0 {
                rest.ready.push(b)
            } else {
                rest.ready
            },
            open: rest.open.update(b as int, left),
            placed: rest.placed,
        }
    }
}

/// The sort after the first ready loop was placed.
pub open spec fn placed_one(links: Links, s: Sort) -> Sort {
    let a = s.ready[0];
    released(
        Sort { ready: s.ready.drop_first(), open: s.open, placed: s.placed.push(a) },
        links[a as int],
        links[a as int].len(),
    )
}

/// The sort after `steps` loops were placed.
pub open spec fn sorted_for(links: Links, steps: nat) -> Sort
    decreases steps,
{
    if steps == 0 {
        start(links)
    } else {
        placed_one(links, sorted_for(links, (steps - 1) as nat))
    }
}

/// Those of the first `n` loops that are not in `placed`, in ascending order.
pub open spec fn left_over(placed: Seq<usize>, n: nat) -> Seq<usize>
    decreases n,
{
    if n == 0 {
        Seq::empty()
    } else {
        let rest = left_over(placed, (n - 1) as nat);
        if placed.contains((n - 1) as usize) {
            rest
        } else {
            rest.push((n - 1) as usize)
        }
    }
}

/// `order` is the order of the loops: first as they become ready, one after the other, and
/// then those that never do.
pub open spec fn is_loop_order(links: Links, order: Seq<usize>, steps: nat) -> bool {
    &&& sorted_for(links, steps).ready.len() == 0
    &&& forall|k: nat| k < steps ==> (#[trigger] sorted_for(links, k)).ready.len() > 0
    &&& order == sorted_for(links, steps).placed + left_over(
        sorted_for(links, steps).placed,
        links.len(),
    )
}

// ---------------------------------------------------------------------------
// What holds at every step

/// Everything placed or ready.
pub open spec fn seen(s: Sort) -> Seq<usize> {
    s.placed + s.ready
}

/// Every loop that links to a placed loop is placed before it.
pub open spec fn in_order(links: Links, placed: Seq<usize>) -> bool {
    forall|a: int, j: int|
        #![trigger links[a], placed[j]]
        0 <= a < links.len() && 0 <= j < placed.len() && links[a].contains(placed[j])
            ==> placed.take(j).contains(a as usize)
}

pub open spec fn sort_ok(links: Links, s: Sort) -> bool {
    let n = links.len();
    &&& s.open.len() == n
    &&& forall|b: int|
        0 <= b < n ==> #[trigger] s.open[b] == open_links(links, s.placed, b as usize, n)
    &&& forall|i: int| 0 <= i < seen(s).len() ==> (#[trigger] seen(s)[i]) < n
    &&& seen(s).no_duplicates()
    &&& forall|b: int|
        0 <= b < n ==> (#[trigger] s.open[b] == 0 <==> seen(s).contains(b as usize))
    &&& in_order(links, s.placed)
}

/// A loop is in a list where it occurs at least once.
pub proof fn times_in_positive(list: Seq<usize>, b: usize)
    ensures
        times_in(list, b) > 0 <==> list.contains(b),
    decreases list.len(),
{
    if list.len() > 0 {
        let rest = list.drop_last();
        times_in_positive(rest, b);
        if rest.contains(b) {
            let k = choose|k: int| 0 <= k < rest.len() && rest[k] == b;
            assert(list[k] == b);
        }
        if list.contains(b) && list.last() != b {
            let k = choose|k: int| 0 <= k < list.len() && list[k] == b;
            assert(rest[k] == b);
        }
        if list.last() == b {
            assert(list[list.len() - 1] == b);
        }
    }
}

proof fn open_links_after_placing(links: Links, done: Seq<usize>, a: usize, b: usize, n: nat)
    requires
        n <= links.len() <= usize::MAX,
        !done.contains(a),
    ensures
        open_links(links, done.push(a), b, n) + (if a < n {
            times_in(links[a as int], b)
        } else {
            0
        }) == open_links(links, done, b, n),
    decreases n,
{
    if n > 0 {
        open_links_after_placing(links, done, a, b, (n - 1) as nat);
        let x = (n - 1) as usize;
        let more = done.push(a);
        assert(more.contains(x) <==> done.contains(x) || x == a) by {
            if done.contains(x) {
                let k = choose|k: int| 0 <= k < done.len() && done[k] == x;
                assert(more[k] == x);
            }
            if x == a {
                assert(more[done.len() as int] == a);
            }
            if more.contains(x) && x != a {
                let k = choose|k: int| 0 <= k < more.len() && more[k] == x;
                assert(done[k] == x);
            }
        }
    }
}

proof fn closed_means_placed(links: Links, done: Seq<usize>, b: usize, n: nat, a: usize)
    requires
        n <= links.len() <= usize::MAX,
        open_links(links, done, b, n) == 0,
        a < n,
        links[a as int].contains(b),
    ensures
        done.contains(a),
    decreases n,
{
    times_in_positive(links[a as int], b);
    if n - 1 != a {
        closed_means_placed(links, done, b, (n - 1) as nat, a);
    }
}

proof fn open_means_unplaced(links: Links, done: Seq<usize>, b: usize, n: nat) -> (a: usize)
    requires
        n <= links.len() <= usize::MAX,
        open_links(links, done, b, n) > 0,
    ensures
        a < n,
        !done.contains(a),
        links[a as int].contains(b),
    decreases n,
{
    let x = (n - 1) as usize;
    if open_links(links, done, b, (n - 1) as nat) > 0 {
        open_means_unplaced(links, done, b, (n - 1) as nat)
    } else {
        times_in_positive(links[x as int], b);
        x
    }
}

proof fn without_links_ok(links: Links, n: nat)
    requires
        n <= links.len() <= usize::MAX,
    ensures
        without_links(links, n).no_duplicates(),
        forall|b: usize| #[trigger]
            without_links(links, n).contains(b) <==> b < n && open_links(
                links,
                Seq::empty(),
                b,
                links.len(),
            ) == 0,
    decreases n,
{
    if n > 0 {
        without_links_ok(links, (n - 1) as nat);
        let rest = without_links(links, (n - 1) as nat);
        let all = without_links(links, n);
        let x = (n - 1) as usize;
        assert forall|b: usize| #[trigger]
            all.contains(b) <==> b < n && open_links(links, Seq::empty(), b, links.len())
                == 0 by {
            if rest.contains(b) {
                let k = choose|k: int| 0 <= k < rest.len() && rest[k] == b;
                assert(all[k] == b);
            }
            if b == x && open_links(links, Seq::empty(), b, links.len()) == 0 {
                assert(all[rest.len() as int] == b);
            }
            if all.contains(b) {
                let k = choose|k: int| 0 <= k < all.len() && all[k] == b;
                if k < rest.len() {
                    assert(rest[k] == b);
                }
            }
        }
        assert forall|i: int, j: int| 0 <= i < j < all.len() implies all[i] != all[j] by {
            if j == rest.len() {
                assert(rest.contains(rest[i]));
            }
        }
    }
}

proof fn start_ok(links: Links)
    requires
        links.len() <= usize::MAX,
    ensures
        sort_ok(links, start(links)),
{
    without_links_ok(links, links.len());
    let s = start(links);
    assert(seen(s) =~= s.ready);
    assert forall|i: int| 0 <= i < seen(s).len() implies (#[trigger] seen(s)[i]) < links.len() by {
        assert(s.ready.contains(s.ready[i]));
    }
}

/// While the links of `a` are taken away one by one, the counts stay right.
pub open spec fn releasing_ok(links: Links, s: Sort, a: usize, m: nat) -> bool {
    let n = links.len();
    let list = links[a as int];
    &&& s.open.len() == n
    &&& forall|b: int|
        0 <= b < n ==> #[trigger] s.open[b] + times_in(list.take(m as int), b as usize)
            == open_links(links, s.placed, b as usize, n) + times_in(list, b as usize)
    &&& forall|i: int| 0 <= i < seen(s).len() ==> (#[trigger] seen(s)[i]) < n
    &&& seen(s).no_duplicates()
    &&& forall|b: int|
        0 <= b < n ==> (#[trigger] s.open[b] == 0 <==> seen(s).contains(b as usize))
}

proof fn times_in_take(list: Seq<usize>, b: usize, m: nat)
    requires
        m < list.len(),
    ensures
        times_in(list.take((m + 1) as int), b) == times_in(list.take(m as int), b) + if list[m as int] == b {
            1nat
        } else {
            0nat
        },
{
    assert(list.take((m + 1) as int).drop_last() =~= list.take(m as int));
}

proof fn times_in_prefix(list: Seq<usize>, b: usize, m: nat)
    requires
        m <= list.len(),
    ensures
        times_in(list.take(m as int), b) <= times_in(list, b),
    decreases list.len() - m,
{
    if m == list.len() {
        assert(list.take(m as int) =~= list);
    } else {
        times_in_take(list, b, m);
        times_in_prefix(list, b, m + 1);
    }
}

proof fn released_ok(links: Links, s: Sort, a: usize, m: nat)
    requires
        links.len() <= usize::MAX,
        a < links.len(),
        links_inside(links),
        m <= links[a as int].len(),
        releasing_ok(links, s, a, 0),
    ensures
        releasing_ok(links, released(s, links[a as int], m), a, m),
        released(s, links[a as int], m).placed == s.placed,
        m < links[a as int].len() ==> released(s, links[a as int], m).open[links[a as int][m as int] as int]
            > 0,
    decreases m,
{
    let list = links[a as int];
    let n = links.len();
    if m > 0 {
        released_ok(links, s, a, (m - 1) as nat);
        let rest = released(s, list, (m - 1) as nat);
        let now = released(s, list, m);
        let b = list[m - 1];
        assert(b < n);
        let left = (rest.open[b as int] - 1) as nat;
        assert(rest.open[b as int] > 0);
        assert forall|c: int| 0 <= c < n implies #[trigger] now.open[c] + times_in(
            list.take(m as int),
            c as usize,
        ) == open_links(links, now.placed, c as usize, n) + times_in(list, c as usize) by {
            times_in_take(list, c as usize, (m - 1) as nat);
            assert(rest.open[c] + times_in(list.take(m - 1), c as usize) == open_links(
                links,
                rest.placed,
                c as usize,
                n,
            ) + times_in(list, c as usize));
        }
        assert(!seen(rest).contains(b));
        if left == 0 {
            assert(seen(now) =~= seen(rest).push(b));
            assert forall|c: int| 0 <= c < n implies (#[trigger] now.open[c] == 0 <==> seen(
                now,
            ).contains(c as usize)) by {
                assert(rest.open[c] == 0 <==> seen(rest).contains(c as usize));
                if seen(rest).contains(c as usize) {
                    let k = choose|k: int|
                        0 <= k < seen(rest).len() && seen(rest)[k] == c as usize;
                    assert(seen(now)[k] == c as usize);
                }
                if seen(now).contains(c as usize) && c != b {
                    let k = choose|k: int| 0 <= k < seen(now).len() && seen(now)[k] == c as usize;
                    assert(seen(rest)[k] == c as usize);
                }
                if c == b {
                    assert(seen(now)[seen(rest).len() as int] == b);
                }
            }
            assert forall|i: int, j: int| 0 <= i < j < seen(now).len() implies seen(now)[i]
                != seen(now)[j] by {
                if j == seen(rest).len() {
                    assert(seen(rest).contains(seen(rest)[i]));
                }
            }
        } else {
            assert(seen(now) =~= seen(rest));
            assert forall|c: int| 0 <= c < n implies (#[trigger] now.open[c] == 0 <==> seen(
                now,
            ).contains(c as usize)) by {
                assert(rest.open[c] == 0 <==> seen(rest).contains(c as usize));
            }
        }
    }
    if m < list.len() {
        let now = released(s, list, m);
        let c = list[m as int];
        times_in_take(list, c, m);
        times_in_prefix(list, c, m + 1);
        assert(now.open[c as int] + times_in(list.take(m as int), c) == open_links(
            links,
            now.placed,
            c,
            n,
        ) + times_in(list, c));
    }
}

proof fn placed_one_ok(links: Links, s: Sort)
    requires
        links.len() <= usize::MAX,
        links_inside(links),
        sort_ok(links, s),
        s.ready.len() > 0,
    ensures
        sort_ok(links, placed_one(links, s)),
        placed_one(links, s).placed == s.placed.push(s.ready[0]),
{
    let n = links.len();
    let a = s.ready[0];
    assert(seen(s)[s.placed.len() as int] == a);
    assert(seen(s).contains(a));
    assert(a < n);
    assert(s.open[a as int] == 0);
    let moved = Sort { ready: s.ready.drop_first(), open: s.open, placed: s.placed.push(a) };
    let list = links[a as int];
    releasing_starts(links, s);
    released_ok(links, moved, a, list.len());
    let next = placed_one(links, s);
    assert(list.take(list.len() as int) =~= list);
    assert forall|b: int| 0 <= b < n implies #[trigger] next.open[b] == open_links(
        links,
        next.placed,
        b as usize,
        n,
    ) by {
        assert(next.open[b] + times_in(list.take(list.len() as int), b as usize) == open_links(
            links,
            next.placed,
            b as usize,
            n,
        ) + times_in(list, b as usize));
    }
    assert forall|x: int, j: int|
        #![trigger links[x], next.placed[j]]
        0 <= x < n && 0 <= j < next.placed.len() && links[x].contains(
            next.placed[j],
        ) implies next.placed.take(j).contains(x as usize) by {
        if j < s.placed.len() {
            assert(next.placed.take(j) =~= s.placed.take(j));
            assert(next.placed[j] == s.placed[j]);
        } else {
            assert(next.placed.take(j) =~= s.placed);
            assert(s.open[a as int] == open_links(links, s.placed, a, n));
            closed_means_placed(links, s.placed, a, n, x as usize);
        }
    }
}

proof fn sorted_ok(links: Links, steps: nat)
    requires
        links.len() <= usize::MAX,
        links_inside(links),
        forall|k: nat| k < steps ==> (#[trigger] sorted_for(links, k)).ready.len() > 0,
    ensures
        sort_ok(links, sorted_for(links, steps)),
        sorted_for(links, steps).placed.len() == steps,
        steps <= links.len(),
    decreases steps,
{
    if steps == 0 {
        start_ok(links);
    } else {
        let k = (steps - 1) as nat;
        sorted_ok(links, k);
        assert(sorted_for(links, k).ready.len() > 0);
        placed_one_ok(links, sorted_for(links, k));
    }
    let s = sorted_for(links, steps);
    seen(s).unique_seq_to_set();
    let all = Set::<usize>::new(|x: usize| x < links.len());
    assert(seen(s).to_set().subset_of(all)) by {
        assert forall|x: usize| seen(s).to_set().contains(x) implies all.contains(x) by {
            let i = choose|i: int| 0 <= i < seen(s).len() && seen(s)[i] == x;
            assert(seen(s)[i] < links.len());
        }
    }
    indices_finite(links.len());
    lemma_len_subset(seen(s).to_set(), all);
}

proof fn indices_finite(n: nat)
    requires
        n <= usize::MAX,
    ensures
        Set::<usize>::new(|x: usize| x < n).finite(),
        Set::<usize>::new(|x: usize| x < n).len() == n,
    decreases n,
{
    let all = Set::<usize>::new(|x: usize| x < n);
    if n == 0 {
        assert(all =~= Set::empty());
    } else {
        let m = (n - 1) as nat;
        indices_finite(m);
        let rest = Set::<usize>::new(|x: usize| x < m);
        assert(all =~= rest.insert(m as usize));
        assert(!rest.contains(m as usize));
    }
}

// ---------------------------------------------------------------------------
// The order

fn count_links(adj: &Vec<Vec<usize>>) -> (r: Vec<u128>)
    requires
        links_inside(views(adj@)),
    ensures
        r@.len() == adj@.len(),
        forall|b: int|
            0 <= b < r@.len() ==> #[trigger] r@[b] == open_links(
                views(adj@),
                Seq::empty(),
                b as usize,
                adj@.len(),
            ),
{
    let n: usize = adj.len();
    let ghost links = views(adj@);
    let mut degree: Vec<u128> = Vec::new();
    for i in 0..n
        invariant
            degree@.len() == i,
            forall|b: int| 0 <= b < i ==> #[trigger] degree@[b] == 0,
    {
        degree.push(0);
    }
    for a in 0..n
        invariant
            n == adj@.len(),
            links == views(adj@),
            links_inside(links),
            degree@.len() == n,
            forall|b: int|
                0 <= b < n ==> #[trigger] degree@[b] == open_links(
                    links,
                    Seq::empty(),
                    b as usize,
                    a as nat,
                ),
            forall|b: int| 0 <= b < n ==> #[trigger] degree@[b] <= a * usize::MAX,
    {
        let list = &adj[a];
        let ghost before = degree@;
        assert(list@ == links[a as int]);
        let len: usize = list.len();
        for k in 0..len
            invariant
                n == adj@.len(),
                links == views(adj@),
                links_inside(links),
                a < n,
                len == list@.len(),
                list@ == links[a as int],
                degree@.len() == n,
                before.len() == n,
                forall|b: int| 0 <= b < n ==> #[trigger] before[b] <= a * usize::MAX,
                forall|b: int|
                    0 <= b < n ==> #[trigger] degree@[b] == before[b] + times_in(
                        list@.take(k as int),
                        b as usize,
                    ),
                forall|b: int| 0 <= b < n ==> #[trigger] degree@[b] <= before[b] + k,
        {
            let b: usize = list[k];
            assert(b == links[a as int][k as int]);
            assert(b < n);
            assert(a * usize::MAX + usize::MAX <= usize::MAX * usize::MAX) by (nonlinear_arith)
                requires
                    a + 1 <= usize::MAX,
            ;
            assert(usize::MAX * usize::MAX <= 0xffff_ffff_ffff_ffff * 0xffff_ffff_ffff_ffff)
                by (nonlinear_arith)
                requires
                    0 <= usize::MAX <= 0xffff_ffff_ffff_ffff,
            ;
            assert(degree@[b as int] <= before[b as int] + k);
            let ghost prior = degree@;
            degree.set(b, degree[b] + 1);
            assert forall|c: int| 0 <= c < n implies #[trigger] degree@[c] == before[c] + times_in(
                list@.take(k + 1),
                c as usize,
            ) by {
                times_in_take(list@, c as usize, k as nat);
                assert(prior[c] == before[c] + times_in(list@.take(k as int), c as usize));
            }
        }
        assert(list@.take(len as int) =~= list@);
        assert forall|b: int| 0 <= b < n implies #[trigger] degree@[b] <= (a + 1)
            * usize::MAX by {
            assert(degree@[b] <= before[b] + len);
            assert((a + 1) * usize::MAX == a * usize::MAX + usize::MAX) by (nonlinear_arith);
        }
        assert forall|b: int| 0 <= b < n implies #[trigger] degree@[b] == open_links(
            links,
            Seq::empty(),
            b as usize,
            (a + 1) as nat,
        ) by {
            assert(degree@[b] == before[b] + times_in(list@.take(len as int), b as usize));
            assert(!Seq::<usize>::empty().contains(a));
        }
    }
    degree
}

/// The state of the sort in executable form.
pub open spec fn same_state(s: Sort, ready: Seq<usize>, degree: Seq<u128>, placed: Seq<usize>) -> bool {
    &&& s.ready == ready
    &&& s.placed == placed
    &&& s.open.len() == degree.len()
    &&& forall|b: int| 0 <= b < degree.len() ==> #[trigger] s.open[b] == degree[b]
}

/// The order in which the plant loops are simulated.
pub fn plant_loop_order<T>(plants: &Vec<PlantLoopInput<T>>) -> (r: Vec<usize>)
    ensures
        exists|steps: nat| #[trigger]
            is_loop_order(loop_links(plants@, plants@.len()), r@, steps),
        links_inside(loop_links(plants@, plants@.len())),
        r@.no_duplicates(),
        forall|x: usize| #[trigger] r@.contains(x) <==> x < plants@.len(),
{
    let n: usize = plants.len();
    let adj = build_links(plants);
    let ghost links = views(adj@);
    let mut degree = count_links(&adj);
    let mut ready: Vec<usize> = Vec::new();
    for i in 0..n
        invariant
            n == adj@.len(),
            links == views(adj@),
            degree@.len() == n,
            forall|b: int|
                0 <= b < n ==> #[trigger] degree@[b] == open_links(
                    links,
                    Seq::empty(),
                    b as usize,
                    n as nat,
                ),
            ready@ == without_links(links, i as nat),
    {
        if degree[i] == 0 {
            ready.push(i);
        }
    }
    let mut order: Vec<usize> = Vec::new();
    let ghost mut steps: nat = 0;
    assert(same_state(start(links), ready@, degree@, order@));
    while ready.len() > 0
        invariant
            n == adj@.len(),
            links == views(adj@),
            links_inside(links),
            degree@.len() == n,
            same_state(sorted_for(links, steps), ready@, degree@, order@),
            forall|k: nat| k < steps ==> (#[trigger] sorted_for(links, k)).ready.len() > 0,
            steps <= n,
        decreases n - steps,
    {
        proof {
            sorted_ok(links, steps);
        }
        let ghost before = sorted_for(links, steps);
        let a: usize = ready.remove(0);
        assert(a == before.ready[0]);
        assert(seen(before)[before.placed.len() as int] == a);
        assert(a < n);
        order.push(a);
        let ghost moved = Sort {
            ready: before.ready.drop_first(),
            open: before.open,
            placed: before.placed.push(a),
        };
        let list = &adj[a];
        assert(list@ == links[a as int]);
        assert(ready@ =~= moved.ready);
        proof {
            assert(releasing_ok(links, moved, a, 0)) by {
                releasing_starts(links, before);
            }
        }
        for k in 0..list.len()
            invariant
                n == adj@.len(),
                links == views(adj@),
                links_inside(links),
                a < n,
                list@ == links[a as int],
                degree@.len() == n,
                releasing_ok(links, moved, a, 0),
                same_state(released(moved, list@, k as nat), ready@, degree@, order@),
        {
            let b: usize = list[k];
            assert(b == links[a as int][k as int]);
            proof {
                released_ok(links, moved, a, k as nat);
            }
            let ghost prior = released(moved, list@, k as nat);
            assert(prior.open[b as int] == degree@[b as int]);
            let left: u128 = degree[b] - 1;
            degree.set(b, left);
            if left == 0 {
                ready.push(b);
            }
            assert(same_state(released(moved, list@, (k + 1) as nat), ready@, degree@, order@));
        }
        proof {
            steps = steps + 1;
            assert(sorted_for(links, steps) == placed_one(links, before));
            sorted_ok(links, steps);
        }
    }
    proof {
        sorted_ok(links, steps);
    }
    let ghost placed = order@;
    for i in 0..n
        invariant
            order@ == placed + left_over(placed, i as nat),
    {
        let mut found = false;
        for k in 0..order.len()
            invariant
                found == order@.take(k as int).contains(i),
        {
            assert(order@.take(k + 1) =~= order@.take(k as int).push(order@[k as int]));
            if order[k] == i {
                found = true;
                assert(order@.take(k + 1)[k as int] == i);
            } else {
                let ghost here = order@.take(k as int);
                let ghost next = order@.take(k + 1);
                assert(next.contains(i) <==> here.contains(i)) by {
                    if here.contains(i) {
                        let j = choose|j: int| 0 <= j < here.len() && here[j] == i;
                        assert(next[j] == i);
                    }
                    if next.contains(i) {
                        let j = choose|j: int| 0 <= j < next.len() && next[j] == i;
                        assert(here[j] == i);
                    }
                }
            }
        }
        assert(order@.take(order@.len() as int) =~= order@);
        proof {
            left_over_below(placed, i as nat);
            assert(order@.contains(i) <==> placed.contains(i)) by {
                if placed.contains(i) {
                    let j = choose|j: int| 0 <= j < placed.len() && placed[j] == i;
                    assert(order@[j] == i);
                }
                if order@.contains(i) {
                    let j = choose|j: int| 0 <= j < order@.len() && order@[j] == i;
                    if j >= placed.len() {
                        assert(left_over(placed, i as nat)[j - placed.len()] == i);
                        assert(left_over(placed, i as nat).contains(i));
                    } else {
                        assert(placed[j] == i);
                    }
                }
            }
        }
        let ghost prior = order@;
        if !found {
            order.push(i);
            assert(order@ =~= placed + left_over(placed, (i + 1) as nat));
        }
    }
    assert(is_loop_order(links, order@, steps));
    proof {
        order_places_each_loop_once(links, order@, steps);
    }
    order
}

proof fn releasing_starts(links: Links, s: Sort)
    requires
        links.len() <= usize::MAX,
        sort_ok(links, s),
        s.ready.len() > 0,
    ensures
        releasing_ok(
            links,
            Sort { ready: s.ready.drop_first(), open: s.open, placed: s.placed.push(s.ready[0]) },
            s.ready[0],
            0,
        ),
{
    let n = links.len();
    let a = s.ready[0];
    assert(seen(s)[s.placed.len() as int] == a);
    let moved = Sort { ready: s.ready.drop_first(), open: s.open, placed: s.placed.push(a) };
    assert(seen(moved) =~= seen(s));
    assert(!s.placed.contains(a)) by {
        if s.placed.contains(a) {
            let k = choose|k: int| 0 <= k < s.placed.len() && s.placed[k] == a;
            assert(seen(s)[k] == a);
        }
    }
    let list = links[a as int];
    assert forall|b: int| 0 <= b < n implies #[trigger] moved.open[b] + times_in(
        list.take(0),
        b as usize,
    ) == open_links(links, moved.placed, b as usize, n) + times_in(list, b as usize) by {
        open_links_after_placing(links, s.placed, a, b as usize, n);
        assert(s.open[b] == open_links(links, s.placed, b as usize, n));
        assert(times_in(list.take(0), b as usize) == 0);
    }
    assert forall|b: int| 0 <= b < n implies (#[trigger] moved.open[b] == 0 <==> seen(
        moved,
    ).contains(b as usize)) by {
        assert(s.open[b] == 0 <==> seen(s).contains(b as usize));
    }
}

proof fn left_over_below(placed: Seq<usize>, n: nat)
    requires
        n <= usize::MAX,
    ensures
        forall|x: usize| #[trigger]
            left_over(placed, n).contains(x) <==> x < n && !placed.contains(x),
    decreases n,
{
    if n > 0 {
        left_over_below(placed, (n - 1) as nat);
        let rest = left_over(placed, (n - 1) as nat);
        let all = left_over(placed, n);
        let y = (n - 1) as usize;
        assert forall|x: usize| #[trigger] all.contains(x) <==> x < n && !placed.contains(x) by {
            if rest.contains(x) {
                let k = choose|k: int| 0 <= k < rest.len() && rest[k] == x;
                assert(all[k] == x);
            }
            if x == y && !placed.contains(y) {
                assert(all[rest.len() as int] == y);
            }
            if all.contains(x) {
                let k = choose|k: int| 0 <= k < all.len() && all[k] == x;
                if k < rest.len() {
                    assert(rest[k] == x);
                }
            }
        }
    }
}

// ---------------------------------------------------------------------------
// Laws

/// Every loop has its place in the order, and only one.
pub proof fn order_places_each_loop_once(links: Links, order: Seq<usize>, steps: nat)
    requires
        links.len() <= usize::MAX,
        links_inside(links),
        is_loop_order(links, order, steps),
    ensures
        order.no_duplicates(),
        forall|x: usize| #[trigger] order.contains(x) <==> x < links.len(),
        order.len() == links.len(),
{
    sorted_ok(links, steps);
    let s = sorted_for(links, steps);
    let n = links.len();
    assert(seen(s) =~= s.placed);
    let rest = left_over(s.placed, n);
    left_over_below(s.placed, n);
    left_over_distinct(s.placed, n);
    assert forall|x: usize| #[trigger] order.contains(x) <==> x < n by {
        if s.placed.contains(x) {
            let k = choose|k: int| 0 <= k < s.placed.len() && s.placed[k] == x;
            assert(order[k] == x);
            assert(seen(s)[k] < n);
        }
        if rest.contains(x) {
            let k = choose|k: int| 0 <= k < rest.len() && rest[k] == x;
            assert(order[s.placed.len() + k] == x);
        }
        if order.contains(x) {
            let k = choose|k: int| 0 <= k < order.len() && order[k] == x;
            if k < s.placed.len() {
                assert(s.placed[k] == x);
            } else {
                assert(rest[k - s.placed.len()] == x);
                assert(rest.contains(x));
            }
        }
    }
    assert forall|i: int, j: int| 0 <= i < j < order.len() implies order[i] != order[j] by {
        let m = s.placed.len();
        if j < m {
            assert(seen(s)[i] != seen(s)[j]);
        } else if i < m {
            assert(rest.contains(rest[j - m]));
            assert(s.placed.contains(s.placed[i]));
        } else {
            assert(rest[i - m] != rest[j - m]);
        }
    }
    order.unique_seq_to_set();
    indices_finite(n);
    assert(order.to_set() =~= Set::<usize>::new(|x: usize| x < n));
}

proof fn left_over_distinct(placed: Seq<usize>, n: nat)
    requires
        n <= usize::MAX,
    ensures
        left_over(placed, n).no_duplicates(),
    decreases n,
{
    if n > 0 {
        left_over_distinct(placed, (n - 1) as nat);
        left_over_below(placed, (n - 1) as nat);
        let rest = left_over(placed, (n - 1) as nat);
        let all = left_over(placed, n);
        assert forall|i: int, j: int| 0 <= i < j < all.len() implies all[i] != all[j] by {
            if j == rest.len() {
                assert(rest.contains(rest[i]));
            }
        }
    }
}

/// A loop that could be sorted comes after every loop that links to it.
pub proof fn sorted_loop_comes_after_its_sources(
    links: Links,
    order: Seq<usize>,
    steps: nat,
    a: int,
    j: int,
)
    requires
        links.len() <= usize::MAX,
        links_inside(links),
        is_loop_order(links, order, steps),
        0 <= a < links.len(),
        0 <= j < steps,
        links[a].contains(order[j]),
    ensures
        order.take(j).contains(a as usize),
{
    sorted_ok(links, steps);
    let s = sorted_for(links, steps);
    assert(order[j] == s.placed[j]);
    assert(order.take(j) =~= s.placed.take(j));
    assert(links[a].contains(s.placed[j]));
}

/// A loop that could not be sorted waits for another such loop, so that it is on a cycle or
/// behind one.
pub proof fn unsorted_loop_waits_for_another(
    links: Links,
    order: Seq<usize>,
    steps: nat,
    j: int,
) -> (source: usize)
    requires
        links.len() <= usize::MAX,
        links_inside(links),
        is_loop_order(links, order, steps),
        steps <= j < order.len(),
    ensures
        source < links.len(),
        links[source as int].contains(order[j]),
        order.skip(steps as int).contains(source),
{
    sorted_ok(links, steps);
    let s = sorted_for(links, steps);
    let n = links.len();
    let rest = left_over(s.placed, n);
    left_over_below(s.placed, n);
    let b = order[j];
    assert(rest[j - steps] == b);
    assert(rest.contains(b));
    assert(seen(s) =~= s.placed);
    assert(s.open[b as int] == 0 <==> seen(s).contains(b));
    assert(s.open[b as int] == open_links(links, s.placed, b, n));
    let a = open_means_unplaced(links, s.placed, b, n);
    assert(rest.contains(a));
    let k = choose|k: int| 0 <= k < rest.len() && rest[k] == a;
    assert(order.skip(steps as int)[k] == a);
    a
}

} // verus!
