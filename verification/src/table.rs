//! A table from names to values.
use vstd::prelude::*;
use vstd::string::*;

verus! {

/// Values filed under names, in the order in which the names were first filed.
pub struct Table<V> {
    pub entries: Vec<(String, V)>,
}

/// The value of the first entry under `key`.
pub open spec fn lookup<V>(entries: Seq<(String, V)>, key: Seq<char>) -> Option<V>
    decreases entries.len(),
{
    if entries.len() == 0 {
        None
    } else if entries[0].0@ == key {
        Some(entries[0].1)
    } else {
        lookup(entries.drop_first(), key)
    }
}

/// No two entries are under the same name.
pub open spec fn distinct<V>(entries: Seq<(String, V)>) -> bool {
    forall|i: int, j: int|
        0 <= i < j < entries.len() ==> (#[trigger] entries[i]).0@ != (#[trigger] entries[j]).0@
}

proof fn lookup_found<V>(entries: Seq<(String, V)>, key: Seq<char>, i: int)
    requires
        0 <= i < entries.len(),
        entries[i].0@ == key,
        forall|j: int| 0 <= j < i ==> (#[trigger] entries[j]).0@ != key,
    ensures
        lookup(entries, key) == Some(entries[i].1),
    decreases i,
{
    if i > 0 {
        assert(entries[0].0@ != key);
        let rest = entries.drop_first();
        assert forall|j: int| 0 <= j < i - 1 implies (#[trigger] rest[j]).0@ != key by {
            assert(rest[j] == entries[j + 1]);
        }
        lookup_found(rest, key, i - 1);
    }
}

proof fn lookup_missing<V>(entries: Seq<(String, V)>, key: Seq<char>)
    requires
        forall|j: int| 0 <= j < entries.len() ==> (#[trigger] entries[j]).0@ != key,
    ensures
        lookup(entries, key) is None,
    decreases entries.len(),
{
    if entries.len() > 0 {
        assert(entries[0].0@ != key);
        let rest = entries.drop_first();
        assert forall|j: int| 0 <= j < rest.len() implies (#[trigger] rest[j]).0@ != key by {
            assert(rest[j] == entries[j + 1]);
        }
        lookup_missing(rest, key);
    }
}

proof fn lookup_after_push<V>(entries: Seq<(String, V)>, entry: (String, V), key: Seq<char>)
    ensures
        lookup(entries.push(entry), key) == match lookup(entries, key) {
            Some(v) => Some(v),
            None => if entry.0@ == key {
                Some(entry.1)
            } else {
                None
            },
        },
    decreases entries.len(),
{
    if entries.len() > 0 {
        assert(entries.push(entry).drop_first() =~= entries.drop_first().push(entry));
        assert(entries.push(entry)[0] == entries[0]);
        lookup_after_push(entries.drop_first(), entry, key);
    } else {
        reveal_with_fuel(lookup, 2);
        assert(entries.push(entry).drop_first().len() == 0);
        assert(entries.push(entry)[0] == entry);
    }
}

proof fn lookup_after_update<V>(
    entries: Seq<(String, V)>,
    i: int,
    entry: (String, V),
    key: Seq<char>,
)
    requires
        0 <= i < entries.len(),
        entry.0@ == entries[i].0@,
        forall|j: int| 0 <= j < i ==> (#[trigger] entries[j]).0@ != entry.0@,
    ensures
        lookup(entries.update(i, entry), key) == if key == entry.0@ {
            Some(entry.1)
        } else {
            lookup(entries, key)
        },
    decreases i,
{
    let after = entries.update(i, entry);
    if i == 0 {
        assert(after.drop_first() =~= entries.drop_first());
    } else {
        assert(entries[0].0@ != entry.0@);
        let rest = entries.drop_first();
        assert(after.drop_first() =~= rest.update(i - 1, entry));
        assert forall|j: int| 0 <= j < i - 1 implies (#[trigger] rest[j]).0@ != entry.0@ by {
            assert(rest[j] == entries[j + 1]);
        }
        lookup_after_update(rest, i - 1, entry, key);
    }
}

/// Some entry is under `key`.
pub open spec fn is_filed<V>(entries: Seq<(String, V)>, key: Seq<char>) -> bool {
    exists|i: int| 0 <= i < entries.len() && (#[trigger] entries[i]).0@ == key
}

pub proof fn filed_one_more<V>(entries: Seq<(String, V)>, i: int)
    requires
        0 <= i < entries.len(),
    ensures
        forall|k: Seq<char>| #[trigger]
            is_filed(entries.take(i + 1), k) <==> is_filed(entries.take(i), k) || k
                == entries[i].0@,
{
    let here = entries.take(i);
    let next = entries.take(i + 1);
    assert forall|k: Seq<char>| #[trigger]
        is_filed(next, k) <==> is_filed(here, k) || k == entries[i].0@ by {
        if is_filed(here, k) {
            let j = choose|j: int| 0 <= j < here.len() && (#[trigger] here[j]).0@ == k;
            assert(next[j].0@ == k);
        }
        if is_filed(next, k) {
            let j = choose|j: int| 0 <= j < next.len() && (#[trigger] next[j]).0@ == k;
            if j < i {
                assert(here[j].0@ == k);
            }
        }
        assert(next[i].0@ == entries[i].0@);
    }
}

pub proof fn filed_is_mapped<V>(entries: Seq<(String, V)>, i: int)
    requires
        0 <= i < entries.len(),
    ensures
        lookup(entries, entries[i].0@) is Some,
    decreases i,
{
    if entries[0].0@ != entries[i].0@ {
        let rest = entries.drop_first();
        assert(rest[i - 1] == entries[i]);
        filed_is_mapped(rest, i - 1);
    }
}

/// The table maps exactly the names of its entries.
pub proof fn filed_iff_mapped<V>(table: Table<V>)
    ensures
        forall|k: Seq<char>| #[trigger] is_filed(table.entries@, k) == table@.contains_key(k),
{
    let entries = table.entries@;
    assert forall|k: Seq<char>| #[trigger] is_filed(entries, k) == table@.contains_key(k) by {
        if is_filed(entries, k) {
            let i = choose|i: int| 0 <= i < entries.len() && (#[trigger] entries[i]).0@ == k;
            filed_is_mapped(entries, i);
        } else {
            assert forall|j: int| 0 <= j < entries.len() implies (#[trigger] entries[j]).0@
                != k by {
                if entries[j].0@ == k {
                    assert(is_filed(entries, k));
                }
            }
            lookup_missing(entries, k);
        }
    }
}

/// Two tables with the same names in the same places find a name at the same place.
pub proof fn lookup_same_place<U, V>(a: Seq<(String, U)>, b: Seq<(String, V)>, key: Seq<char>)
    requires
        a.len() == b.len(),
        forall|i: int| 0 <= i < a.len() ==> (#[trigger] a[i]).0@ == b[i].0@,
    ensures
        lookup(a, key) is Some <==> lookup(b, key) is Some,
        lookup(a, key) is Some ==> exists|i: int|
            0 <= i < a.len() && (#[trigger] a[i]).0@ == key && lookup(a, key) == Some(a[i].1)
                && lookup(b, key) == Some(b[i].1),
    decreases a.len(),
{
    if a.len() > 0 {
        assert(a[0].0@ == b[0].0@);
        if a[0].0@ != key {
            let (x, y) = (a.drop_first(), b.drop_first());
            assert forall|i: int| 0 <= i < x.len() implies (#[trigger] x[i]).0@ == y[i].0@ by {
                assert(a[i + 1].0@ == b[i + 1].0@);
            }
            lookup_same_place(x, y, key);
            if lookup(x, key) is Some {
                let i = choose|i: int|
                    0 <= i < x.len() && (#[trigger] x[i]).0@ == key && lookup(x, key) == Some(
                        x[i].1,
                    ) && lookup(y, key) == Some(y[i].1);
                assert(a[i + 1] == x[i]);
                assert(b[i + 1] == y[i]);
            }
        }
    }
}

/// The entries by their names, in the order in which they were filed; of those under one name
/// only the first, which is the one that counts.
pub open spec fn listed_of<V>(entries: Seq<(String, V)>) -> Seq<(Seq<char>, V)>
    decreases entries.len(),
{
    if entries.len() == 0 {
        Seq::empty()
    } else {
        let rest = listed_of(entries.drop_last());
        let last = entries.last();
        if is_filed(entries.drop_last(), last.0@) {
            rest
        } else {
            rest.push((last.0@, last.1))
        }
    }
}

pub proof fn listed_one_more<V>(entries: Seq<(String, V)>, i: int)
    requires
        0 <= i < entries.len(),
    ensures
        listed_of(entries.take(i + 1)) == if is_filed(entries.take(i), entries[i].0@) {
            listed_of(entries.take(i))
        } else {
            listed_of(entries.take(i)).push((entries[i].0@, entries[i].1))
        },
{
    assert(entries.take(i + 1).drop_last() =~= entries.take(i));
}

proof fn lookup_in_longer<V>(entries: Seq<(String, V)>, key: Seq<char>)
    requires
        entries.len() > 0,
    ensures
        lookup(entries, key) == if is_filed(entries.drop_last(), key) {
            lookup(entries.drop_last(), key)
        } else if entries.last().0@ == key {
            Some(entries.last().1)
        } else {
            None
        },
{
    let rest = entries.drop_last();
    assert(entries =~= rest.push(entries.last()));
    lookup_after_push(rest, entries.last(), key);
    if is_filed(rest, key) {
        let i = choose|i: int| 0 <= i < rest.len() && (#[trigger] rest[i]).0@ == key;
        filed_is_mapped(rest, i);
    } else {
        assert forall|j: int| 0 <= j < rest.len() implies (#[trigger] rest[j]).0@ != key by {
            if rest[j].0@ == key {
                assert(is_filed(rest, key));
            }
        }
        lookup_missing(rest, key);
    }
}

proof fn listed_are_looked_up<V>(entries: Seq<(String, V)>)
    ensures
        forall|i: int|
            0 <= i < listed_of(entries).len() ==> lookup(
                entries,
                (#[trigger] listed_of(entries)[i]).0,
            ) == Some(listed_of(entries)[i].1),
        forall|i: int, j: int|
            0 <= i < j < listed_of(entries).len() ==> (#[trigger] listed_of(entries)[i]).0 != (
            #[trigger] listed_of(entries)[j]).0,
        forall|i: int|
            0 <= i < listed_of(entries).len() ==> is_filed(
                entries,
                (#[trigger] listed_of(entries)[i]).0,
            ),
        forall|k: Seq<char>| #[trigger]
            is_filed(entries, k) ==> exists|i: int|
                0 <= i < listed_of(entries).len() && (#[trigger] listed_of(entries)[i]).0 == k,
    decreases entries.len(),
{
    if entries.len() > 0 {
        let rest = entries.drop_last();
        let last = entries.last();
        let all = listed_of(entries);
        let before = listed_of(rest);
        listed_are_looked_up(rest);
        assert(entries.take(entries.len() as int) =~= entries);
        assert(entries.take(entries.len() - 1) =~= rest);
        filed_one_more(entries, entries.len() - 1);
        assert forall|i: int| 0 <= i < all.len() implies lookup(entries, (#[trigger] all[i]).0)
            == Some(all[i].1) && is_filed(entries, all[i].0) by {
            lookup_in_longer(entries, all[i].0);
            if i < before.len() {
                assert(all[i] == before[i]);
                assert(is_filed(rest, before[i].0));
                assert(is_filed(entries, all[i].0));
            } else {
                assert(all[i].0 == last.0@);
                assert(is_filed(entries, last.0@));
            }
        }
        assert forall|i: int, j: int| 0 <= i < j < all.len() implies (#[trigger] all[i]).0 != (
        #[trigger] all[j]).0 by {
            assert(all[i] == before[i]);
            assert(is_filed(rest, before[i].0));
            if j < before.len() {
                assert(all[j] == before[j]);
            }
        }
        assert forall|k: Seq<char>| #[trigger] is_filed(entries, k) implies exists|i: int|
            0 <= i < all.len() && (#[trigger] all[i]).0 == k by {
            if is_filed(rest, k) {
                let i = choose|i: int| 0 <= i < before.len() && (#[trigger] before[i]).0 == k;
                assert(all[i].0 == k);
            } else {
                assert(k == last.0@);
                assert(all[all.len() - 1].0 == k);
            }
        }
    } else {
        assert forall|k: Seq<char>| #[trigger] is_filed(entries, k) implies exists|i: int|
            0 <= i < listed_of(entries).len() && (#[trigger] listed_of(entries)[i]).0 == k by {
        }
    }
}

/// The list of a table holds what the table maps, each name once, with its value.
pub proof fn listed_is_what_is_mapped<V>(table: Table<V>)
    ensures
        forall|i: int|
            0 <= i < table.listed().len() ==> table@.contains_key((#[trigger] table.listed()[i]).0)
                && table@[table.listed()[i].0] == table.listed()[i].1,
        forall|i: int, j: int|
            0 <= i < j < table.listed().len() ==> (#[trigger] table.listed()[i]).0 != (
            #[trigger] table.listed()[j]).0,
        forall|k: Seq<char>| #[trigger]
            table@.contains_key(k) ==> exists|i: int|
                0 <= i < table.listed().len() && (#[trigger] table.listed()[i]).0 == k,
{
    listed_are_looked_up(table.entries@);
    filed_iff_mapped(table);
    assert forall|k: Seq<char>| #[trigger] table@.contains_key(k) implies exists|i: int|
        0 <= i < table.listed().len() && (#[trigger] table.listed()[i]).0 == k by {
        assert(is_filed(table.entries@, k));
        let all = listed_of(table.entries@);
        let i = choose|i: int| 0 <= i < all.len() && (#[trigger] all[i]).0 == k;
        assert(table.listed()[i].0 == k);
    }
}

impl<V> View for Table<V> {
    type V = Map<Seq<char>, V>;

    open spec fn view(&self) -> Map<Seq<char>, V> {
        Map::new(
            |key: Seq<char>| lookup(self.entries@, key) is Some,
            |key: Seq<char>| lookup(self.entries@, key)->Some_0,
        )
    }
}

impl<V> Table<V> {
    /// The names of the table, each once and with its value, in the order of filing.
    pub open spec fn listed(self) -> Seq<(Seq<char>, V)> {
        listed_of(self.entries@)
    }

    pub fn new() -> (r: Self)
        ensures
            r@ == Map::<Seq<char>, V>::empty(),
            r.entries@.len() == 0,
            distinct(r.entries@),
    {
        let table = Table { entries: Vec::new() };
        assert(table@ =~= Map::<Seq<char>, V>::empty());
        table
    }

    pub fn len(&self) -> (r: usize)
        ensures
            r == self.entries@.len(),
    {
        self.entries.len()
    }

    /// Where the first entry under `key` stands.
    pub fn position(&self, key: &str) -> (r: Option<usize>)
        ensures
            match r {
                Some(i) => i < self.entries@.len() && self.entries@[i as int].0@ == key@ && (
                forall|j: int| 0 <= j < i ==> (#[trigger] self.entries@[j]).0@ != key@)
                    && self@.contains_key(key@) && self@[key@] == self.entries@[i as int].1,
                None => (forall|j: int|
                    0 <= j < self.entries@.len() ==> (#[trigger] self.entries@[j]).0@ != key@)
                    && !self@.contains_key(key@),
            },
    {
        let wanted = key.to_owned();
        for i in 0..self.entries.len()
            invariant
                wanted@ == key@,
                forall|j: int| 0 <= j < i ==> (#[trigger] self.entries@[j]).0@ != key@,
        {
            if self.entries[i].0 == wanted {
                proof {
                    lookup_found(self.entries@, key@, i as int);
                }
                return Some(i);
            }
        }
        proof {
            lookup_missing(self.entries@, key@);
        }
        None
    }

    /// Whether an earlier entry is under the same name as entry `i`.
    pub fn is_repeat(&self, i: usize) -> (r: bool)
        requires
            i < self.entries@.len(),
        ensures
            r == is_filed(self.entries@.take(i as int), self.entries@[i as int].0@),
    {
        let ghost earlier = self.entries@.take(i as int);
        match self.position(self.entries[i].0.as_str()) {
            Some(first) => {
                if first < i {
                    assert(earlier[first as int].0@ == self.entries@[i as int].0@);
                    true
                } else {
                    false
                }
            },
            None => false,
        }
    }

    pub fn get(&self, key: &str) -> (r: Option<&V>)
        ensures
            match r {
                Some(v) => self@.contains_key(key@) && self@[key@] == *v,
                None => !self@.contains_key(key@),
            },
    {
        match self.position(key) {
            Some(i) => Some(&self.entries[i].1),
            None => None,
        }
    }

    pub fn contains_key(&self, key: &str) -> (r: bool)
        ensures
            r == self@.contains_key(key@),
    {
        self.position(key).is_some()
    }

    /// Files `value` under `key`, in place of what was there.
    pub fn insert(&mut self, key: &str, value: V)
        ensures
            final(self)@ == old(self)@.insert(key@, value),
            distinct(old(self).entries@) ==> distinct(final(self).entries@),
    {
        let ghost before = self.entries@;
        let name = key.to_owned();
        match self.position(key) {
            Some(i) => {
                let ghost entry = (name, value);
                self.entries.set(i, (name, value));
                proof {
                    assert forall|k: Seq<char>| #[trigger]
                        lookup(self.entries@, k) == if k == key@ {
                            Some(value)
                        } else {
                            lookup(before, k)
                        } by {
                        lookup_after_update(before, i as int, entry, k);
                    }
                }
            },
            None => {
                let ghost entry = (name, value);
                self.entries.push((name, value));
                proof {
                    lookup_missing(before, key@);
                    assert forall|k: Seq<char>| #[trigger]
                        lookup(self.entries@, k) == if k == key@ {
                            Some(value)
                        } else {
                            lookup(before, k)
                        } by {
                        lookup_after_push(before, entry, k);
                    }
                }
            },
        }
        assert(self@ =~= old(self)@.insert(key@, value));
    }
}

impl<V: Copy> Table<V> {
    /// Files all values of `other` as well, in place of what was under their names.
    pub fn merge(&mut self, other: &Table<V>)
        ensures
            final(self)@ == old(self)@.union_prefer_right(other@),
    {
        let ghost before = self@;
        for i in 0..other.entries.len()
            invariant
                forall|k: Seq<char>| #[trigger]
                    self@.contains_key(k) <==> before.contains_key(k) || is_filed(
                        other.entries@.take(i as int),
                        k,
                    ),
                forall|k: Seq<char>| #[trigger]
                    self@.contains_key(k) ==> self@[k] == if is_filed(
                        other.entries@.take(i as int),
                        k,
                    ) {
                        other@[k]
                    } else {
                        before[k]
                    },
        {
            proof {
                filed_one_more(other.entries@, i as int);
            }
            let key = other.entries[i].0.as_str();
            if let Some(v) = other.get(key) {
                self.insert(key, *v);
            } else {
                proof {
                    filed_is_mapped(other.entries@, i as int);
                }
            }
        }
        proof {
            assert(other.entries@.take(other.entries@.len() as int) =~= other.entries@);
            filed_iff_mapped(*other);
            assert(self@ =~= before.union_prefer_right(other@));
        }
    }

    /// The value under `key`, or `default` where there is none.
    pub fn get_or(&self, key: &str, default: V) -> (r: V)
        ensures
            r == value_or(self@, key@, default),
    {
        match self.position(key) {
            Some(i) => self.entries[i].1,
            None => default,
        }
    }
}

/// The value under `key`, or `default` where there is none.
pub open spec fn value_or<V>(map: Map<Seq<char>, V>, key: Seq<char>, default: V) -> V {
    if map.contains_key(key) {
        map[key]
    } else {
        default
    }
}

} // verus!
