//! A small map keyed by name, kept in the order of the names.
//!
//! The maps this library needs hold a handful of settings or drivers. A vector
//! sorted by name keeps every answer and every listing deterministic.

use vstd::prelude::*;
use crate::text;

verus! {

/// A map from names to values, in the order of the names.
#[derive(Debug, PartialEq, Eq)]
pub struct NameMap<V> {
    entries: Vec<(String, V)>,
}

/// The names of a sequence of entries.
pub open spec fn names_of<V>(entries: Seq<(String, V)>) -> Seq<Seq<char>> {
    entries.map_values(|e: (String, V)| e.0@)
}

/// Whether names are in order, and none occurs twice.
pub open spec fn in_order(names: Seq<Seq<char>>) -> bool {
    forall|i: int, j: int|
        0 <= i < j < names.len() ==> text::text_before(#[trigger] names[i], #[trigger] names[j])
}

/// In an ordered sequence a name has one place only.
proof fn place_is_unique(names: Seq<Seq<char>>, i: int, j: int)
    requires
        in_order(names),
        0 <= i < names.len(),
        0 <= j < names.len(),
        names[i] == names[j],
    ensures
        i == j,
{
    text::order_is_irreflexive(names[i]);
    if i < j {
        assert(text::text_before(names[i], names[j]));
    } else if j < i {
        assert(text::text_before(names[j], names[i]));
    }
}

/// A name that is not before `names[at]` and comes after all names before it
/// occurs nowhere else.
proof fn absent_elsewhere(names: Seq<Seq<char>>, key: Seq<char>, at: int)
    requires
        in_order(names),
        0 <= at <= names.len(),
        forall|i: int| 0 <= i < at ==> text::text_before(#[trigger] names[i], key),
        at < names.len() ==> !text::text_before(names[at], key),
    ensures
        forall|i: int| 0 <= i < names.len() && i != at ==> #[trigger] names[i] != key,
        at < names.len() && names[at] != key ==> forall|i: int|
            at <= i < names.len() ==> text::text_before(key, #[trigger] names[i]),
        at < names.len() && names[at] == key ==> forall|i: int|
            at < i < names.len() ==> text::text_before(key, #[trigger] names[i]),
{
    text::order_is_irreflexive(key);
    if at < names.len() {
        text::order_is_total(names[at], key);
        assert forall|i: int| at < i < names.len() implies text::text_before(
            key,
            #[trigger] names[i],
        ) by {
            assert(text::text_before(names[at], names[i]));
            if names[at] != key {
                text::order_is_transitive(key, names[at], names[i]);
            }
        }
    }
}

/// The map that a sequence of entries stands for.
pub open spec fn map_of<V>(entries: Seq<(String, V)>) -> Map<Seq<char>, V> {
    Map::new(
        |k: Seq<char>| names_of(entries).contains(k),
        |k: Seq<char>| entries[names_of(entries).index_of(k)].1,
    )
}

/// What the map holds under a name is what stands beside that name.
proof fn map_holds<V>(entries: Seq<(String, V)>, i: int)
    requires
        in_order(names_of(entries)),
        0 <= i < entries.len(),
    ensures
        map_of(entries).contains_key(entries[i].0@),
        map_of(entries)[entries[i].0@] == entries[i].1,
{
    let names = names_of(entries);
    assert(names[i] == entries[i].0@);
    assert(names.contains(names[i]));
    place_is_unique(names, i, names.index_of(names[i]));
}

/// A new value beside a name that is there already.
proof fn replacing<V>(before: Seq<(String, V)>, at: int, e: (String, V))
    requires
        in_order(names_of(before)),
        0 <= at < before.len(),
        before[at].0@ == e.0@,
    ensures
        in_order(names_of(before.update(at, e))),
        map_of(before.update(at, e)) == map_of(before).insert(e.0@, e.1),
{
    let after = before.update(at, e);
    assert(names_of(after) =~= names_of(before));
    let target = map_of(before).insert(e.0@, e.1);
    map_holds(before, at);
    assert forall|k: Seq<char>| map_of(after).contains_key(k) implies #[trigger] map_of(after)[k]
        == target[k] by {
        let i = names_of(after).index_of(k);
        assert(after[i].0@ == k);
        map_holds(before, i);
        if i != at && k == e.0@ {
            place_is_unique(names_of(before), i, at);
        }
    }
    assert(map_of(after) =~= target);
}

/// A new name between the ones before it and the ones after it.
proof fn inserting<V>(before: Seq<(String, V)>, at: int, e: (String, V))
    requires
        in_order(names_of(before)),
        0 <= at <= before.len(),
        forall|i: int| 0 <= i < at ==> text::text_before(#[trigger] names_of(before)[i], e.0@),
        forall|i: int|
            at <= i < before.len() ==> text::text_before(e.0@, #[trigger] names_of(before)[i]),
    ensures
        in_order(names_of(before.insert(at, e))),
        map_of(before.insert(at, e)) == map_of(before).insert(e.0@, e.1),
        !map_of(before).contains_key(e.0@),
{
    let after = before.insert(at, e);
    let names = names_of(before);
    let longer = names_of(after);
    assert(longer =~= names.insert(at, e.0@));
    assert forall|i: int, j: int| 0 <= i < j < longer.len() implies text::text_before(
        #[trigger] longer[i],
        #[trigger] longer[j],
    ) by {
        if i < at {
            assert(longer[i] == names[i]);
        } else if i > at {
            assert(longer[i] == names[i - 1]);
        }
        if j < at {
            assert(longer[j] == names[j]);
        } else if j > at {
            assert(longer[j] == names[j - 1]);
        }
    }
    text::order_is_irreflexive(e.0@);
    let target = map_of(before).insert(e.0@, e.1);
    map_holds(after, at);
    assert forall|k: Seq<char>| map_of(after).contains_key(k) == target.contains_key(k) by {
        if longer.contains(k) {
            let i = longer.index_of(k);
            if i < at {
                assert(names[i] == k);
            } else if i > at {
                assert(names[i - 1] == k);
            }
        }
        if names.contains(k) {
            let i = names.index_of(k);
            if i < at {
                assert(longer[i] == k);
            } else {
                assert(longer[i + 1] == k);
            }
        }
    }
    assert forall|k: Seq<char>| map_of(after).contains_key(k) implies #[trigger] map_of(after)[k]
        == target[k] by {
        let i = longer.index_of(k);
        map_holds(after, i);
        if i < at {
            map_holds(before, i);
        } else if i > at {
            map_holds(before, i - 1);
        }
    }
    assert(map_of(after) =~= target);
}

impl<V> View for NameMap<V> {
    type V = Map<Seq<char>, V>;

    closed spec fn view(&self) -> Map<Seq<char>, V> {
        map_of(self.entries@)
    }
}

impl<V> NameMap<V> {
    #[verifier::type_invariant]
    closed spec fn inv(self) -> bool {
        in_order(names_of(self.entries@))
    }

    /// The names, in order.
    pub closed spec fn names(&self) -> Seq<Seq<char>> {
        names_of(self.entries@)
    }

    /// The value that goes with each name, in the order of the names.
    pub closed spec fn values(&self) -> Seq<V> {
        self.entries@.map_values(|e: (String, V)| e.1)
    }

    /// The listing and the map say the same.
    pub open spec fn listed(&self) -> bool {
        &&& in_order(self.names())
        &&& self.values().len() == self.names().len()
        &&& self@.dom().finite()
        &&& self@.len() == self.names().len()
        &&& forall|k: Seq<char>| self@.contains_key(k) <==> self.names().contains(k)
        &&& forall|i: int|
            0 <= i < self.names().len() ==> self@[#[trigger] self.names()[i]] == self.values()[i]
    }

    proof fn listing(&self)
        requires
            self.inv(),
        ensures
            self.listed(),
    {
        let names = self.names();
        assert forall|i: int| 0 <= i < names.len() implies self@[#[trigger] names[i]]
            == self.values()[i] by {
            map_holds(self.entries@, i);
        }
        assert(names.no_duplicates()) by {
            assert forall|i: int, j: int|
                0 <= i < names.len() && 0 <= j < names.len() && i != j implies names[i]
                != names[j] by {
                if names[i] == names[j] {
                    place_is_unique(names, i, j);
                }
            }
        }
        names.unique_seq_to_set();
        assert(self@.dom() =~= names.to_set());
        vstd::seq_lib::seq_to_set_is_finite(names);
    }

    /// A map without entries.
    pub fn new() -> (r: Self)
        ensures
            r@ == Map::<Seq<char>, V>::empty(),
            r.names().len() == 0,
    {
        let r = NameMap { entries: Vec::new() };
        assert(r@ =~= Map::<Seq<char>, V>::empty());
        r
    }

    pub fn len(&self) -> (r: usize)
        ensures
            r == self.names().len(),
            self.listed(),
    {
        proof {
            use_type_invariant(self);
            self.listing();
        }
        self.entries.len()
    }

    /// Where `key` stands, or would have to stand.
    fn place(entries: &Vec<(String, V)>, key: &str) -> (at: usize)
        requires
            in_order(names_of(entries@)),
        ensures
            at <= entries@.len(),
            forall|i: int|
                0 <= i < at ==> text::text_before(#[trigger] names_of(entries@)[i], key@),
            at < entries@.len() ==> !text::text_before(names_of(entries@)[at as int], key@),
    {
        let mut at: usize = 0;
        let ghost names = names_of(entries@);
        while at < entries.len() && text::sorts_before(&entries[at].0, key)
            invariant
                at <= entries@.len(),
                names == names_of(entries@),
                forall|i: int| 0 <= i < at ==> text::text_before(#[trigger] names[i], key@),
            decreases entries@.len() - at,
        {
            at = at + 1;
        }
        at
    }

    /// The value that goes with `key`.
    pub fn get(&self, key: &str) -> (r: Option<&V>)
        ensures
            match r {
                Some(v) => self@.contains_key(key@) && *v == self@[key@],
                None => !self@.contains_key(key@),
            },
    {
        proof {
            use_type_invariant(self);
            self.listing();
        }
        let at = Self::place(&self.entries, key);
        proof {
            absent_elsewhere(self.names(), key@, at as int);
        }
        if at < self.entries.len() && text::same_text(&self.entries[at].0, key) {
            assert(self.names()[at as int] == key@);
            Some(&self.entries[at].1)
        } else {
            None
        }
    }

    /// Put `value` under `key`, and hand back what was there.
    pub fn insert(&mut self, key: String, value: V) -> (r: Option<V>)
        ensures
            final(self)@ == old(self)@.insert(key@, value),
            r == if old(self)@.contains_key(key@) {
                Some(old(self)@[key@])
            } else {
                None
            },
    {
        proof {
            use_type_invariant(&*self);
        }
        let mut entries: Vec<(String, V)> = Vec::new();
        std::mem::swap(&mut self.entries, &mut entries);
        let ghost before = entries@;
        let at = Self::place(&entries, &key);
        proof {
            absent_elsewhere(names_of(before), key@, at as int);
        }
        let displaced = if at < entries.len() && text::same_text(&entries[at].0, &key) {
            let ghost entry = (key, value);
            let (_, v) = entries.remove(at);
            entries.insert(at, (key, value));
            proof {
                map_holds(before, at as int);
                replacing(before, at as int, entry);
                assert(entries@ =~= before.update(at as int, entry));
            }
            Some(v)
        } else {
            let ghost entry = (key, value);
            proof {
                if at < before.len() {
                    assert(names_of(before)[at as int] == before[at as int].0@);
                }
                inserting(before, at as int, entry);
            }
            entries.insert(at, (key, value));
            None
        };
        self.entries = entries;
        displaced
    }

    /// The entry at a place in the order of the names.
    pub fn entry(&self, i: usize) -> (r: (&str, &V))
        requires
            i < self.names().len(),
        ensures
            r.0@ == self.names()[i as int],
            *r.1 == self.values()[i as int],
    {
        (self.entries[i].0.as_str(), &self.entries[i].1)
    }
}

} // verus!
