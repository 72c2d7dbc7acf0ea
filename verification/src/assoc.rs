//! A small map that keeps its entries in the order in which their keys first
//! came: a vector of pairs in which no key occurs twice.
use crate::address::SocketAddress;
use vstd::prelude::*;

verus! {

/// What a key of an `AssocMap` needs: an identity, and a test for it.
pub trait MapKey: Sized {
    /// What two keys have in common when they are the same key.
    type Id;

    spec fn id(&self) -> Self::Id;

    fn same_key(&self, other: &Self) -> (r: bool)
        ensures
            r == (self.id() == other.id()),
    ;
}

impl MapKey for String {
    type Id = Seq<char>;

    open spec fn id(&self) -> Seq<char> {
        self@
    }

    fn same_key(&self, other: &Self) -> (r: bool) {
        *self == *other
    }
}

impl MapKey for SocketAddress {
    type Id = SocketAddress;

    open spec fn id(&self) -> SocketAddress {
        *self
    }

    fn same_key(&self, other: &Self) -> (r: bool) {
        *self == *other
    }
}

/// The identities of the keys of `entries`, in order.
pub open spec fn ids<K: MapKey, V>(entries: Seq<(K, V)>) -> Seq<K::Id> {
    Seq::new(entries.len(), |i: int| entries[i].0.id())
}

/// No key occurs twice in `entries`.
pub open spec fn distinct<K: MapKey, V>(entries: Seq<(K, V)>) -> bool {
    forall|i: int, j: int|
        0 <= i < j < entries.len() ==> (#[trigger] entries[i]).0.id() != (
        #[trigger] entries[j]).0.id()
}

/// Whether `entries` hold a key with the identity `id`.
pub open spec fn has_key<K: MapKey, V>(entries: Seq<(K, V)>, id: K::Id) -> bool {
    exists|i: int| 0 <= i < entries.len() && (#[trigger] entries[i]).0.id() == id
}

/// A place at which `entries` hold a key with the identity `id`.
pub open spec fn slot<K: MapKey, V>(entries: Seq<(K, V)>, id: K::Id) -> int {
    choose|i: int| 0 <= i < entries.len() && (#[trigger] entries[i]).0.id() == id
}

/// The map from each key of `entries` to its value.
pub open spec fn map_of<K: MapKey, V>(entries: Seq<(K, V)>) -> Map<K::Id, V> {
    Map::new(|id: K::Id| has_key(entries, id), |id: K::Id| entries[slot(entries, id)].1)
}

/// In entries without a repeated key, the entry at `i` is the one that the map has for its key.
pub proof fn lemma_map_of_at<K: MapKey, V>(entries: Seq<(K, V)>, i: int)
    requires
        distinct(entries),
        0 <= i < entries.len(),
    ensures
        map_of(entries).contains_key(entries[i].0.id()),
        map_of(entries)[entries[i].0.id()] == entries[i].1,
        slot(entries, entries[i].0.id()) == i,
{
    let id = entries[i].0.id();
    let j = slot(entries, id);
    assert(0 <= j < entries.len() && entries[j].0.id() == id);
    if i < j {
        assert(entries[i].0.id() != entries[j].0.id());
    } else if j < i {
        assert(entries[j].0.id() != entries[i].0.id());
    }
}

/// What order and map have to do with each other: the order holds each key of
/// the map once and nothing else.
pub open spec fn consistent<I, V>(order: Seq<I>, map: Map<I, V>) -> bool {
    &&& order.no_duplicates()
    &&& forall|id: I| map.contains_key(id) <==> order.contains(id)
}

proof fn lemma_consistent<K: MapKey, V>(entries: Seq<(K, V)>)
    requires
        distinct(entries),
    ensures
        consistent(ids(entries), map_of(entries)),
{
    let order = ids(entries);
    assert forall|i: int, j: int| 0 <= i < order.len() && 0 <= j < order.len() && i != j implies order[i]
        != order[j] by {
        if i < j {
            assert(entries[i].0.id() != entries[j].0.id());
        } else {
            assert(entries[j].0.id() != entries[i].0.id());
        }
    }
    assert forall|id: K::Id| map_of(entries).contains_key(id) <==> order.contains(id) by {
        if map_of(entries).contains_key(id) {
            let i = slot(entries, id);
            assert(order[i] == id);
        }
        if order.contains(id) {
            let i = choose|i: int| 0 <= i < order.len() && order[i] == id;
            assert(entries[i].0.id() == id);
        }
    }
}

/// The order of the keys after `id` was given a value in the map `m` with
/// the order `order`: a key that the map did not hold comes last.
pub open spec fn order_with<I, V>(order: Seq<I>, m: Map<I, V>, id: I) -> Seq<I> {
    if m.contains_key(id) {
        order
    } else {
        order.push(id)
    }
}

/// The order of the keys after `id` was taken out of the map `m` with the
/// order `order`.
pub open spec fn order_without<I, V>(order: Seq<I>, m: Map<I, V>, id: I) -> Seq<I> {
    if m.contains_key(id) {
        order.remove(order.index_of(id))
    } else {
        order
    }
}

/// The map `m` with each value replaced by its view.
pub open spec fn value_views<I, V: View>(m: Map<I, V>) -> Map<I, V::V> {
    Map::new(|id: I| m.contains_key(id), |id: I| m[id]@)
}

/// A map from keys to values that remembers the order in which the keys came.
pub struct AssocMap<K: MapKey, V> {
    entries: Vec<(K, V)>,
}

impl<K: MapKey, V> View for AssocMap<K, V> {
    type V = Map<K::Id, V>;

    closed spec fn view(&self) -> Map<K::Id, V> {
        map_of(self.entries@)
    }
}

impl<K: MapKey, V> AssocMap<K, V> {
    #[verifier::type_invariant]
    spec fn no_key_twice(self) -> bool {
        distinct(self.entries@)
    }

    /// The keys of the map, in the order in which they came.
    pub closed spec fn order(&self) -> Seq<K::Id> {
        ids(self.entries@)
    }

    /// The values of the map, in the order of their keys.
    pub open spec fn values(&self) -> Seq<V> {
        Seq::new(self.order().len(), |i: int| self@[self.order()[i]])
    }

    /// An empty map.
    pub fn new() -> (m: Self)
        ensures
            m@ == Map::<K::Id, V>::empty(),
            m.order() == Seq::<K::Id>::empty(),
    {
        let m = AssocMap { entries: Vec::new() };
        assert(m@ =~= Map::<K::Id, V>::empty());
        assert(m.order() =~= Seq::<K::Id>::empty());
        m
    }

    /// How many entries the map holds.
    pub fn len(&self) -> (n: usize)
        ensures
            n == self.order().len(),
            consistent(self.order(), self@),
    {
        proof {
            use_type_invariant(self);
            lemma_consistent(self.entries@);
        }
        self.entries.len()
    }

    /// Whether the map holds nothing.
    pub fn is_empty(&self) -> (r: bool)
        ensures
            r == (self.order().len() == 0),
            r == (self@ == Map::<K::Id, V>::empty()),
            consistent(self.order(), self@),
    {
        proof {
            use_type_invariant(self);
            lemma_consistent(self.entries@);
            if self.entries.len() == 0 {
                assert(self@ =~= Map::<K::Id, V>::empty());
            } else {
                lemma_map_of_at(self.entries@, 0);
            }
        }
        self.entries.len() == 0
    }

    /// Where `key` stands in the order, if the map holds it.
    pub fn position(&self, key: &K) -> (r: Option<usize>)
        ensures
            r is Some <==> self@.contains_key(key.id()),
            r matches Some(i) ==> i < self.order().len() && self.order()[i as int] == key.id(),
    {
        let mut i: usize = 0;
        while i < self.entries.len()
            invariant
                i <= self.entries.len(),
                forall|j: int| 0 <= j < i ==> (#[trigger] self.entries@[j]).0.id() != key.id(),
            decreases self.entries.len() - i,
        {
            if self.entries[i].0.same_key(key) {
                proof {
                    use_type_invariant(self);
                    lemma_map_of_at(self.entries@, i as int);
                }
                return Some(i);
            }
            i += 1;
        }
        None
    }

    /// Whether the map holds `key`.
    pub fn contains_key(&self, key: &K) -> (r: bool)
        ensures
            r == self@.contains_key(key.id()),
    {
        self.position(key).is_some()
    }

    /// The value of `key`, if the map holds it.
    pub fn get(&self, key: &K) -> (r: Option<&V>)
        ensures
            r is Some <==> self@.contains_key(key.id()),
            r matches Some(v) ==> *v == self@[key.id()],
    {
        match self.position(key) {
            Some(i) => {
                proof {
                    use_type_invariant(self);
                    lemma_map_of_at(self.entries@, i as int);
                }
                Some(&self.entries[i].1)
            },
            None => None,
        }
    }

    /// The key at place `i` of the order.
    pub fn key_at(&self, i: usize) -> (k: &K)
        requires
            i < self.order().len(),
        ensures
            k.id() == self.order()[i as int],
    {
        &self.entries[i].0
    }

    /// The value of the key at place `i` of the order.
    pub fn value_at(&self, i: usize) -> (v: &V)
        requires
            i < self.order().len(),
        ensures
            self@.contains_key(self.order()[i as int]),
            *v == self@[self.order()[i as int]],
            *v == self.values()[i as int],
    {
        proof {
            use_type_invariant(self);
            lemma_map_of_at(self.entries@, i as int);
        }
        &self.entries[i].1
    }

    /// Gives `key` the value `value`. A key that the map did not hold comes
    /// last in the order; one that it held keeps its place. Returns the value
    /// that the key had.
    pub fn insert(&mut self, key: K, value: V) -> (previous: Option<V>)
        ensures
            final(self)@ == old(self)@.insert(key.id(), value),
            previous == (if old(self)@.contains_key(key.id()) {
                Some(old(self)@[key.id()])
            } else {
                None
            }),
            final(self).order() == order_with(old(self).order(), old(self)@, key.id()),
            consistent(final(self).order(), final(self)@),
    {
        proof {
            use_type_invariant(&*self);
        }
        let ghost before = self.entries@;
        let ghost id = key.id();
        match self.position(&key) {
            Some(i) => {
                let mut entries: Vec<(K, V)> = Vec::new();
                std::mem::swap(&mut self.entries, &mut entries);
                let pair = entries.remove(i);
                proof {
                    lemma_map_of_at(before, i as int);
                }
                entries.insert(i, (key, value));
                let ghost after = entries@;
                proof {
                    assert(ids(after) =~= ids(before));
                    assert forall|a: int, b: int| 0 <= a < b < after.len() implies (
                    #[trigger] after[a]).0.id() != (#[trigger] after[b]).0.id() by {
                        assert(ids(after)[a] == ids(before)[a]);
                        assert(ids(after)[b] == ids(before)[b]);
                        assert(before[a].0.id() != before[b].0.id());
                    }
                    assert forall|x: K::Id| has_key(after, x) <==> has_key(before, x) by {
                        if has_key(after, x) {
                            let k = slot(after, x);
                            assert(ids(after)[k] == ids(before)[k]);
                            assert(before[k].0.id() == x);
                        }
                        if has_key(before, x) {
                            let k = slot(before, x);
                            assert(ids(after)[k] == ids(before)[k]);
                            assert(after[k].0.id() == x);
                        }
                    }
                    assert forall|x: K::Id| has_key(after, x) implies #[trigger] map_of(after)[x]
                        == map_of(before).insert(id, value)[x] by {
                        let k = slot(after, x);
                        lemma_map_of_at(after, k);
                        assert(ids(after)[k] == ids(before)[k]);
                        lemma_map_of_at(before, k);
                        if k == i as int {
                        } else {
                            assert(after[k] == before[k]);
                        }
                    }
                    assert(map_of(after) =~= map_of(before).insert(id, value));
                    lemma_consistent(after);
                }
                std::mem::swap(&mut self.entries, &mut entries);
                Some(pair.1)
            },
            None => {
                let mut entries: Vec<(K, V)> = Vec::new();
                std::mem::swap(&mut self.entries, &mut entries);
                entries.push((key, value));
                let ghost after = entries@;
                proof {
                    assert(ids(after) =~= ids(before).push(id));
                    assert forall|a: int, b: int| 0 <= a < b < after.len() implies (
                    #[trigger] after[a]).0.id() != (#[trigger] after[b]).0.id() by {
                        assert(after[a] == before[a]);
                        if b < before.len() {
                            assert(after[b] == before[b]);
                        }
                    }
                    assert forall|x: K::Id| has_key(after, x) <==> (has_key(before, x) || x
                        == id) by {
                        if has_key(after, x) {
                            let k = slot(after, x);
                            if k < before.len() {
                                assert(before[k].0.id() == x);
                            }
                        }
                        if has_key(before, x) {
                            let k = slot(before, x);
                            assert(after[k].0.id() == x);
                        }
                        if x == id {
                            assert(after[before.len() as int].0.id() == x);
                        }
                    }
                    assert forall|x: K::Id| has_key(after, x) implies #[trigger] map_of(after)[x]
                        == map_of(before).insert(id, value)[x] by {
                        let k = slot(after, x);
                        lemma_map_of_at(after, k);
                        if k < before.len() {
                            assert(after[k] == before[k]);
                            lemma_map_of_at(before, k);
                        }
                    }
                    assert(map_of(after) =~= map_of(before).insert(id, value));
                    lemma_consistent(after);
                }
                std::mem::swap(&mut self.entries, &mut entries);
                None
            },
        }
    }

    /// Takes `key` and its value out of the map. Returns the value that the key had.
    pub fn remove(&mut self, key: &K) -> (previous: Option<V>)
        ensures
            final(self)@ == old(self)@.remove(key.id()),
            previous == (if old(self)@.contains_key(key.id()) {
                Some(old(self)@[key.id()])
            } else {
                None
            }),
            final(self).order() == order_without(old(self).order(), old(self)@, key.id()),
            consistent(final(self).order(), final(self)@),
    {
        proof {
            use_type_invariant(&*self);
            lemma_consistent(self.entries@);
        }
        let ghost before = self.entries@;
        let ghost id = key.id();
        match self.position(key) {
            Some(i) => {
                let mut entries: Vec<(K, V)> = Vec::new();
                std::mem::swap(&mut self.entries, &mut entries);
                let pair = entries.remove(i);
                let ghost after = entries@;
                proof {
                    lemma_map_of_at(before, i as int);
                    let at = ids(before).index_of(id);
                    assert(ids(before)[i as int] == id);
                    assert(0 <= at < before.len() && ids(before)[at] == id);
                    assert(at == i);
                    assert(ids(after) =~= ids(before).remove(i as int));
                    assert forall|a: int, b: int| 0 <= a < b < after.len() implies (
                    #[trigger] after[a]).0.id() != (#[trigger] after[b]).0.id() by {
                        let a0 = if a < i { a } else { a + 1 };
                        let b0 = if b < i { b } else { b + 1 };
                        assert(after[a] == before[a0]);
                        assert(after[b] == before[b0]);
                        assert(before[a0].0.id() != before[b0].0.id());
                    }
                    assert forall|x: K::Id| has_key(after, x) <==> (has_key(before, x) && x
                        != id) by {
                        if has_key(after, x) {
                            let k = slot(after, x);
                            let k0 = if k < i { k } else { k + 1 };
                            assert(after[k] == before[k0]);
                            assert(before[k0].0.id() == x);
                            if x == id {
                                lemma_map_of_at(before, k0);
                            }
                        }
                        if has_key(before, x) && x != id {
                            let k = slot(before, x);
                            let k1 = if k < i { k } else { k - 1 };
                            assert(after[k1] == before[k]);
                        }
                    }
                    assert forall|x: K::Id| has_key(after, x) implies #[trigger] map_of(after)[x]
                        == map_of(before).remove(id)[x] by {
                        let k = slot(after, x);
                        let k0 = if k < i { k } else { k + 1 };
                        lemma_map_of_at(after, k);
                        assert(after[k] == before[k0]);
                        lemma_map_of_at(before, k0);
                    }
                    assert(map_of(after) =~= map_of(before).remove(id));
                    lemma_consistent(after);
                }
                std::mem::swap(&mut self.entries, &mut entries);
                Some(pair.1)
            },
            None => {
                assert(self@ =~= old(self)@.remove(id));
                None
            },
        }
    }
}

} // verus!
