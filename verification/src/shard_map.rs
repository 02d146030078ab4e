//! Directories keyed by shard identifier, kept in ascending key order.

use crate::shard::ShardId;
use vstd::prelude::*;

verus! {

/// Whether `keys` are in strictly ascending order, which leaves no key twice.
pub open spec fn ascending(keys: Seq<ShardId>) -> bool {
    forall|i: int, j: int| 0 <= i < j < keys.len() ==> (#[trigger] keys[i]).before(#[trigger] keys[j])
}

/// Finds the first place in `keys` whose key is not before `key`.
fn lower_bound(keys: &Vec<ShardId>, key: &ShardId) -> (at: usize)
    requires
        ascending(keys@),
    ensures
        at <= keys@.len(),
        forall|i: int| 0 <= i < at ==> (#[trigger] keys@[i]).before(*key),
        forall|i: int| at <= i < keys@.len() ==> !(#[trigger] keys@[i]).before(*key),
{
    let mut low: usize = 0;
    let mut high: usize = keys.len();
    while low < high
        invariant
            low <= high <= keys@.len(),
            ascending(keys@),
            forall|i: int| 0 <= i < low ==> (#[trigger] keys@[i]).before(*key),
            forall|i: int| high <= i < keys@.len() ==> !(#[trigger] keys@[i]).before(*key),
        decreases high - low,
    {
        let middle: usize = low + (high - low) / 2;
        if keys[middle].is_before(key) {
            low = middle + 1;
        } else {
            high = middle;
        }
    }
    low
}

/// A map from shard identifiers to values, walked in ascending key order.
#[derive(Debug)]
pub struct ShardMap<V> {
    keys: Vec<ShardId>,
    values: Vec<V>,
}

impl<V> View for ShardMap<V> {
    type V = Map<ShardId, V>;

    open spec fn view(&self) -> Map<ShardId, V> {
        Map::new(
            |key: ShardId| self.keys().contains(key),
            |key: ShardId| self.values()[self.keys().index_of(key)],
        )
    }
}

impl<V> ShardMap<V> {
    /// The keys, in the order in which the map is walked.
    pub closed spec fn keys(&self) -> Seq<ShardId> {
        self.keys@
    }

    /// The values, each at the place of its key.
    pub closed spec fn values(&self) -> Seq<V> {
        self.values@
    }

    /// What every map upholds: one value per key, and the keys ascending.
    #[verifier::type_invariant]
    pub closed spec fn well_formed(&self) -> bool {
        &&& self.keys@.len() == self.values@.len()
        &&& ascending(self.keys@)
    }

    /// How the walk of a map relates to the map itself.
    pub proof fn lemma_walk(&self)
        requires
            self.well_formed(),
        ensures
            self.keys().len() == self.values().len(),
            ascending(self.keys()),
            self.keys().no_duplicates(),
            self@.dom() == self.keys().to_set(),
            self@.dom().finite(),
            self@.dom().len() == self.keys().len(),
            forall|i: int|
                0 <= i < self.keys().len() ==> self@.dom().contains(#[trigger] self.keys()[i])
                    && self@[self.keys()[i]] == self.values()[i],
    {
        let keys = self.keys();
        assert(keys.no_duplicates()) by {
            assert forall|i: int, j: int| 0 <= i < keys.len() && 0 <= j < keys.len() && i != j implies keys[i]
                != keys[j] by {
                if i < j {
                    assert(keys[i].before(keys[j]));
                } else {
                    assert(keys[j].before(keys[i]));
                }
            }
        }
        assert(self@.dom() =~= keys.to_set());
        vstd::seq_lib::seq_to_set_is_finite(keys);
        keys.unique_seq_to_set();
        assert forall|i: int| 0 <= i < keys.len() implies self@.dom().contains(#[trigger] keys[i])
            && self@[keys[i]] == self.values()[i] by {
            assert(keys.contains(keys[i]));
            let found = keys.index_of(keys[i]);
            assert(keys[found] == keys[i]);
        }
    }

    /// Two maps that hold the same are walked alike.
    pub proof fn lemma_same_walk(&self, other: &ShardMap<V>)
        requires
            self.well_formed(),
            other.well_formed(),
            self@ == other@,
        ensures
            self.keys() == other.keys(),
            self.values() == other.values(),
    {
        self.lemma_walk();
        other.lemma_walk();
        lemma_ascending_same_set(self.keys(), other.keys());
        assert(self.values() =~= other.values()) by {
            assert forall|i: int| 0 <= i < self.values().len() implies self.values()[i]
                == other.values()[i] by {
                assert(self@[self.keys()[i]] == self.values()[i]);
                assert(other@[other.keys()[i]] == other.values()[i]);
            }
        }
    }

    pub fn new() -> (map: ShardMap<V>)
        ensures
            map@ == Map::<ShardId, V>::empty(),
            map.keys() == Seq::<ShardId>::empty(),
    {
        let map = ShardMap { keys: Vec::new(), values: Vec::new() };
        assert(map@ =~= Map::<ShardId, V>::empty());
        map
    }

    /// The number of keys.
    pub fn len(&self) -> (count: usize)
        ensures
            count == self@.dom().len(),
            count == self.keys().len(),
    {
        proof {
            use_type_invariant(self);
            self.lemma_walk();
        }
        self.keys.len()
    }

    /// The key at `index` of the walk.
    pub fn key_at(&self, index: usize) -> (key: ShardId)
        requires
            index < self.keys().len(),
        ensures
            key == self.keys()[index as int],
            self@.dom().contains(key),
    {
        proof {
            use_type_invariant(self);
            self.lemma_walk();
        }
        self.keys[index]
    }

    /// The value at `index` of the walk.
    pub fn value_at(&self, index: usize) -> (value: &V)
        requires
            index < self.keys().len(),
        ensures
            *value == self.values()[index as int],
            *value == self@[self.keys()[index as int]],
    {
        proof {
            use_type_invariant(self);
            self.lemma_walk();
        }
        &self.values[index]
    }

    /// The value under `key`, if there is one.
    pub fn get(&self, key: &ShardId) -> (value: Option<&V>)
        ensures
            value is Some <==> self@.dom().contains(*key),
            value matches Some(found) ==> *found == self@[*key],
    {
        proof {
            use_type_invariant(self);
            self.lemma_walk();
        }
        let at = lower_bound(&self.keys, key);
        if at < self.keys.len() && self.keys[at] == *key {
            Some(&self.values[at])
        } else {
            proof {
                if self.keys().contains(*key) {
                    let i = self.keys().index_of(*key);
                    assert(self.keys()[i] == *key);
                    if i < at {
                        assert(self.keys@[i].before(*key));
                    } else if i > at {
                        assert(self.keys@[at as int].before(self.keys@[i]));
                    }
                }
            }
            None
        }
    }

    pub fn contains_key(&self, key: &ShardId) -> (result: bool)
        ensures
            result == self@.dom().contains(*key),
    {
        self.get(key).is_some()
    }

    /// Puts `value` under `key`, in place of any value that was there.
    pub fn insert(&mut self, key: ShardId, value: V)
        ensures
            final(self)@ == old(self)@.insert(key, value),
    {
        proof {
            use_type_invariant(&*self);
            self.lemma_walk();
        }
        let mut taken = ShardMap { keys: Vec::new(), values: Vec::new() };
        std::mem::swap(self, &mut taken);
        let ShardMap { mut keys, mut values } = taken;
        let ghost old_keys = keys@;
        let ghost old_values = values@;
        let at = lower_bound(&keys, &key);
        if at < keys.len() && keys[at] == key {
            values.set(at, value);
        } else {
            keys.insert(at, key);
            values.insert(at, value);
            assert(ascending(keys@)) by {
                assert forall|i: int, j: int| 0 <= i < j < keys@.len() implies (#[trigger] keys@[i]).before(
                    #[trigger] keys@[j],
                ) by {
                    if j < at {
                        assert(keys@[i] == old_keys[i] && keys@[j] == old_keys[j]);
                    } else if j == at {
                        assert(keys@[i] == old_keys[i]);
                    } else if i < at {
                        assert(keys@[i] == old_keys[i] && keys@[j] == old_keys[j - 1]);
                        assert(old_keys[i].before(key));
                        assert(!old_keys[j - 1].before(key));
                    } else if i == at {
                        assert(keys@[j] == old_keys[j - 1]);
                        assert(!old_keys[j - 1].before(key));
                        assert(old_keys[j - 1] != key) by {
                            if j - 1 > at {
                                assert(old_keys[at as int].before(old_keys[j - 1]));
                            }
                        }
                    } else {
                        assert(keys@[i] == old_keys[i - 1] && keys@[j] == old_keys[j - 1]);
                    }
                }
            }
        }
        *self = ShardMap { keys, values };
        proof {
            self.lemma_walk();
            let before = old(self)@;
            let after = self@;
            assert(after =~= before.insert(key, value)) by {
                assert forall|k: ShardId| after.dom().contains(k) <==> before.insert(
                    key,
                    value,
                ).dom().contains(k) by {
                    if after.dom().contains(k) {
                        let i = self.keys().index_of(k);
                        assert(self.keys()[i] == k);
                        if k != key {
                            if self.keys().len() == old_keys.len() {
                                assert(old_keys[i] == k);
                            } else if i < at {
                                assert(old_keys[i] == k);
                            } else {
                                assert(old_keys[i - 1] == k);
                            }
                            assert(old_keys.contains(k));
                        }
                    }
                    if before.insert(key, value).dom().contains(k) {
                        if k == key {
                            assert(self.keys()[at as int] == key);
                        } else {
                            let i = old_keys.index_of(k);
                            assert(old_keys[i] == k);
                            if self.keys().len() == old_keys.len() {
                                assert(self.keys()[i] == k);
                            } else if i < at {
                                assert(self.keys()[i] == k);
                            } else {
                                assert(self.keys()[i + 1] == k);
                            }
                        }
                    }
                }
                assert forall|k: ShardId| after.dom().contains(k) implies after[k] == before.insert(
                    key,
                    value,
                )[k] by {
                    let i = self.keys().index_of(k);
                    assert(self.keys()[i] == k);
                    assert(after[self.keys()[i]] == self.values()[i]);
                    if k == key {
                        assert(self.keys()[at as int] == key);
                        assert(i == at);
                    } else {
                        let j = old_keys.index_of(k);
                        assert(old_keys.contains(k));
                        assert(old_keys[j] == k);
                        assert(before[old_keys[j]] == old_values[j]);
                        if self.keys().len() == old_keys.len() {
                            assert(self.keys()[j] == k);
                            assert(i == j);
                        } else if j < at {
                            assert(self.keys()[j] == k);
                            assert(i == j);
                        } else {
                            assert(self.keys()[j + 1] == k);
                            assert(i == j + 1);
                        }
                    }
                }
            }
        }
    }

    /// Empties the map.
    pub fn clear(&mut self)
        ensures
            final(self)@ == Map::<ShardId, V>::empty(),
            final(self).keys() == Seq::<ShardId>::empty(),
    {
        *self = ShardMap { keys: Vec::new(), values: Vec::new() };
        assert(self@ =~= Map::<ShardId, V>::empty());
    }
}

/// Two ascending runs of keys with the same members are the same run.
pub proof fn lemma_ascending_same_set(a: Seq<ShardId>, b: Seq<ShardId>)
    requires
        ascending(a),
        ascending(b),
        a.to_set() == b.to_set(),
    ensures
        a == b,
    decreases a.len(),
{
    if a.len() == 0 {
        if b.len() > 0 {
            assert(b.contains(b[0]));
            assert(b.to_set().contains(b[0]));
            assert(a.contains(b[0]));
        }
        assert(a =~= b);
    } else {
        let top = a.last();
        assert(a.contains(top));
        assert(a.to_set().contains(top));
        assert(b.contains(top));
        let at = b.index_of(top);
        assert(b[at] == top);
        if at < b.len() - 1 {
            let above = b.last();
            assert(b[at].before(above));
            assert(b.contains(above));
            assert(b.to_set().contains(above));
            assert(a.contains(above));
            let back = a.index_of(above);
            assert(a[back] == above);
            if back < a.len() - 1 {
                assert(a[back].before(a[a.len() - 1]));
            }
        }
        let a_rest = a.drop_last();
        let b_rest = b.drop_last();
        assert(a_rest.to_set() =~= b_rest.to_set()) by {
            assert forall|k: ShardId| a_rest.to_set().contains(k) <==> b_rest.to_set().contains(k) by {
                if a_rest.contains(k) {
                    let i = a_rest.index_of(k);
                    assert(a_rest[i] == k);
                    assert(a[i] == k);
                    assert(a[i].before(top));
                    assert(a.contains(k));
                    assert(a.to_set().contains(k));
                    assert(b.contains(k));
                    let j = b.index_of(k);
                    assert(b[j] == k);
                    assert(b_rest[j] == k);
                }
                if b_rest.contains(k) {
                    let j = b_rest.index_of(k);
                    assert(b_rest[j] == k);
                    assert(b[j] == k);
                    assert(b[j].before(top));
                    assert(b.contains(k));
                    assert(b.to_set().contains(k));
                    assert(a.contains(k));
                    let i = a.index_of(k);
                    assert(a[i] == k);
                    assert(a_rest[i] == k);
                }
            }
        }
        lemma_ascending_same_set(a_rest, b_rest);
        assert(a =~= a_rest.push(top));
        assert(b =~= b_rest.push(top));
    }
}

} // verus!
