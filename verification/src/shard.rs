//! One lock-sized partition of the correlation registry: a map from call
//! identifier to pending value, stored in an Fx-hashed `HashMap`.

use fxhash::FxHashMap;
use vstd::prelude::*;

verus! {

/// `fxhash::FxHasher`, the hasher state behind [`FxHashMap`]. Opaque: nothing
/// is claimed about its contents.
#[verifier::external_type_specification]
#[verifier::external_body]
pub struct ExFxHasher(fxhash::FxHasher);

/// `std::hash::BuildHasherDefault`, the hasher factory that `FxHashMap` names
/// as its third parameter. Opaque: nothing is claimed about its contents.
#[verifier::external_type_specification]
#[verifier::external_body]
#[verifier::reject_recursive_types(H)]
pub struct ExBuildHasherDefault<H>(std::hash::BuildHasherDefault<H>);

/// `items` lists every entry of `m` exactly once, in some order.
pub open spec fn enumerates<T>(items: Seq<(i32, T)>, m: Map<i32, T>) -> bool {
    &&& forall|i: int| 0 <= i < items.len() ==> m.contains_pair((#[trigger] items[i]).0, items[i].1)
    &&& forall|i: int, j: int|
        0 <= i < j < items.len() ==> (#[trigger] items[i]).0 != (#[trigger] items[j]).0
    &&& forall|k: i32| #[trigger]
        m.contains_key(k) ==> exists|i: int| 0 <= i < items.len() && (#[trigger] items[i]).0 == k
}

/// A listing has one item for each entry of the map, so the map is finite
/// and has as many entries as the listing has items.
pub proof fn lemma_enumerates_len<T>(items: Seq<(i32, T)>, m: Map<i32, T>)
    requires
        enumerates(items, m),
    ensures
        m.dom().finite(),
        m.dom().len() == items.len(),
{
    let keys = items.map_values(|p: (i32, T)| p.0);
    assert forall|i: int, j: int| 0 <= i < keys.len() && 0 <= j < keys.len() && i != j implies keys[i]
        != keys[j] by {
        if i < j {
            assert(items[i].0 != items[j].0);
        } else {
            assert(items[j].0 != items[i].0);
        }
    }
    assert forall|k: i32| keys.to_set().contains(k) <==> m.dom().contains(k) by {
        if keys.to_set().contains(k) {
            let i = choose|i: int| 0 <= i < keys.len() && keys[i] == k;
            assert(m.contains_pair(items[i].0, items[i].1));
        }
        if m.contains_key(k) {
            let i = choose|i: int| 0 <= i < items.len() && (#[trigger] items[i]).0 == k;
            assert(keys[i] == k);
        }
    }
    assert(keys.to_set() =~= m.dom());
    keys.unique_seq_to_set();
    vstd::seq_lib::seq_to_set_is_finite(keys);
}

/// `HashMap::insert` on an Fx-hashed map with `i32` keys.
///
/// Claims the documented behaviour of `insert`: afterwards the map holds
/// `value` under `key` and is otherwise unchanged, and the result is the value
/// that `key` held before, if any. This rests on `FxHasher` hashing equal
/// keys equally, which its source shows: it starts from a fixed state and has
/// no per-process seed.
#[verifier::external_body]
fn map_insert<T>(m: &mut FxHashMap<i32, T>, key: i32, value: T) -> (prev: Option<T>)
    ensures
        final(m)@ == old(m)@.insert(key, value),
        prev == old(m)@.get(key),
{
    m.insert(key, value)
}

/// `HashMap::remove` on an Fx-hashed map with `i32` keys.
///
/// Claims the documented behaviour of `remove`: afterwards `key` is absent
/// and the map is otherwise unchanged, and the result is the value that `key`
/// held before, if any.
#[verifier::external_body]
fn map_remove<T>(m: &mut FxHashMap<i32, T>, key: &i32) -> (taken: Option<T>)
    ensures
        final(m)@ == old(m)@.remove(*key),
        taken == old(m)@.get(*key),
{
    m.remove(key)
}

/// `HashMap::drain` on an Fx-hashed map with `i32` keys, collected into a
/// vector.
///
/// Claims the documented behaviour of `drain`: the map is left empty and the
/// iterator yields all of its key-value pairs. The order in which they come
/// is left open.
#[verifier::external_body]
fn map_drain<T>(m: &mut FxHashMap<i32, T>) -> (items: Vec<(i32, T)>)
    ensures
        final(m)@.dom() == Set::<i32>::empty(),
        enumerates(items@, old(m)@),
{
    m.drain().collect()
}

/// One partition of a registry: pending values keyed by call identifier.
pub struct Shard<T> {
    entries: FxHashMap<i32, T>,
}

impl<T> View for Shard<T> {
    type V = Map<i32, T>;

    closed spec fn view(&self) -> Map<i32, T> {
        self.entries@
    }
}

impl<T> Shard<T> {
    /// An empty partition.
    pub fn new() -> (shard: Self)
        ensures
            shard@ == Map::<i32, T>::empty(),
    {
        Shard { entries: Default::default() }
    }

    /// Stores `value` under `key` and returns the value it displaces, if any.
    pub fn insert(&mut self, key: i32, value: T) -> (prev: Option<T>)
        ensures
            final(self)@ == old(self)@.insert(key, value),
            prev == old(self)@.get(key),
    {
        map_insert(&mut self.entries, key, value)
    }

    /// Takes out the value stored under `key`, if any.
    pub fn remove(&mut self, key: &i32) -> (taken: Option<T>)
        ensures
            final(self)@ == old(self)@.remove(*key),
            taken == old(self)@.get(*key),
    {
        map_remove(&mut self.entries, key)
    }

    /// Whether the partition holds no entry.
    pub fn is_empty(&self) -> (empty: bool)
        ensures
            empty <==> self@ == Map::<i32, T>::empty(),
    {
        let empty = self.entries.is_empty();
        proof {
            if empty {
                assert(self@ =~= Map::<i32, T>::empty());
            }
        }
        empty
    }

    /// Takes out every entry, leaving the partition empty. The order of the
    /// result is unspecified.
    pub fn drain(&mut self) -> (items: Vec<(i32, T)>)
        ensures
            final(self)@ == Map::<i32, T>::empty(),
            enumerates(items@, old(self)@),
    {
        let items = map_drain(&mut self.entries);
        proof {
            assert(self@ =~= Map::<i32, T>::empty());
        }
        items
    }
}

} // verus!
