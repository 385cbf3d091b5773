//! Sharded correlation registry keyed by call identifier.

use crate::shard::{enumerates, lemma_enumerates_len, Shard};
use vstd::prelude::*;

verus! {

/// Number of independent partitions of a registry.
pub const SHARD_COUNT: i32 = 64;

/// The partition that owns `key`: the least non-negative residue of `key`
/// modulo the shard count.
pub open spec fn shard_of(key: i32) -> int {
    (key as int) % (SHARD_COUNT as int)
}

/// Computes the partition that owns `key`.
pub fn shard_index(key: i32) -> (idx: usize)
    ensures
        idx as int == shard_of(key),
        idx < 64,
{
    let r: i32 = (key % SHARD_COUNT + SHARD_COUNT) % SHARD_COUNT;
    r as usize
}

/// Every partition holds only identifiers that it owns.
spec fn partitioned<T>(shards: Seq<Shard<T>>) -> bool {
    &&& shards.len() == 64
    &&& forall|i: int, k: i32|
        0 <= i < 64 && #[trigger] shards[i]@.contains_key(k) ==> shard_of(k) == i
}

/// The entries of all partitions taken together.
spec fn contents<T>(shards: Seq<Shard<T>>) -> Map<i32, T> {
    Map::new(
        |k: i32| shards[shard_of(k)]@.contains_key(k),
        |k: i32| shards[shard_of(k)]@[k],
    )
}

/// The entries of `m` owned by one of the first `n` partitions.
spec fn owned_below<T>(m: Map<i32, T>, n: int) -> Map<i32, T> {
    m.restrict(Set::new(|k: i32| shard_of(k) < n))
}

/// A keyed store of pending values, split into 64 partitions by identifier.
///
/// Its view is the map from identifier to pending value.
pub struct TxHashMap<T> {
    sharded: Vec<Shard<T>>,
}

impl<T> View for TxHashMap<T> {
    type V = Map<i32, T>;

    closed spec fn view(&self) -> Map<i32, T> {
        contents(self.sharded@)
    }
}

impl<T> Default for TxHashMap<T> {
    /// An empty registry.
    fn default() -> (registry: Self)
        ensures
            registry.wf(),
            registry@ == Map::<i32, T>::empty(),
    {
        let mut sharded: Vec<Shard<T>> = Vec::new();
        let mut i: usize = 0;
        while i < 64
            invariant
                i <= 64,
                sharded.len() == i,
                forall|j: int| 0 <= j < i ==> (#[trigger] sharded[j])@ == Map::<i32, T>::empty(),
            decreases 64 - i,
        {
            sharded.push(Shard::new());
            i += 1;
        }
        proof {
            assert(contents(sharded@) =~= Map::<i32, T>::empty());
        }
        TxHashMap { sharded }
    }
}

impl<T> TxHashMap<T> {
    /// The registry has its 64 partitions, and each holds only identifiers
    /// that it owns.
    pub closed spec fn wf(&self) -> bool {
        partitioned(self.sharded@)
    }

    /// The entries that partition `i` holds.
    pub closed spec fn partition(&self, i: int) -> Map<i32, T> {
        self.sharded[i]@
    }

    /// An identifier maps to exactly one partition: each pending entry is
    /// held by the partition that owns its identifier, and by no other.
    pub proof fn lemma_entries_are_partitioned(&self)
        requires
            self.wf(),
        ensures
            forall|i: int, k: i32|
                0 <= i < 64 ==> (#[trigger] self.partition(i).contains_key(k) <==> shard_of(k) == i
                    && self@.contains_key(k)),
            forall|k: i32| #[trigger]
                self@.contains_key(k) ==> self@[k] == self.partition(shard_of(k))[k],
    {
    }

    /// Takes out the value pending under `key`. Returns `None` when no call
    /// with that identifier is pending. Only the partition that owns `key`
    /// is touched.
    pub fn remove(&mut self, key: &i32) -> (taken: Option<T>)
        requires
            old(self).wf(),
        ensures
            final(self).wf(),
            final(self)@ == old(self)@.remove(*key),
            taken == old(self)@.get(*key),
            forall|i: int|
                0 <= i < 64 && i != shard_of(*key) ==> #[trigger] final(self).partition(i) == old(
                    self,
                ).partition(i),
    {
        let idx = shard_index(*key);
        let taken = self.sharded[idx].remove(key);
        proof {
            assert(self@ =~= old(self)@.remove(*key));
        }
        taken
    }

    /// Whether no call is pending.
    pub fn is_empty(&self) -> (empty: bool)
        requires
            self.wf(),
        ensures
            empty <==> self@ == Map::<i32, T>::empty(),
    {
        let mut i: usize = 0;
        while i < 64
            invariant
                i <= 64,
                self.wf(),
                forall|j: int|
                    0 <= j < i ==> (#[trigger] self.sharded[j])@ == Map::<i32, T>::empty(),
            decreases 64 - i,
        {
            if !self.sharded[i].is_empty() {
                proof {
                    let held = self.sharded[i as int]@;
                    assert(exists|k: i32| held.contains_key(k)) by {
                        if forall|k: i32| !held.contains_key(k) {
                            assert(held =~= Map::<i32, T>::empty());
                        }
                    }
                    let k = choose|k: i32| held.contains_key(k);
                    assert(self@.contains_key(k));
                }
                return false;
            }
            i += 1;
        }
        proof {
            assert(self@ =~= Map::<i32, T>::empty());
        }
        true
    }

    /// Registers `value` under `key` and returns the value it displaces, if
    /// the identifier was still pending. Only the partition that owns `key`
    /// is touched.
    pub fn insert(&mut self, key: i32, value: T) -> (prev: Option<T>)
        requires
            old(self).wf(),
        ensures
            final(self).wf(),
            final(self)@ == old(self)@.insert(key, value),
            prev == old(self)@.get(key),
            forall|i: int|
                0 <= i < 64 && i != shard_of(key) ==> #[trigger] final(self).partition(i) == old(
                    self,
                ).partition(i),
    {
        let idx = shard_index(key);
        let prev = self.sharded[idx].insert(key, value);
        proof {
            assert(self@ =~= old(self)@.insert(key, value));
        }
        prev
    }

    /// Takes out every pending entry, partition by partition, leaving the
    /// registry empty. Each entry comes out exactly once; the order within a
    /// partition is unspecified.
    pub fn drain(&mut self) -> (items: Vec<(i32, T)>)
        requires
            old(self).wf(),
        ensures
            final(self).wf(),
            final(self)@ == Map::<i32, T>::empty(),
            enumerates(items@, old(self)@),
    {
        let mut items: Vec<(i32, T)> = Vec::new();
        let mut i: usize = 0;
        while i < 64
            invariant
                i <= 64,
                self.sharded.len() == 64,
                old(self).wf(),
                forall|j: int|
                    0 <= j < i ==> (#[trigger] self.sharded[j])@ == Map::<i32, T>::empty(),
                forall|j: int| i <= j < 64 ==> (#[trigger] self.sharded[j]) == old(self).sharded[j],
                enumerates(items@, owned_below(old(self)@, i as int)),
            decreases 64 - i,
        {
            let ghost before = items@;
            let mut part = self.sharded[i].drain();
            let ghost taken = part@;
            items.append(&mut part);
            proof {
                let all = old(self)@;
                let lo = owned_below(all, i as int);
                let hi = owned_below(all, i as int + 1);
                let source = old(self).sharded[i as int]@;
                assert(items@ == before + taken);
                assert forall|n: int| 0 <= n < items@.len() implies hi.contains_pair(
                    (#[trigger] items@[n]).0,
                    items@[n].1,
                ) by {
                    if n < before.len() {
                        assert(lo.contains_pair(before[n].0, before[n].1));
                    } else {
                        let t = taken[n - before.len()];
                        assert(source.contains_pair(t.0, t.1));
                    }
                }
                assert forall|a: int, b: int| 0 <= a < b < items@.len() implies (
                #[trigger] items@[a]).0 != (#[trigger] items@[b]).0 by {
                    if b < before.len() {
                    } else if a < before.len() {
                        assert(lo.contains_pair(before[a].0, before[a].1));
                        let t = taken[b - before.len()];
                        assert(source.contains_pair(t.0, t.1));
                    } else {
                        let ta = taken[a - before.len()];
                        let tb = taken[b - before.len()];
                    }
                }
                assert forall|k: i32| #[trigger] hi.contains_key(k) implies exists|n: int|
                    0 <= n < items@.len() && (#[trigger] items@[n]).0 == k by {
                    if shard_of(k) < i {
                        assert(lo.contains_key(k));
                        let n = choose|n: int|
                            0 <= n < before.len() && (#[trigger] before[n]).0 == k;
                        assert(items@[n].0 == k);
                    } else {
                        assert(source.contains_key(k));
                        let n = choose|n: int| 0 <= n < taken.len() && (#[trigger] taken[n]).0 == k;
                        assert(items@[before.len() + n].0 == k);
                    }
                }
            }
            i += 1;
        }
        proof {
            assert(self@ =~= Map::<i32, T>::empty());
            assert(owned_below(old(self)@, 64) =~= old(self)@);
        }
        items
    }

    /// Takes out every pending entry and hands each value to `f`, once,
    /// leaving the registry empty.
    pub fn for_all_drain<F: FnMut(T)>(&mut self, mut f: F)
        requires
            old(self).wf(),
            forall|k: i32| #[trigger]
                old(self)@.contains_key(k) ==> call_requires(f, (old(self)@[k],)),
        ensures
            final(self).wf(),
            final(self)@ == Map::<i32, T>::empty(),
            forall|k: i32| #[trigger]
                old(self)@.contains_key(k) ==> call_ensures(f, (old(self)@[k],), ()),
    {
        let items = self.drain();
        let ghost listed = items@;
        let ghost visit = f;
        for item in it: items
            invariant
                f == visit,
                it.seq() == listed,
                enumerates(listed, old(self)@),
                forall|k: i32| #[trigger]
                    old(self)@.contains_key(k) ==> call_requires(f, (old(self)@[k],)),
                forall|n: int|
                    0 <= n < it.index() ==> call_ensures(f, ((#[trigger] listed[n]).1,), ()),
        {
            f(item.1);
        }
        proof {
            assert forall|k: i32| #[trigger] old(self)@.contains_key(k) implies call_ensures(
                f,
                (old(self)@[k],),
                (),
            ) by {
                let n = choose|n: int| 0 <= n < listed.len() && (#[trigger] listed[n]).0 == k;
                assert(old(self)@.contains_pair(listed[n].0, listed[n].1));
            }
        }
    }
}

/// One step in the history of a registry.
pub enum RegistryOp<T> {
    /// `insert` of a value under an identifier.
    Insert(i32, T),
    /// `remove` of an identifier.
    Remove(i32),
}

impl<T> RegistryOp<T> {
    /// The identifier that the step acts on.
    pub open spec fn key(self) -> i32 {
        match self {
            RegistryOp::Insert(k, _) => k,
            RegistryOp::Remove(k) => k,
        }
    }

    /// The contents of a registry that held `m`, after the step.
    pub open spec fn apply(self, m: Map<i32, T>) -> Map<i32, T> {
        match self {
            RegistryOp::Insert(k, v) => m.insert(k, v),
            RegistryOp::Remove(k) => m.remove(k),
        }
    }
}

/// The contents of an initially empty registry after the steps of `ops`, in
/// order.
pub open spec fn replay<T>(ops: Seq<RegistryOp<T>>) -> Map<i32, T>
    decreases ops.len(),
{
    if ops.len() == 0 {
        Map::empty()
    } else {
        ops.last().apply(replay(ops.drop_last()))
    }
}

/// The steps of the history that act on `id`, in order.
pub open spec fn steps_on<T>(ops: Seq<RegistryOp<T>>, id: i32) -> Seq<RegistryOp<T>> {
    ops.filter(|op: RegistryOp<T>| op.key() == id)
}

/// Every insert of the history is followed, later on, by a remove of the
/// same identifier.
pub open spec fn settled<T>(ops: Seq<RegistryOp<T>>) -> bool {
    forall|i: int|
        0 <= i < ops.len() && (#[trigger] ops[i]) is Insert ==> exists|j: int|
            i < j < ops.len() && #[trigger] ops[j] == RegistryOp::<T>::Remove(ops[i].key())
}

/// The history consists of inserts alone, no two under the same identifier.
pub open spec fn distinct_inserts<T>(ops: Seq<RegistryOp<T>>) -> bool {
    &&& forall|i: int| 0 <= i < ops.len() ==> (#[trigger] ops[i]) is Insert
    &&& forall|i: int, j: int|
        0 <= i < j < ops.len() ==> (#[trigger] ops[i]).key() != (#[trigger] ops[j]).key()
}

/// Whatever was done under other identifiers in between, the value pending
/// under `id` is the one most recently inserted under it: after a history
/// whose last step on `id` is the insert of `value`, `remove(id)` returns
/// `value`.
pub proof fn lemma_remove_returns_latest_insert<T>(
    ops: Seq<RegistryOp<T>>,
    at: int,
    id: i32,
    value: T,
)
    requires
        0 <= at < ops.len(),
        ops[at] == RegistryOp::Insert(id, value),
        forall|j: int| at < j < ops.len() ==> (#[trigger] ops[j]).key() != id,
    ensures
        replay(ops).get(id) == Some(value),
    decreases ops.len(),
{
    if at < ops.len() - 1 {
        let earlier = ops.drop_last();
        assert(earlier[at] == ops[at]);
        assert forall|j: int| at < j < earlier.len() implies (#[trigger] earlier[j]).key() != id by {
            assert(earlier[j] == ops[j]);
        }
        lemma_remove_returns_latest_insert(earlier, at, id, value);
        assert(ops.last() == ops[ops.len() - 1]);
    }
}

/// A value is pending under `id` only if the last step of the history on
/// `id` inserted that very value: no value inserted under another identifier,
/// and none that was since removed or displaced, is ever returned for `id`.
pub proof fn lemma_pending_was_inserted<T>(ops: Seq<RegistryOp<T>>, id: i32) -> (at: int)
    requires
        replay(ops).contains_key(id),
    ensures
        0 <= at < ops.len(),
        ops[at] == RegistryOp::Insert(id, replay(ops)[id]),
        forall|j: int| at < j < ops.len() ==> (#[trigger] ops[j]).key() != id,
    decreases ops.len(),
{
    let earlier = ops.drop_last();
    if ops.last().key() == id {
        ops.len() - 1
    } else {
        let at = lemma_pending_was_inserted(earlier, id);
        assert(earlier[at] == ops[at]);
        assert forall|j: int| at < j < ops.len() implies (#[trigger] ops[j]).key() != id by {
            if j < earlier.len() {
                assert(earlier[j] == ops[j]);
            }
        }
        at
    }
}

/// What is pending under an identifier depends on the steps taken on that
/// identifier alone.
proof fn lemma_pending_depends_on_own_steps<T>(ops: Seq<RegistryOp<T>>, id: i32)
    ensures
        replay(ops).get(id) == replay(steps_on(ops, id)).get(id),
    decreases ops.len(),
{
    reveal(Seq::filter);
    if ops.len() > 0 {
        let earlier = ops.drop_last();
        let own = steps_on(earlier, id);
        lemma_pending_depends_on_own_steps(earlier, id);
        if ops.last().key() == id {
            assert(steps_on(ops, id) == own.push(ops.last()));
            assert(own.push(ops.last()).drop_last() =~= own);
        }
    }
}

/// However the steps on different identifiers are interleaved, the outcome
/// is the same: two histories that agree, for each identifier, on the steps
/// taken on it leave the same entries pending.
pub proof fn lemma_interleaving_is_immaterial<T>(a: Seq<RegistryOp<T>>, b: Seq<RegistryOp<T>>)
    requires
        forall|id: i32| steps_on(a, id) == steps_on(b, id),
    ensures
        replay(a) == replay(b),
{
    assert forall|id: i32| replay(a).get(id) == replay(b).get(id) by {
        lemma_pending_depends_on_own_steps(a, id);
        lemma_pending_depends_on_own_steps(b, id);
    }
    assert forall|id: i32| replay(a).contains_key(id) == replay(b).contains_key(id) by {
        assert(replay(a).get(id) == replay(b).get(id));
    }
    assert forall|id: i32| replay(a).contains_key(id) implies replay(a)[id] == replay(b)[id] by {
        assert(replay(a).get(id) == replay(b).get(id));
    }
    assert(replay(a) =~= replay(b));
}

/// After a history in which every insert is followed by a matching remove,
/// the registry is empty, so `is_empty` returns `true`.
pub proof fn lemma_settled_history_is_empty<T>(ops: Seq<RegistryOp<T>>)
    requires
        settled(ops),
    ensures
        replay(ops) == Map::<i32, T>::empty(),
{
    assert forall|id: i32| !replay(ops).contains_key(id) by {
        if replay(ops).contains_key(id) {
            let at = lemma_pending_was_inserted(ops, id);
            let j = choose|j: int|
                at < j < ops.len() && #[trigger] ops[j] == RegistryOp::<T>::Remove(ops[at].key());
            assert(ops[j].key() == id);
        }
    }
    assert(replay(ops) =~= Map::<i32, T>::empty());
}

/// After `ops.len()` inserts under distinct identifiers and no remove, a
/// drain hands out exactly `ops.len()` items, one for each insert.
pub proof fn lemma_drain_lists_each_insert_once<T>(
    ops: Seq<RegistryOp<T>>,
    items: Seq<(i32, T)>,
)
    requires
        distinct_inserts(ops),
        enumerates(items, replay(ops)),
    ensures
        items.len() == ops.len(),
        forall|i: int|
            0 <= i < ops.len() ==> exists|n: int|
                0 <= n < items.len() && #[trigger] ops[i] == RegistryOp::Insert(
                    (#[trigger] items[n]).0,
                    items[n].1,
                ),
{
    let m = replay(ops);
    let ids = ops.map_values(|op: RegistryOp<T>| op.key());
    assert forall|i: int| 0 <= i < ops.len() implies m.contains_key(ops[i].key()) && #[trigger] ops[i]
        == RegistryOp::Insert(ops[i].key(), m[ops[i].key()]) by {
        let k = ops[i].key();
        let v = ops[i]->Insert_1;
        assert forall|j: int| i < j < ops.len() implies (#[trigger] ops[j]).key() != k by {}
        lemma_remove_returns_latest_insert(ops, i, k, v);
    }
    assert forall|i: int| 0 <= i < ops.len() implies exists|n: int|
        0 <= n < items.len() && #[trigger] ops[i] == RegistryOp::Insert(
            (#[trigger] items[n]).0,
            items[n].1,
        ) by {
        let k = ops[i].key();
        let n = choose|n: int| 0 <= n < items.len() && (#[trigger] items[n]).0 == k;
        assert(m.contains_pair(items[n].0, items[n].1));
    }
    assert forall|i: int, j: int| 0 <= i < ids.len() && 0 <= j < ids.len() && i != j implies ids[i]
        != ids[j] by {
        if i < j {
            assert(ops[i].key() != ops[j].key());
        } else {
            assert(ops[j].key() != ops[i].key());
        }
    }
    assert forall|k: i32| ids.to_set().contains(k) <==> m.dom().contains(k) by {
        if ids.to_set().contains(k) {
            let i = choose|i: int| 0 <= i < ids.len() && ids[i] == k;
            assert(m.contains_key(ops[i].key()));
        }
        if m.contains_key(k) {
            let at = lemma_pending_was_inserted(ops, k);
            assert(ids[at] == k);
        }
    }
    assert(ids.to_set() =~= m.dom());
    ids.unique_seq_to_set();
    lemma_enumerates_len(items, m);
}

} // verus!
