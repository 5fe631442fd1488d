//! A key/value store that never holds more than a fixed number of entries
//! and asks an eviction policy which entry to give up when it is full.

use crate::policy::{evicted, key_eq_model, EvictionPolicy};
use std::collections::hash_map::RandomState;
use std::collections::HashMap;
use std::hash::Hash;
use vstd::prelude::*;
use vstd::std_specs::hash::*;

verus! {

broadcast use vstd::std_specs::hash::group_hash_axioms;

/// Why a cache operation was refused.
#[derive(Debug, PartialEq, Eq, Clone, Copy, Structural)]
pub enum CacheError {
    /// A cache was asked for with room for no entry at all.
    ConfigurationError,
    /// The store was full and the policy freed no entry of it.
    CapacityInconsistency,
}

/// What the cache assumes of its key type: `==` and hashing agree with
/// mathematical equality.
pub open spec fn key_model<K: PartialEq>() -> bool {
    &&& key_eq_model::<K>()
    &&& obeys_key_model::<K>()
    &&& builds_valid_hashers::<RandomState>()
}

/// The first step of an insertion: a store that has reached `capacity` asks
/// for a victim and drops it.  Gives the store and the tracking order after
/// that step, and the victim if one was named.
pub open spec fn make_room<K, V>(store: Map<K, V>, order: Seq<K>, capacity: nat) -> (
    Map<K, V>,
    Seq<K>,
    Option<K>,
) {
    if store.len() >= capacity {
        let (rest, victim) = evicted(order);
        match victim {
            Some(k) => (store.remove(k), rest, victim),
            None => (store, rest, victim),
        }
    } else {
        (store, order, None)
    }
}

/// The value that an eviction displaced from `store`, if it displaced one.
pub open spec fn displaced<K, V>(store: Map<K, V>, victim: Option<K>) -> Option<V> {
    match victim {
        Some(k) => if store.contains_key(k) {
            Some(store[k])
        } else {
            None
        },
        None => None,
    }
}

/// `order` tracks exactly the keys of `store`, each once.
pub open spec fn in_step<K, V>(store: Map<K, V>, order: Seq<K>) -> bool {
    &&& order.no_duplicates()
    &&& forall|k: K| order.contains(k) <==> store.contains_key(k)
}

/// The three ways an insertion can end.
pub enum InsertCase {
    /// The store was full and the eviction step freed nothing.
    Refused,
    /// The key was stored already; its value stays.
    Kept,
    /// The entry was stored.
    Stored,
}

/// Which way an insertion of `key` ends.
pub open spec fn insert_case<K, V>(
    store: Map<K, V>,
    order: Seq<K>,
    capacity: nat,
    key: K,
) -> InsertCase {
    let (room, _rest, _victim) = make_room(store, order, capacity);
    if room.len() >= capacity {
        InsertCase::Refused
    } else if room.contains_key(key) {
        InsertCase::Kept
    } else {
        InsertCase::Stored
    }
}

/// The stored entries after an insertion of `key` with `value`.
pub open spec fn store_after_insert<K, V>(
    store: Map<K, V>,
    order: Seq<K>,
    capacity: nat,
    key: K,
    value: V,
) -> Map<K, V> {
    let (room, _rest, _victim) = make_room(store, order, capacity);
    match insert_case(store, order, capacity, key) {
        InsertCase::Stored => room.insert(key, value),
        _ => room,
    }
}

/// The tracking order after an insertion of `key`: what the eviction step
/// left, and behind it the key if it was stored.
pub open spec fn order_after_insert<K: PartialEq, V, P: EvictionPolicy<K>>(
    store: Map<K, V>,
    order: Seq<K>,
    capacity: nat,
    key: K,
) -> Seq<K> {
    let (_room, rest, _victim) = make_room(store, order, capacity);
    match insert_case(store, order, capacity, key) {
        InsertCase::Stored => P::admitted(rest, key),
        _ => rest,
    }
}

/// The stored entries and the tracking order after the insertions `entries`,
/// one after the other.
pub open spec fn after_inserts<K: PartialEq, V, P: EvictionPolicy<K>>(
    store: Map<K, V>,
    order: Seq<K>,
    capacity: nat,
    entries: Seq<(K, V)>,
) -> (Map<K, V>, Seq<K>)
    decreases entries.len(),
{
    if entries.len() == 0 {
        (store, order)
    } else {
        let (before, followed) = after_inserts::<K, V, P>(
            store,
            order,
            capacity,
            entries.drop_last(),
        );
        let (key, value) = entries.last();
        (
            store_after_insert(before, followed, capacity, key, value),
            order_after_insert::<K, V, P>(before, followed, capacity, key),
        )
    }
}

/// A bounded store of values by key, with the eviction policy it owns.
pub struct Cache<K, V, P> {
    data: HashMap<K, V>,
    capacity: usize,
    policy: P,
}

impl<K, V, P> View for Cache<K, V, P> {
    type V = Map<K, V>;

    /// The stored entries.
    closed spec fn view(&self) -> Map<K, V> {
        self.data@
    }
}

impl<K: Copy + Eq + Hash, V, P: EvictionPolicy<K>> Cache<K, V, P> {
    /// The keys the policy tracks, next victim first.
    pub closed spec fn order(&self) -> Seq<K> {
        self.policy.order()
    }

    /// The largest number of entries the cache may hold.
    pub closed spec fn limit(&self) -> nat {
        self.capacity as nat
    }

    /// The capacity bound: a positive limit that the store never exceeds.
    pub open spec fn wf(&self) -> bool {
        &&& key_model::<K>()
        &&& 0 < self.limit()
        &&& self@.dom().finite()
        &&& self@.len() <= self.limit()
    }

    /// The policy tracks exactly the stored keys, each once.
    pub open spec fn in_sync(&self) -> bool {
        in_step(self@, self.order())
    }

    /// An empty cache for at most `capacity` entries.  A capacity of zero is
    /// refused: such a cache could never hold a value.
    pub fn new(capacity: usize, policy: P) -> (made: Result<Self, CacheError>)
        requires
            key_model::<K>(),
        ensures
            capacity == 0 <==> made is Err,
            made is Err ==> made == Err::<Self, CacheError>(CacheError::ConfigurationError),
            made matches Ok(cache) ==> {
                &&& cache.wf()
                &&& cache.limit() == capacity
                &&& cache@ == Map::<K, V>::empty()
                &&& cache.order() == policy.order()
                &&& policy.order().len() == 0 ==> cache.in_sync()
            },
    {
        if capacity == 0 {
            return Err(CacheError::ConfigurationError);
        }
        let cache = Cache { data: HashMap::new(), capacity, policy };
        proof {
            assert(cache@.len() == 0);
        }
        Ok(cache)
    }

    /// The number of stored entries.
    pub fn size(&self) -> (n: usize)
        requires
            self.wf(),
        ensures
            n == self@.len(),
            n <= self.limit(),
    {
        self.data.len()
    }

    /// The largest number of entries the cache may hold.
    pub fn capacity(&self) -> (n: usize)
        ensures
            n == self.limit(),
    {
        self.capacity
    }

    /// A read-only look at the stored entries.
    pub fn get_data(&self) -> (data: &HashMap<K, V>)
        ensures
            data@ == self@,
    {
        &self.data
    }

    /// Looks `key` up.  A hit counts as a read with the policy; a miss
    /// leaves the policy alone.
    pub fn get(&mut self, key: &K) -> (found: Option<&V>)
        requires
            old(self).wf(),
        ensures
            final(self).wf(),
            final(self).limit() == old(self).limit(),
            final(self)@ == old(self)@,
            old(self).in_sync() ==> final(self).in_sync(),
            old(self)@.contains_key(*key) ==> {
                &&& found == Some(&old(self)@[*key])
                &&& final(self).order() == P::accessed(old(self).order(), *key)
            },
            !old(self)@.contains_key(*key) ==> {
                &&& found is None
                &&& final(self).order() == old(self).order()
            },
    {
        if self.data.contains_key(key) {
            proof {
                if old(self).in_sync() {
                    P::lemma_accessed(self.policy.order(), *key);
                }
            }
            self.policy.on_access(key);
            self.data.get(key)
        } else {
            None
        }
    }
}

impl<K: Copy + Eq + Hash, V: Clone, P: EvictionPolicy<K>> Cache<K, V, P> {
    /// Stores `value` under `key`.
    ///
    /// A full store first asks the policy for a victim and drops it.  If
    /// that frees nothing, the insertion is refused.  A key that is stored
    /// already keeps its value, and a copy of that value is returned.
    /// Otherwise the entry is stored and the value that the eviction
    /// displaced, if any, is returned.
    pub fn insert(&mut self, key: K, value: V) -> (outcome: Result<Option<V>, CacheError>)
        requires
            old(self).wf(),
        ensures
            final(self).wf(),
            final(self).limit() == old(self).limit(),
            old(self).in_sync() ==> final(self).in_sync() && outcome is Ok,
            final(self)@ == store_after_insert(
                old(self)@,
                old(self).order(),
                old(self).limit(),
                key,
                value,
            ),
            final(self).order() == order_after_insert::<K, V, P>(
                old(self)@,
                old(self).order(),
                old(self).limit(),
                key,
            ),
            match insert_case(old(self)@, old(self).order(), old(self).limit(), key) {
                InsertCase::Refused => outcome == Err::<Option<V>, CacheError>(
                    CacheError::CapacityInconsistency,
                ),
                InsertCase::Kept => {
                    &&& outcome matches Ok(Some(found))
                    &&& cloned(old(self)@[key], found)
                },
                InsertCase::Stored => outcome == Ok::<Option<V>, CacheError>(
                    displaced(
                        old(self)@,
                        make_room(old(self)@, old(self).order(), old(self).limit()).2,
                    ),
                ),
            },
    {
        let mut gone: Option<V> = None;
        if self.data.len() >= self.capacity {
            let ghost before = self.policy.order();
            if let Some(key_to_evict) = self.policy.evict() {
                gone = self.data.remove(&key_to_evict);
                proof {
                    if old(self).in_sync() {
                        lemma_eviction_keeps_sync(old(self)@, before);
                    }
                }
            }
            if self.data.len() >= self.capacity {
                proof {
                    if old(self).in_sync() {
                        lemma_full_store_has_victim(old(self)@, before);
                    }
                }
                return Err(CacheError::CapacityInconsistency);
            }
        }
        proof {
            if old(self).in_sync() {
                P::lemma_admitted(self.policy.order(), key);
            }
        }
        if let Some(found) = self.data.get(&key) {
            return Ok(Some(found.clone()));
        }
        self.policy.on_insert(key);
        self.data.insert(key, value);
        Ok(gone)
    }
}

/// Dropping the front key of a synchronized order from the store keeps the
/// two in step and frees one place.
proof fn lemma_eviction_keeps_sync<K, V>(store: Map<K, V>, order: Seq<K>)
    requires
        store.dom().finite(),
        order.len() > 0,
        order.no_duplicates(),
        forall|k: K| order.contains(k) <==> store.contains_key(k),
    ensures
        order.drop_first().no_duplicates(),
        forall|k: K| order.drop_first().contains(k) <==> store.remove(order[0]).contains_key(k),
        store.remove(order[0]).len() + 1 == store.len(),
{
    let rest = order.drop_first();
    assert(order.contains(order[0]));
    assert forall|k: K| rest.contains(k) <==> store.remove(order[0]).contains_key(k) by {
        if rest.contains(k) {
            let i = choose|i: int| 0 <= i < rest.len() && rest[i] == k;
            assert(order[i + 1] == k);
            assert(order.contains(k));
        }
        if store.remove(order[0]).contains_key(k) {
            assert(order.contains(k));
            let i = choose|i: int| 0 <= i < order.len() && order[i] == k;
            assert(rest[i - 1] == k);
        }
    }
}

/// A store that holds anything, in step with its order, has a victim.
proof fn lemma_full_store_has_victim<K, V>(store: Map<K, V>, order: Seq<K>)
    requires
        store.dom().finite(),
        store.len() > 0,
        forall|k: K| order.contains(k) <==> store.contains_key(k),
    ensures
        order.len() > 0,
{
    let k = store.dom().choose();
    assert(store.contains_key(k));
    assert(order.contains(k));
}

/// The capacity bound survives every insertion: a store within its capacity
/// is still within it afterwards, whatever the policy followed.
pub proof fn law_capacity_bound<K, V>(
    store: Map<K, V>,
    order: Seq<K>,
    capacity: nat,
    key: K,
    value: V,
)
    requires
        store.dom().finite(),
        store.len() <= capacity,
        0 < capacity,
    ensures
        store_after_insert(store, order, capacity, key, value).dom().finite(),
        store_after_insert(store, order, capacity, key, value).len() <= capacity,
{
}

/// The capacity bound holds after every one of a run of insertions.
pub proof fn law_capacity_invariant<K: PartialEq, V, P: EvictionPolicy<K>>(
    store: Map<K, V>,
    order: Seq<K>,
    capacity: nat,
    entries: Seq<(K, V)>,
)
    requires
        store.dom().finite(),
        store.len() <= capacity,
        0 < capacity,
    ensures
        forall|n: int|
            0 <= n <= entries.len() ==> {
                let stored = (#[trigger] after_inserts::<K, V, P>(
                    store,
                    order,
                    capacity,
                    entries.take(n),
                )).0;
                stored.dom().finite() && stored.len() <= capacity
            },
{
    assert forall|n: int| 0 <= n <= entries.len() implies {
        let stored = (#[trigger] after_inserts::<K, V, P>(
            store,
            order,
            capacity,
            entries.take(n),
        )).0;
        stored.dom().finite() && stored.len() <= capacity
    } by {
        lemma_inserts_keep_bound::<K, V, P>(store, order, capacity, entries.take(n));
    }
}

proof fn lemma_inserts_keep_bound<K: PartialEq, V, P: EvictionPolicy<K>>(
    store: Map<K, V>,
    order: Seq<K>,
    capacity: nat,
    entries: Seq<(K, V)>,
)
    requires
        store.dom().finite(),
        store.len() <= capacity,
        0 < capacity,
    ensures
        after_inserts::<K, V, P>(store, order, capacity, entries).0.dom().finite(),
        after_inserts::<K, V, P>(store, order, capacity, entries).0.len() <= capacity,
    decreases entries.len(),
{
    if entries.len() > 0 {
        lemma_inserts_keep_bound::<K, V, P>(store, order, capacity, entries.drop_last());
        let (before, followed) = after_inserts::<K, V, P>(
            store,
            order,
            capacity,
            entries.drop_last(),
        );
        law_capacity_bound(before, followed, capacity, entries.last().0, entries.last().1);
    }
}

/// Inserting a key that is stored already, while there is room left, evicts
/// nothing and leaves the store, its value for the key, and the tracking
/// order as they were.
pub proof fn law_stored_key_is_kept<K: PartialEq, V, P: EvictionPolicy<K>>(
    store: Map<K, V>,
    order: Seq<K>,
    capacity: nat,
    key: K,
    value: V,
)
    requires
        store.contains_key(key),
        store.len() < capacity,
    ensures
        insert_case(store, order, capacity, key) == InsertCase::Kept,
        make_room(store, order, capacity) == (store, order, None::<K>),
        store_after_insert(store, order, capacity, key, value) == store,
        order_after_insert::<K, V, P>(store, order, capacity, key) == order,
{
}

/// A key that was not stored is found with the inserted value right after
/// its insertion, provided the policy was in step with the store.
pub proof fn law_insert_then_get<K, V>(
    store: Map<K, V>,
    order: Seq<K>,
    capacity: nat,
    key: K,
    value: V,
)
    requires
        store.dom().finite(),
        store.len() <= capacity,
        0 < capacity,
        in_step(store, order),
        !store.contains_key(key),
    ensures
        insert_case(store, order, capacity, key) == InsertCase::Stored,
        store_after_insert(store, order, capacity, key, value).contains_key(key),
        store_after_insert(store, order, capacity, key, value)[key] == value,
{
    if store.len() >= capacity {
        lemma_full_store_has_victim(store, order);
        lemma_eviction_keeps_sync(store, order);
    }
}

} // verus!
