//! Eviction policies: the order in which a cache gives up its keys.
//!
//! A policy tracks keys only.  Its state is modelled as a sequence of keys,
//! the next victim first; the policies differ in how an insertion and a read
//! rearrange that sequence.

use std::collections::VecDeque;
use vstd::prelude::*;
use vstd::std_specs::cmp::PartialEqSpec;

verus! {

/// Executable equality on `K` decides mathematical equality.
///
/// Holds of the primitive integer types and of `bool`.
pub open spec fn key_eq_model<K: PartialEq>() -> bool {
    &&& K::obeys_eq_spec()
    &&& forall|a: K, b: K| #[trigger] a.eq_spec(&b) <==> a == b
}

/// `order` with every occurrence of `key` taken out.
pub open spec fn without<K>(order: Seq<K>, key: K) -> Seq<K> {
    order.filter(|k: K| k != key)
}

/// What an eviction does to a tracking order: the front key leaves and is the
/// victim; an empty order stays as it is and yields no victim.
pub open spec fn evicted<K>(order: Seq<K>) -> (Seq<K>, Option<K>) {
    if order.len() == 0 {
        (order, None)
    } else {
        (order.drop_first(), Some(order[0]))
    }
}

/// Filtering out one key keeps the other keys, in order and without repeats.
pub proof fn lemma_without<K>(order: Seq<K>, key: K)
    ensures
        !without(order, key).contains(key),
        forall|k: K| k != key ==> (#[trigger] without(order, key).contains(k) <==> order.contains(k)),
        without(order, key).len() <= order.len(),
        order.no_duplicates() ==> without(order, key).no_duplicates(),
        !order.contains(key) ==> without(order, key) == order,
    decreases order.len(),
{
    reveal(Seq::filter);
    if order.len() > 0 {
        let front = order.drop_last();
        let last = order.last();
        lemma_without(front, key);
        let kept = without(front, key);
        assert forall|k: K| k != key implies (#[trigger] without(order, key).contains(k)
            <==> order.contains(k)) by {
            if order.contains(k) {
                let i = choose|i: int| 0 <= i < order.len() && order[i] == k;
                if i < order.len() - 1 {
                    assert(front[i] == k);
                    assert(front.contains(k));
                    assert(kept.contains(k));
                    let j = choose|j: int| 0 <= j < kept.len() && kept[j] == k;
                    assert(without(order, key)[j] == k);
                } else {
                    assert(last == k);
                    assert(without(order, key) == kept.push(last));
                    assert(without(order, key)[kept.len() as int] == k);
                }
            }
            if without(order, key).contains(k) {
                let j = choose|j: int| 0 <= j < without(order, key).len() && without(order, key)[j]
                    == k;
                if j < kept.len() {
                    assert(kept[j] == k);
                    assert(kept.contains(k));
                    let i = choose|i: int| 0 <= i < front.len() && front[i] == k;
                    assert(order[i] == k);
                } else {
                    assert(order[order.len() - 1] == k);
                }
            }
        }
        if order.no_duplicates() {
            assert(front.no_duplicates());
            if last != key {
                assert(!kept.contains(last)) by {
                    if kept.contains(last) {
                        assert(without(front, key).contains(last));
                        assert(front.contains(last));
                        let i = choose|i: int| 0 <= i < front.len() && front[i] == last;
                        assert(order[i] == order[order.len() - 1]);
                    }
                }
                assert(kept.push(last).no_duplicates());
            }
        }
        if !order.contains(key) {
            assert(!front.contains(key)) by {
                if front.contains(key) {
                    let i = choose|i: int| 0 <= i < front.len() && front[i] == key;
                    assert(order[i] == key);
                }
            }
            assert(last != key) by {
                if last == key {
                    assert(order[order.len() - 1] == key);
                }
            }
            assert(kept.push(last) =~= order);
        }
    }
}

/// The capability a cache asks of its eviction strategy.
///
/// `order` is the model of a policy: the tracked keys, next victim first.
/// `admitted` and `accessed` say how an insertion and a read rearrange an
/// order; the two lemmas oblige every policy to keep an order free of repeats
/// and to track exactly the keys it was told about.
pub trait EvictionPolicy<K: PartialEq>: Sized {
    /// The tracked keys, next victim first.
    spec fn order(&self) -> Seq<K>;

    /// The order after `key` has entered the cache.
    spec fn admitted(order: Seq<K>, key: K) -> Seq<K>;

    /// The order after `key` has been read.
    spec fn accessed(order: Seq<K>, key: K) -> Seq<K>;

    /// Admitting a key tracks it once, and loses no other key.
    proof fn lemma_admitted(order: Seq<K>, key: K)
        requires
            order.no_duplicates(),
        ensures
            Self::admitted(order, key).no_duplicates(),
            forall|k: K| #[trigger]
                Self::admitted(order, key).contains(k) <==> (k == key || order.contains(k)),
    ;

    /// A read only rearranges the tracked keys.
    proof fn lemma_accessed(order: Seq<K>, key: K)
        requires
            order.no_duplicates(),
        ensures
            Self::accessed(order, key).no_duplicates(),
            forall|k: K| #[trigger] Self::accessed(order, key).contains(k) <==> order.contains(k),
    ;

    /// Records that `key` was read.
    fn on_access(&mut self, key: &K)
        requires
            key_eq_model::<K>(),
        ensures
            final(self).order() == Self::accessed(old(self).order(), *key),
    ;

    /// Records that `key` has entered the cache.
    fn on_insert(&mut self, key: K)
        requires
            key_eq_model::<K>(),
        ensures
            final(self).order() == Self::admitted(old(self).order(), key),
    ;

    /// Chooses the key to displace and stops tracking it.
    fn evict(&mut self) -> (victim: Option<K>)
        ensures
            (final(self).order(), victim) == evicted(old(self).order()),
    ;
}

/// Whether `key` occurs among `keys`.
fn tracks<K: PartialEq>(keys: &VecDeque<K>, key: &K) -> (found: bool)
    requires
        key_eq_model::<K>(),
    ensures
        found == keys@.contains(*key),
{
    let n: usize = keys.len();
    let mut i: usize = 0;
    while i < n
        invariant
            key_eq_model::<K>(),
            n == keys@.len(),
            i <= n,
            forall|j: int| 0 <= j < i ==> keys@[j] != *key,
        decreases n - i,
    {
        if keys[i] == *key {
            return true;
        }
        i += 1;
    }
    false
}

/// A copy of `keys` that leaves out every occurrence of `key`.
fn copy_without<K: PartialEq + Copy>(keys: &VecDeque<K>, key: &K) -> (rest: VecDeque<K>)
    requires
        key_eq_model::<K>(),
    ensures
        rest@ == without(keys@, *key),
{
    let ghost pred = |k: K| k != *key;
    let n: usize = keys.len();
    let mut rest: VecDeque<K> = VecDeque::new();
    let mut i: usize = 0;
    proof {
        reveal(Seq::filter);
        assert(keys@.take(0) =~= Seq::<K>::empty());
    }
    while i < n
        invariant
            key_eq_model::<K>(),
            n == keys@.len(),
            i <= n,
            pred == |k: K| k != *key,
            rest@ == keys@.take(i as int).filter(pred),
        decreases n - i,
    {
        let k: K = keys[i];
        proof {
            reveal(Seq::filter);
            assert(keys@.take(i + 1).drop_last() =~= keys@.take(i as int));
            assert(keys@.take(i + 1).last() == k);
        }
        if k != *key {
            rest.push_back(k);
        }
        i += 1;
    }
    proof {
        assert(keys@.take(n as int) =~= keys@);
    }
    rest
}

/// First in, first out: the key that entered longest ago leaves first, and
/// reads change nothing.
pub struct FifoPolicy<K> {
    keys_in_order: VecDeque<K>,
}

impl<K> FifoPolicy<K> {
    /// A policy that tracks no key.
    pub fn new() -> (policy: Self)
        ensures
            policy.keys() == Seq::<K>::empty(),
    {
        FifoPolicy { keys_in_order: VecDeque::new() }
    }

    /// The tracked keys, oldest first.
    pub closed spec fn keys(&self) -> Seq<K> {
        self.keys_in_order@
    }
}

impl<K: PartialEq + Copy> EvictionPolicy<K> for FifoPolicy<K> {
    open spec fn order(&self) -> Seq<K> {
        self.keys()
    }

    /// A new key joins at the back; a key that is already tracked keeps its
    /// place.
    open spec fn admitted(order: Seq<K>, key: K) -> Seq<K> {
        if order.contains(key) {
            order
        } else {
            order.push(key)
        }
    }

    /// Reads do not reorder.
    open spec fn accessed(order: Seq<K>, key: K) -> Seq<K> {
        order
    }

    proof fn lemma_admitted(order: Seq<K>, key: K) {
        lemma_push_fresh(order, key);
    }

    proof fn lemma_accessed(order: Seq<K>, key: K) {
    }

    fn on_access(&mut self, key: &K) {
    }

    fn on_insert(&mut self, key: K) {
        if !tracks(&self.keys_in_order, &key) {
            self.keys_in_order.push_back(key);
        }
    }

    fn evict(&mut self) -> (victim: Option<K>) {
        let victim = self.keys_in_order.pop_front();
        proof {
            lemma_drop_first_is_subrange(old(self).keys_in_order@);
        }
        victim
    }
}

/// Least recently used: the key whose last insertion or read lies furthest
/// back leaves first.
pub struct LruPolicy<K> {
    keys_in_order: VecDeque<K>,
}

impl<K> LruPolicy<K> {
    /// A policy that tracks no key.
    pub fn new() -> (policy: Self)
        ensures
            policy.keys() == Seq::<K>::empty(),
    {
        LruPolicy { keys_in_order: VecDeque::new() }
    }

    /// The tracked keys, least recently used first.
    pub closed spec fn keys(&self) -> Seq<K> {
        self.keys_in_order@
    }
}

impl<K: PartialEq + Copy> EvictionPolicy<K> for LruPolicy<K> {
    open spec fn order(&self) -> Seq<K> {
        self.keys()
    }

    /// The key becomes the most recently used one, whether it was tracked
    /// before or not.
    open spec fn admitted(order: Seq<K>, key: K) -> Seq<K> {
        without(order, key).push(key)
    }

    /// A tracked key moves to the most recently used position; a read of an
    /// untracked key changes nothing.
    open spec fn accessed(order: Seq<K>, key: K) -> Seq<K> {
        if order.contains(key) {
            without(order, key).push(key)
        } else {
            order
        }
    }

    proof fn lemma_admitted(order: Seq<K>, key: K) {
        lemma_without(order, key);
        lemma_push_fresh(without(order, key), key);
    }

    proof fn lemma_accessed(order: Seq<K>, key: K) {
        lemma_without(order, key);
        lemma_push_fresh(without(order, key), key);
    }

    fn on_access(&mut self, key: &K) {
        if tracks(&self.keys_in_order, key) {
            let mut updated = copy_without(&self.keys_in_order, key);
            updated.push_back(*key);
            self.keys_in_order = updated;
        }
    }

    fn on_insert(&mut self, key: K) {
        let mut updated = copy_without(&self.keys_in_order, &key);
        updated.push_back(key);
        self.keys_in_order = updated;
    }

    fn evict(&mut self) -> (victim: Option<K>) {
        let victim = self.keys_in_order.pop_front();
        proof {
            lemma_drop_first_is_subrange(old(self).keys_in_order@);
        }
        victim
    }
}

/// Appending a key that does not occur keeps an order free of repeats and
/// adds exactly that key.
pub proof fn lemma_push_fresh<K>(order: Seq<K>, key: K)
    ensures
        order.no_duplicates() && !order.contains(key) ==> order.push(key).no_duplicates(),
        forall|k: K| #[trigger] order.push(key).contains(k) <==> (k == key || order.contains(k)),
{
    assert forall|k: K| #[trigger] order.push(key).contains(k) <==> (k == key || order.contains(
        k,
    )) by {
        if order.contains(k) {
            let i = choose|i: int| 0 <= i < order.len() && order[i] == k;
            assert(order.push(key)[i] == k);
        }
        if k == key {
            assert(order.push(key)[order.len() as int] == k);
        }
    }
}

proof fn lemma_drop_first_is_subrange<K>(order: Seq<K>)
    ensures
        order.len() > 0 ==> order.drop_first() == order.subrange(1, order.len() as int),
{
}

/// Reading a key twice in a row leaves a least-recently-used order as one
/// read leaves it.
pub proof fn law_repeated_access<K: PartialEq + Copy>(order: Seq<K>, key: K)
    ensures
        LruPolicy::<K>::accessed(LruPolicy::<K>::accessed(order, key), key) == LruPolicy::<
            K,
        >::accessed(order, key),
{
    if order.contains(key) {
        let rest = without(order, key);
        let once = rest.push(key);
        lemma_without(order, key);
        lemma_without(rest, key);
        lemma_push_fresh(rest, key);
        assert(without(once, key) == rest) by {
            reveal(Seq::filter);
            assert(once.drop_last() =~= rest);
        }
    }
}

} // verus!
