use cache_manager::cache::{Cache, CacheError};
use cache_manager::policy::{EvictionPolicy, FifoPolicy, LruPolicy};

fn keys_of<P: EvictionPolicy<char>>(cache: &Cache<char, u32, P>) -> Vec<char> {
    let mut keys: Vec<char> = cache.get_data().keys().copied().collect();
    keys.sort();
    keys
}

#[test]
fn zero_capacity_is_refused() {
    let made = Cache::<u32, u32, FifoPolicy<u32>>::new(0, FifoPolicy::new());
    assert_eq!(made.err(), Some(CacheError::ConfigurationError));
}

#[test]
fn new_cache_is_empty() {
    let cache = Cache::<u32, u32, LruPolicy<u32>>::new(3, LruPolicy::new()).unwrap();
    assert_eq!(cache.size(), 0);
    assert_eq!(cache.capacity(), 3);
    assert!(cache.get_data().is_empty());
}

#[test]
fn fifo_evicts_oldest_on_third_insert() {
    let mut cache = Cache::new(2, FifoPolicy::new()).unwrap();
    assert_eq!(cache.insert('A', 1), Ok(None));
    assert_eq!(cache.insert('B', 2), Ok(None));
    assert_eq!(keys_of(&cache), vec!['A', 'B']);
    assert_eq!(cache.insert('C', 3), Ok(Some(1)));
    assert_eq!(keys_of(&cache), vec!['B', 'C']);
}

#[test]
fn fifo_ignores_reads() {
    let mut cache = Cache::new(2, FifoPolicy::new()).unwrap();
    cache.insert('A', 1).unwrap();
    cache.insert('B', 2).unwrap();
    assert_eq!(cache.get(&'A'), Some(&1));
    cache.insert('C', 3).unwrap();
    assert_eq!(keys_of(&cache), vec!['B', 'C']);
}

#[test]
fn lru_keeps_recently_read_key() {
    let mut cache = Cache::new(2, LruPolicy::new()).unwrap();
    cache.insert('A', 1).unwrap();
    cache.insert('B', 2).unwrap();
    assert_eq!(cache.get(&'A'), Some(&1));
    assert_eq!(cache.insert('C', 3), Ok(Some(2)));
    assert_eq!(keys_of(&cache), vec!['A', 'C']);
}

#[test]
fn empty_policy_has_no_victim() {
    let mut fifo = FifoPolicy::<u32>::new();
    assert_eq!(fifo.evict(), None);
    let mut lru = LruPolicy::<u32>::new();
    assert_eq!(lru.evict(), None);
}

#[test]
fn insert_then_get_returns_value() {
    let mut cache = Cache::new(4, LruPolicy::new()).unwrap();
    assert_eq!(cache.insert(7u64, "seven"), Ok(None));
    assert_eq!(cache.get(&7), Some(&"seven"));
    assert_eq!(cache.get(&8), None);
}

#[test]
fn repeated_reads_order_like_one_read() {
    let mut once = Cache::new(3, LruPolicy::new()).unwrap();
    let mut thrice = Cache::new(3, LruPolicy::new()).unwrap();
    for cache in [&mut once, &mut thrice] {
        cache.insert(1u32, 10u32).unwrap();
        cache.insert(2, 20).unwrap();
        cache.insert(3, 30).unwrap();
    }
    once.get(&1);
    thrice.get(&1);
    thrice.get(&1);
    thrice.get(&1);
    for cache in [&mut once, &mut thrice] {
        assert_eq!(cache.insert(4, 40), Ok(Some(20)));
        assert_eq!(cache.insert(5, 50), Ok(Some(30)));
        assert_eq!(cache.insert(6, 60), Ok(Some(10)));
    }
}

#[test]
fn lru_end_to_end() {
    let mut cache = Cache::new(3, LruPolicy::new()).unwrap();
    cache.insert(1u32, "a").unwrap();
    cache.insert(2, "b").unwrap();
    cache.insert(3, "c").unwrap();
    assert_eq!(cache.get(&1), Some(&"a"));
    assert_eq!(cache.insert(4, "d"), Ok(Some("b")));
    let mut keys: Vec<u32> = cache.get_data().keys().copied().collect();
    keys.sort();
    assert_eq!(keys, vec![1, 3, 4]);
    assert_eq!(cache.get(&2), None);
    assert_eq!(cache.size(), 3);
}

#[test]
fn stored_key_keeps_its_value() {
    let mut cache = Cache::new(3, FifoPolicy::new()).unwrap();
    cache.insert(1u32, "first").unwrap();
    cache.insert(2, "other").unwrap();
    assert_eq!(cache.insert(1, "second"), Ok(Some("first")));
    assert_eq!(cache.get(&1), Some(&"first"));
    assert_eq!(cache.size(), 2);
}

#[test]
fn full_cache_evicts_before_looking_for_the_key() {
    let mut cache = Cache::new(2, FifoPolicy::new()).unwrap();
    cache.insert(1u32, "one").unwrap();
    cache.insert(2, "two").unwrap();
    assert_eq!(cache.insert(2, "again"), Ok(Some("two")));
    assert_eq!(cache.get(&1), None);
    assert_eq!(cache.get(&2), Some(&"two"));
    assert_eq!(cache.size(), 1);
}

#[test]
fn size_never_exceeds_capacity() {
    let mut cache = Cache::new(3, LruPolicy::new()).unwrap();
    for i in 0u32..50 {
        cache.insert(i % 7, i).unwrap();
        assert!(cache.size() <= cache.capacity());
    }
}

#[test]
fn stale_policy_makes_insert_fail() {
    let mut policy = FifoPolicy::new();
    policy.on_insert(99u32);
    let mut cache = Cache::new(1, policy).unwrap();
    assert_eq!(cache.insert(1, "one"), Ok(None));
    assert_eq!(
        cache.insert(2, "two"),
        Err(CacheError::CapacityInconsistency)
    );
    assert_eq!(cache.size(), 1);
    assert_eq!(cache.get(&1), Some(&"one"));
    assert_eq!(cache.insert(2, "two"), Ok(Some("one")));
}

#[test]
fn fifo_tracks_a_key_once() {
    let mut fifo = FifoPolicy::new();
    fifo.on_insert(1u32);
    fifo.on_insert(2);
    fifo.on_insert(1);
    fifo.on_access(&1);
    assert_eq!(fifo.evict(), Some(1));
    assert_eq!(fifo.evict(), Some(2));
    assert_eq!(fifo.evict(), None);
}

#[test]
fn lru_moves_accessed_key_to_back() {
    let mut lru = LruPolicy::new();
    lru.on_insert(1u32);
    lru.on_insert(2);
    lru.on_insert(3);
    lru.on_access(&1);
    lru.on_access(&9);
    lru.on_insert(2);
    assert_eq!(lru.evict(), Some(3));
    assert_eq!(lru.evict(), Some(1));
    assert_eq!(lru.evict(), Some(2));
    assert_eq!(lru.evict(), None);
}
