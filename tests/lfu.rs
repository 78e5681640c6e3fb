use imop::{Backend, Error, Memory, PutResult, LFU};

#[test]
fn lfu_get() {
    let s = Memory::new();
    let mut lfu = LFU::new(s).with_capacity(20);
    lfu.put(10, 10).unwrap();
    lfu.put(20, 30).unwrap();
    assert_eq!(lfu.get(&10), Some(10));
    assert_eq!(lfu.get(&30), None);
}

#[test]
fn peek() {
    let s = Memory::new();
    let mut lfu = LFU::new(s).with_capacity(20);
    lfu.put(10, 10).unwrap();
    lfu.put(20, 30).unwrap();
    assert_eq!(lfu.peek(&10), Some(10));
    assert_eq!(lfu.peek(&30), None);
}

#[test]
fn eviction() {
    let s = Memory::new();
    let mut lfu = LFU::new(s).with_capacity(2);
    lfu.put(1, 10).unwrap();
    lfu.put(2, 20).unwrap();
    lfu.put(3, 30).unwrap();
    assert_eq!(lfu.get(&1), None);
    assert_eq!(lfu.get(&2), Some(20));
    assert_eq!(lfu.get(&3), Some(30));
}

#[test]
fn key_frequency_update_put() {
    let s = Memory::new();
    let mut lfu = LFU::new(s).with_capacity(2);
    lfu.put(1, 10).unwrap();
    lfu.put(2, 20).unwrap();
    // the update counts as an access, so 2 is the one to go
    lfu.put(1, 30).unwrap();
    lfu.put(3, 30).unwrap();
    assert_eq!(lfu.get(&2), None);
    assert_eq!(lfu.get(&1), Some(30));
    assert_eq!(lfu.get(&3), Some(30));
}

#[test]
fn key_frequency_update_get() {
    let s = Memory::new();
    let mut lfu = LFU::new(s).with_capacity(2);
    lfu.put(1, 10).unwrap();
    lfu.put(2, 20).unwrap();
    lfu.get(&1);
    lfu.put(3, 30).unwrap();
    assert_eq!(lfu.get(&2), None);
    assert_eq!(lfu.get(&1), Some(10));
    assert_eq!(lfu.get(&3), Some(30));
}

#[test]
fn key_frequency_update_peek() {
    let s = Memory::new();
    let mut lfu = LFU::new(s).with_capacity(2);
    lfu.put(1, 10).unwrap();
    lfu.put(2, 20).unwrap();
    lfu.peek(&1);
    lfu.peek(&1);
    assert_eq!(lfu.peek(&1), Some(10));
    // peeking does not count, so 1 is still the oldest of the least used
    lfu.put(3, 30).unwrap();
    assert_eq!(lfu.get(&1), None);
    assert_eq!(lfu.get(&2), Some(20));
    assert_eq!(lfu.get(&3), Some(30));
}

#[test]
fn deletion() {
    let s = Memory::new();
    let mut lfu = LFU::new(s).with_capacity(2);
    lfu.put(1, 10).unwrap();
    lfu.put(2, 20).unwrap();
    assert_eq!(lfu.len(), 2);
    lfu.remove(&1);
    assert_eq!(lfu.len(), 1);
    assert_eq!(lfu.get(&1), None);
    lfu.put(3, 30).unwrap();
    lfu.put(4, 40).unwrap();
    assert_eq!(lfu.get(&2), None);
    assert_eq!(lfu.get(&3), Some(30));
}

#[test]
fn duplicates() {
    let s = Memory::new();
    let mut lfu = LFU::new(s).with_capacity(2);
    lfu.put(1, 10).unwrap();
    lfu.put(1, 20).unwrap();
    lfu.put(1, 30).unwrap();
    lfu.put(5, 50).unwrap();
    assert_eq!(lfu.get(&1), Some(30));
    assert_eq!(lfu.len(), 2);
}

#[test]
fn purge() {
    let s = Memory::new();
    let mut lfu = LFU::new(s).with_capacity(2);
    assert!(lfu.is_empty());

    lfu.put(1, 10).unwrap();
    assert!(!lfu.is_empty());
    assert_eq!(lfu.len(), 1);
    lfu.put(1, 20).unwrap();
    assert!(!lfu.is_empty());
    assert_eq!(lfu.len(), 1);
    lfu.put(2, 20).unwrap();
    assert!(!lfu.is_empty());
    assert_eq!(lfu.len(), 2);

    assert_eq!(lfu.get(&1), Some(20));
    assert_eq!(lfu.get(&2), Some(20));
    lfu.purge();
    assert!(lfu.is_empty());
    assert_eq!(lfu.len(), 0);
    assert_eq!(lfu.get(&1), None);
    assert_eq!(lfu.get(&2), None);
}

#[test]
fn put_results_tell_new_from_update() {
    let mut lfu = LFU::new(Memory::new());
    assert_eq!(lfu.put(1, 10), Ok(PutResult::Put));
    assert_eq!(lfu.put(1, 20), Ok(PutResult::Update));
    assert_eq!(lfu.len(), 1);
    assert_eq!(lfu.get(&1), Some(20));
}

#[test]
fn capacity_never_exceeded() {
    let mut lfu = LFU::new(Memory::new()).with_capacity(3);
    let mut k: u64 = 0;
    while k < 50 {
        lfu.put(k % 7, k).unwrap();
        if k % 3 == 0 {
            lfu.get(&(k % 5));
        }
        assert!(lfu.len() <= 3);
        k += 1;
    }
    assert_eq!(lfu.cap(), Some(3));
}

#[test]
fn unbounded_cache_keeps_everything() {
    let mut lfu = LFU::new(Memory::new());
    for k in 0..100u64 {
        lfu.put(k, k * 2).unwrap();
    }
    assert_eq!(lfu.len(), 100);
    assert_eq!(lfu.cap(), None);
    assert_eq!(lfu.peek(&42), Some(84));
}

#[test]
fn zero_capacity_rejects_new_keys() {
    let mut lfu = LFU::new(Memory::new()).with_capacity(0);
    assert_eq!(lfu.put(1, 10), Err(Error::NoCapacity));
    assert!(lfu.is_empty());
    assert_eq!(lfu.get(&1), None);
}

#[test]
fn eviction_prefers_oldest_among_equal_counts() {
    let mut lfu = LFU::new(Memory::new()).with_capacity(3);
    lfu.put(1, 1).unwrap();
    lfu.put(2, 2).unwrap();
    lfu.put(3, 3).unwrap();
    lfu.get(&1);
    lfu.get(&2);
    lfu.get(&3);
    // all three at count 2; 1 reached it first
    lfu.put(4, 4).unwrap();
    assert_eq!(lfu.peek(&1), None);
    assert_eq!(lfu.peek(&2), Some(2));
    assert_eq!(lfu.peek(&3), Some(3));
    assert_eq!(lfu.peek(&4), Some(4));
}

#[test]
fn evict_reports_the_victim() {
    let mut lfu = LFU::new(Memory::new());
    assert_eq!(lfu.evict(), None);
    lfu.put(5, 50).unwrap();
    lfu.put(6, 60).unwrap();
    lfu.get(&5);
    assert_eq!(lfu.evict(), Some(6));
    assert_eq!(lfu.evict(), Some(5));
    assert!(lfu.is_empty());
}

#[test]
fn eviction_after_removal_of_minimum() {
    let mut lfu = LFU::new(Memory::new()).with_capacity(2);
    lfu.put(1, 10).unwrap();
    lfu.get(&1);
    lfu.get(&1);
    lfu.put(2, 20).unwrap();
    lfu.get(&2);
    lfu.remove(&2);
    lfu.put(3, 30).unwrap();
    lfu.get(&3);
    lfu.get(&3);
    lfu.get(&3);
    // 1 has count 3, 3 has count 4
    lfu.put(4, 40).unwrap();
    assert_eq!(lfu.peek(&1), None);
    assert_eq!(lfu.peek(&3), Some(30));
    assert_eq!(lfu.peek(&4), Some(40));
}

#[test]
fn purge_on_empty_cache_is_a_no_op() {
    let mut lfu: LFU<Memory<u64>> = LFU::new(Memory::new()).with_capacity(2);
    lfu.purge();
    assert!(lfu.is_empty());
    assert_eq!(lfu.cap(), Some(2));
    lfu.put(1, 1).unwrap();
    assert_eq!(lfu.get(&1), Some(1));
}

#[test]
fn contains_follows_the_index() {
    let mut lfu = LFU::new(Memory::new());
    lfu.put(1, 10).unwrap();
    assert!(lfu.contains(&1));
    assert!(!lfu.contains(&2));
    assert_eq!(lfu.remove(&1), Some(10));
    assert!(!lfu.contains(&1));
    assert_eq!(lfu.remove(&1), None);
}

#[test]
fn cold_index_discovers_stored_entries() {
    let mut store = Memory::new();
    store.insert(7, 70).unwrap();
    store.insert(8, 80).unwrap();
    // a fresh policy over a store filled earlier knows no count yet
    let mut lfu = LFU::new(store).with_capacity(3);
    assert!(!lfu.contains(&7));
    assert_eq!(lfu.get(&7), Some(70));
    assert!(lfu.contains(&7));
    lfu.get(&7);
    lfu.put(9, 90).unwrap();
    // 9 is the only key at count 1 once the cache is full
    lfu.put(10, 100).unwrap();
    assert_eq!(lfu.peek(&9), None);
    assert_eq!(lfu.peek(&7), Some(70));
    assert_eq!(lfu.peek(&8), Some(80));
}

#[test]
fn memory_backend_basics() {
    let mut m = Memory::new();
    assert!(m.is_empty());
    m.insert(1, "a".to_string()).unwrap();
    m.insert(1, "b".to_string()).unwrap();
    assert_eq!(m.size(), 1);
    assert_eq!(m.fetch(1), Some("b".to_string()));
    assert_eq!(m.remove(1), Some("b".to_string()));
    assert_eq!(m.fetch(1), None);
    m.insert(2, "c".to_string()).unwrap();
    m.clear();
    assert!(m.is_empty());
}
