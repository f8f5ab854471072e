//! Holds the trusted collection contracts to the real `heapless`
//! collections: what the wrappers in the library claim of push, pop,
//! peek and insert is exercised here directly.

use heapless::binary_heap::{BinaryHeap, Max, Min};
use heapless::FnvIndexMap;

#[test]
fn max_heap_pops_greatest_first() {
    let mut heap: BinaryHeap<usize, Max, 8> = BinaryHeap::new();
    heap.push(3).unwrap();
    heap.push(7).unwrap();
    heap.push(5).unwrap();
    heap.push(7).unwrap();
    assert_eq!(heap.peek(), Some(&7));
    assert_eq!(heap.pop(), Some(7));
    // Duplicates are distinct members: the second copy is still there.
    assert_eq!(heap.pop(), Some(7));
    assert_eq!(heap.pop(), Some(5));
    assert_eq!(heap.pop(), Some(3));
    assert_eq!(heap.pop(), None);
}

#[test]
fn min_heap_pops_smallest_first() {
    let mut heap: BinaryHeap<usize, Min, 8> = BinaryHeap::new();
    heap.push(3).unwrap();
    heap.push(7).unwrap();
    heap.push(5).unwrap();
    assert_eq!(heap.peek(), Some(&3));
    assert_eq!(heap.pop(), Some(3));
    assert_eq!(heap.pop(), Some(5));
    assert_eq!(heap.pop(), Some(7));
    assert_eq!(heap.pop(), None);
}

#[test]
fn heap_push_fails_only_when_full() {
    let mut heap: BinaryHeap<usize, Max, 4> = BinaryHeap::new();
    for v in 0..4 {
        assert!(heap.push(v).is_ok());
    }
    assert_eq!(heap.len(), 4);
    assert_eq!(heap.push(9), Err(9));
    heap.clear();
    assert_eq!(heap.len(), 0);
    assert!(heap.push(9).is_ok());
}

#[test]
fn insert_replaces_on_full_map() {
    let mut map: FnvIndexMap<usize, u32, 16> = FnvIndexMap::new();
    for k in 0..16 {
        map.insert(k, k as u32).unwrap();
    }
    assert_eq!(map.len(), 16);
    // On a present key, insert replaces in place even at capacity.
    assert_eq!(map.insert(3, 99), Ok(Some(3)));
    assert_eq!(map.get(&3), Some(&99));
    assert_eq!(map.len(), 16);
    // A new key is refused only when the map is full.
    assert!(map.insert(100, 1).is_err());
    assert_eq!(map.remove(&3), Some(99));
    assert!(map.insert(100, 1).is_ok());
}

#[test]
fn map_keys_yield_each_stored_key_once() {
    let mut map: FnvIndexMap<usize, u32, 16> = FnvIndexMap::new();
    map.insert(10, 1).unwrap();
    map.insert(20, 2).unwrap();
    map.insert(30, 3).unwrap();
    map.insert(20, 4).unwrap();
    let mut keys: Vec<usize> = map.keys().copied().collect();
    keys.sort();
    assert_eq!(keys, vec![10, 20, 30]);
}
