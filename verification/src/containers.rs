//! Trusted boundary around the bounded collections of `heapless` that
//! back each side of a book: a max-heap of bid ticks, a min-heap of ask
//! ticks, and an index map from tick to resting level.
//!
//! Each collection's contents are named by an uninterpreted model
//! function (`Multiset` for the heaps, `Map` for the index map); the
//! wrappers below state, over those names, what the `heapless` source
//! shows of each call.

use vstd::multiset::Multiset;
use vstd::prelude::*;

use crate::data_types::{PriceLevel, BOOK_CAPACITY};

verus! {

#[verifier::external_type_specification]
#[verifier::external_body]
#[verifier::reject_recursive_types(T)]
#[verifier::reject_recursive_types(K)]
pub struct ExBinaryHeap<T, K, const N: usize>(heapless::binary_heap::BinaryHeap<T, K, N>);

#[verifier::external_type_specification]
#[verifier::external_body]
pub struct ExMax(heapless::binary_heap::Max);

#[verifier::external_type_specification]
#[verifier::external_body]
pub struct ExMin(heapless::binary_heap::Min);

#[verifier::external_type_specification]
#[verifier::external_body]
#[verifier::reject_recursive_types(K)]
#[verifier::reject_recursive_types(V)]
#[verifier::reject_recursive_types(S)]
pub struct ExIndexMap<K, V, S, const N: usize>(heapless::IndexMap<K, V, S, N>);

#[verifier::external_type_specification]
#[verifier::external_body]
#[verifier::reject_recursive_types(H)]
pub struct ExBuildHasherDefault<H>(hash32::BuildHasherDefault<H>);

#[verifier::external_type_specification]
#[verifier::external_body]
pub struct ExFnvHasher(hash32::FnvHasher);

/// Max-heap holding the bid ticks of one book side.
pub type BidHeap = heapless::BinaryHeap<usize, heapless::binary_heap::Max, 65536>;

/// Min-heap holding the ask ticks of one book side.
pub type AskHeap = heapless::BinaryHeap<usize, heapless::binary_heap::Min, 65536>;

/// Index map from price tick to the level resting at that tick.
pub type LevelMap = heapless::FnvIndexMap<usize, PriceLevel, 65536>;

/// The multiset of ticks a bid heap holds.
pub uninterp spec fn bid_heap_model(h: &BidHeap) -> Multiset<usize>;

/// The multiset of ticks an ask heap holds.
pub uninterp spec fn ask_heap_model(h: &AskHeap) -> Multiset<usize>;

/// The tick-to-level map a lookup holds.
pub uninterp spec fn level_map_model(m: &LevelMap) -> Map<usize, PriceLevel>;

/// The empty tick-to-level map.
pub open spec fn empty_levels() -> Map<usize, PriceLevel> {
    Map::empty()
}

/// `v` is in `m` and no member of `m` exceeds it.
pub open spec fn is_greatest(m: Multiset<usize>, v: usize) -> bool {
    m.count(v) > 0 && forall|x: usize| m.count(x) > 0 ==> x <= v
}

/// `v` is in `m` and no member of `m` is below it.
pub open spec fn is_least(m: Multiset<usize>, v: usize) -> bool {
    m.count(v) > 0 && forall|x: usize| m.count(x) > 0 ==> x >= v
}

/// Relies on `heapless::BinaryHeap::new`: creates an empty heap.
#[verifier::external_body]
pub(crate) fn bid_heap_new() -> (h: Box<BidHeap>)
    ensures
        bid_heap_model(&h) == Multiset::<usize>::empty(),
{
    Box::new(heapless::BinaryHeap::new())
}

/// Relies on `heapless::BinaryHeap::len`: the number of items held.
#[verifier::external_body]
pub(crate) fn bid_heap_len(h: &BidHeap) -> (n: usize)
    ensures
        n == bid_heap_model(h).len(),
{
    h.len()
}

/// Relies on `heapless::BinaryHeap::push`: adds one item; it cannot fail
/// below capacity.
#[verifier::external_body]
pub(crate) fn bid_heap_push(h: &mut BidHeap, level: usize)
    requires
        bid_heap_model(old(h)).len() < BOOK_CAPACITY,
    ensures
        bid_heap_model(final(h)) == bid_heap_model(old(h)).insert(level),
{
    h.push(level).unwrap();
}

/// Relies on `heapless::BinaryHeap::pop` on a `Max` heap: removes and
/// returns the greatest item, or `None` when empty.
#[verifier::external_body]
pub(crate) fn bid_heap_pop(h: &mut BidHeap) -> (r: Option<usize>)
    ensures
        match r {
            Option::None => {
                &&& bid_heap_model(old(h)).len() == 0
                &&& bid_heap_model(final(h)) == bid_heap_model(old(h))
            },
            Option::Some(v) => {
                &&& is_greatest(bid_heap_model(old(h)), v)
                &&& bid_heap_model(final(h)) == bid_heap_model(old(h)).remove(v)
            },
        },
{
    h.pop()
}

/// Relies on `heapless::BinaryHeap::peek` on a `Max` heap: returns the
/// greatest item without removing it, or `None` when empty.
#[verifier::external_body]
pub(crate) fn bid_heap_peek(h: &BidHeap) -> (r: Option<usize>)
    ensures
        match r {
            Option::None => bid_heap_model(h).len() == 0,
            Option::Some(v) => is_greatest(bid_heap_model(h), v),
        },
{
    h.peek().copied()
}

/// Relies on `heapless::BinaryHeap::clear`: drops every item.
#[verifier::external_body]
pub(crate) fn bid_heap_clear(h: &mut BidHeap)
    ensures
        bid_heap_model(final(h)) == Multiset::<usize>::empty(),
{
    h.clear();
}

/// Relies on `heapless::BinaryHeap::new`: creates an empty heap.
#[verifier::external_body]
pub(crate) fn ask_heap_new() -> (h: Box<AskHeap>)
    ensures
        ask_heap_model(&h) == Multiset::<usize>::empty(),
{
    Box::new(heapless::BinaryHeap::new())
}

/// Relies on `heapless::BinaryHeap::len`: the number of items held.
#[verifier::external_body]
pub(crate) fn ask_heap_len(h: &AskHeap) -> (n: usize)
    ensures
        n == ask_heap_model(h).len(),
{
    h.len()
}

/// Relies on `heapless::BinaryHeap::push`: adds one item; it cannot fail
/// below capacity.
#[verifier::external_body]
pub(crate) fn ask_heap_push(h: &mut AskHeap, level: usize)
    requires
        ask_heap_model(old(h)).len() < BOOK_CAPACITY,
    ensures
        ask_heap_model(final(h)) == ask_heap_model(old(h)).insert(level),
{
    h.push(level).unwrap();
}

/// Relies on `heapless::BinaryHeap::pop` on a `Min` heap: removes and
/// returns the smallest item, or `None` when empty.
#[verifier::external_body]
pub(crate) fn ask_heap_pop(h: &mut AskHeap) -> (r: Option<usize>)
    ensures
        match r {
            Option::None => {
                &&& ask_heap_model(old(h)).len() == 0
                &&& ask_heap_model(final(h)) == ask_heap_model(old(h))
            },
            Option::Some(v) => {
                &&& is_least(ask_heap_model(old(h)), v)
                &&& ask_heap_model(final(h)) == ask_heap_model(old(h)).remove(v)
            },
        },
{
    h.pop()
}

/// Relies on `heapless::BinaryHeap::peek` on a `Min` heap: returns the
/// smallest item without removing it, or `None` when empty.
#[verifier::external_body]
pub(crate) fn ask_heap_peek(h: &AskHeap) -> (r: Option<usize>)
    ensures
        match r {
            Option::None => ask_heap_model(h).len() == 0,
            Option::Some(v) => is_least(ask_heap_model(h), v),
        },
{
    h.peek().copied()
}

/// Relies on `heapless::BinaryHeap::clear`: drops every item.
#[verifier::external_body]
pub(crate) fn ask_heap_clear(h: &mut AskHeap)
    ensures
        ask_heap_model(final(h)) == Multiset::<usize>::empty(),
{
    h.clear();
}

/// Relies on `heapless::IndexMap::new`: creates an empty map.
#[verifier::external_body]
pub(crate) fn level_map_new() -> (m: Box<LevelMap>)
    ensures
        level_map_model(&m) == empty_levels(),
{
    Box::new(heapless::FnvIndexMap::new())
}

/// Relies on `heapless::IndexMap::len`: the number of entries held.
#[verifier::external_body]
pub(crate) fn level_map_len(m: &LevelMap) -> (n: usize)
    ensures
        n == level_map_model(m).dom().len(),
{
    m.len()
}

/// Relies on `heapless::IndexMap::insert`: it replaces in place on a
/// present key (even at capacity), and stores a new pair while the map
/// holds at most `N - 2` entries. The very last slot is kept free: the
/// map's packed position encoding (a 16-bit hash and a 16-bit entry
/// index folded into a nonzero word) does not admit entry index
/// `N - 1` for every hash at `N = 65536`.
#[verifier::external_body]
pub(crate) fn level_map_insert(m: &mut LevelMap, level: usize, entry: PriceLevel)
    requires
        level_map_model(old(m)).dom().contains(level) || level_map_model(old(m)).dom().len()
            < BOOK_CAPACITY - 1,
    ensures
        level_map_model(final(m)) == level_map_model(old(m)).insert(level, entry),
{
    m.insert(level, entry).unwrap();
}

/// Relies on `heapless::IndexMap::remove`: takes the entry out and
/// returns it, or `None` for an absent key.
#[verifier::external_body]
pub(crate) fn level_map_remove(m: &mut LevelMap, level: usize) -> (r: Option<PriceLevel>)
    ensures
        level_map_model(final(m)) == level_map_model(old(m)).remove(level),
        r == (if level_map_model(old(m)).dom().contains(level) {
            Option::Some(level_map_model(old(m))[level])
        } else {
            Option::None::<PriceLevel>
        }),
{
    m.remove(&level)
}

/// Relies on `heapless::IndexMap::get`: returns the entry at the key, if
/// any.
#[verifier::external_body]
pub(crate) fn level_map_get(m: &LevelMap, level: usize) -> (r: Option<PriceLevel>)
    ensures
        r == (if level_map_model(m).dom().contains(level) {
            Option::Some(level_map_model(m)[level])
        } else {
            Option::None::<PriceLevel>
        }),
{
    m.get(&level).copied()
}

/// Relies on `heapless::IndexMap::contains_key`.
#[verifier::external_body]
pub(crate) fn level_map_contains(m: &LevelMap, level: usize) -> (r: bool)
    ensures
        r == level_map_model(m).dom().contains(level),
{
    m.contains_key(&level)
}

/// Relies on `heapless::IndexMap::clear`: drops every entry.
#[verifier::external_body]
pub(crate) fn level_map_clear(m: &mut LevelMap)
    ensures
        level_map_model(final(m)) == empty_levels(),
{
    m.clear();
}

/// Relies on `heapless::IndexMap::keys`: yields each stored key exactly
/// once.
#[verifier::external_body]
pub(crate) fn level_map_keys(m: &LevelMap) -> (r: Vec<usize>)
    ensures
        r@.len() == level_map_model(m).dom().len(),
        forall|k: usize| r@.contains(k) <==> level_map_model(m).dom().contains(k),
        forall|i: int, j: int| 0 <= i < j < r@.len() ==> r@[i] != r@[j],
{
    m.keys().copied().collect()
}

} // verus!
