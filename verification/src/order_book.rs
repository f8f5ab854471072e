//! The per-exchange order book: an index map per side as the
//! authoritative store, a lazy heap per side for O(log n) best-price
//! retrieval, and the pressure / theoretical-price statistics.

use vstd::multiset::Multiset;
use vstd::prelude::*;

use crate::containers::{
    ask_heap_clear, ask_heap_len, ask_heap_model, ask_heap_new, ask_heap_peek, ask_heap_pop,
    ask_heap_push, bid_heap_clear, bid_heap_len, bid_heap_model, bid_heap_new, bid_heap_peek,
    bid_heap_pop, bid_heap_push, is_greatest, is_least, level_map_contains, level_map_get,
    level_map_insert, level_map_keys, level_map_len, level_map_model, level_map_new,
    level_map_remove, AskHeap, BidHeap, LevelMap,
};
use crate::data_types::{
    valid_tick, Change, Match, PriceLevel, Side, Snapshot, Update, BOOK_CAPACITY, MAX_AMOUNT, MAX_UPDATE_CHANGES,
    MAX_TICK,
};

verus! {

broadcast use vstd::multiset::group_multiset_axioms;

/// Why an update was rejected: the post-update book violated the spread
/// invariant, which signals a protocol-level desync with the exchange.
#[derive(Clone, Copy, Debug, PartialEq, Eq, Structural)]
pub enum BookError {
    Desync,
}

/// Every entry of a side's lookup is keyed by its own level, holds a
/// positive amount, and stays inside the engine's bounds.
pub open spec fn side_valid(m: Map<usize, PriceLevel>) -> bool {
    &&& m.dom().finite()
    &&& m.dom().len() <= BOOK_CAPACITY
    &&& forall|k: usize|
        #[trigger] m.dom().contains(k) ==> m[k].level == k && valid_tick(k) && 0 < m[k].amount
            < MAX_AMOUNT
}

/// Every key of the lookup is present in the heap (the heap may hold
/// stale extras: lazy deletion).
pub open spec fn heap_covers(h: Multiset<usize>, m: Map<usize, PriceLevel>) -> bool {
    forall|k: usize| #[trigger] m.dom().contains(k) ==> h.count(k) > 0
}

/// Well-formedness of the bid side: valid entries, a covering bounded
/// heap, and a cached best that is the greatest lookup key.
pub open spec fn bid_side_wf(h: Multiset<usize>, m: Map<usize, PriceLevel>, best: Option<
    usize,
>) -> bool {
    &&& side_valid(m)
    &&& heap_covers(h, m)
    &&& h.len() <= BOOK_CAPACITY
    &&& match best {
        Option::None => m.dom().len() == 0 && h.len() == 0,
        Option::Some(b) => m.dom().contains(b) && (forall|x: usize|
            #[trigger] h.count(x) > 0 ==> x <= b),
    }
}

/// Well-formedness of the ask side, mirror of `bid_side_wf`.
pub open spec fn ask_side_wf(h: Multiset<usize>, m: Map<usize, PriceLevel>, best: Option<
    usize,
>) -> bool {
    &&& side_valid(m)
    &&& heap_covers(h, m)
    &&& h.len() <= BOOK_CAPACITY
    &&& match best {
        Option::None => m.dom().len() == 0 && h.len() == 0,
        Option::Some(b) => m.dom().contains(b) && (forall|x: usize|
            #[trigger] h.count(x) > 0 ==> x >= b),
    }
}

/// One limit order book for a single exchange and trading pair.
pub struct OrderBook {
    pub name: String,
    pub pair: String,
    pub bids: Box<BidHeap>,
    pub asks: Box<AskHeap>,
    pub bid_lookup: Box<LevelMap>,
    pub ask_lookup: Box<LevelMap>,
    pub best_bid: Option<usize>,
    pub best_ask: Option<usize>,
    pub avg_bid: u64,
    pub tot_bid: u128,
    pub num_bids: u64,
    pub avg_ask: u64,
    pub tot_ask: u128,
    pub num_asks: u64,
    pub pressure: usize,
    pub theoretical_price: usize,
    pub count: i64,
}

/// The running mean: zero while nothing was observed.
pub open spec fn avg_spec(tot: int, num: int) -> int {
    if num == 0 {
        0
    } else {
        tot / num
    }
}

impl OrderBook {
    /// The bid lookup's contents.
    pub open spec fn bid_map(self) -> Map<usize, PriceLevel> {
        level_map_model(&self.bid_lookup)
    }

    /// The ask lookup's contents.
    pub open spec fn ask_map(self) -> Map<usize, PriceLevel> {
        level_map_model(&self.ask_lookup)
    }

    /// The bid heap's contents.
    pub open spec fn bid_heap(self) -> Multiset<usize> {
        bid_heap_model(&self.bids)
    }

    /// The ask heap's contents.
    pub open spec fn ask_heap(self) -> Multiset<usize> {
        ask_heap_model(&self.asks)
    }

    /// The statistics fields are coherent and bounded.
    pub open spec fn stats_wf(self) -> bool {
        &&& self.tot_bid <= self.num_bids as int * (MAX_AMOUNT - 1) as int
        &&& self.tot_ask <= self.num_asks as int * (MAX_AMOUNT - 1) as int
        &&& self.avg_bid == avg_spec(self.tot_bid as int, self.num_bids as int)
        &&& self.avg_ask == avg_spec(self.tot_ask as int, self.num_asks as int)
        &&& self.pressure < MAX_TICK
    }

    /// Well-formedness of the whole book; established by `new` and
    /// `init` and preserved by every operation.
    pub open spec fn wf(self) -> bool {
        &&& bid_side_wf(self.bid_heap(), self.bid_map(), self.best_bid)
        &&& ask_side_wf(self.ask_heap(), self.ask_map(), self.best_ask)
        &&& self.stats_wf()
        &&& 0 <= self.count
    }

    /// An empty book with both sides unset.
    pub fn new(name: String, pair: String) -> (book: OrderBook)
        ensures
            book.wf(),
            book.bid_map() == Map::<usize, PriceLevel>::empty() && book.ask_map() == Map::<
                usize,
                PriceLevel,
            >::empty(),
            book.best_bid is None && book.best_ask is None,
            book.avg_bid == 0 && book.avg_ask == 0 && book.tot_bid == 0 && book.tot_ask == 0,
            book.num_bids == 0 && book.num_asks == 0,
            book.pressure == 0 && book.theoretical_price == 0 && book.count == 0,
            book.name == name && book.pair == pair,
    {
        let book = OrderBook {
            name,
            pair,
            bids: bid_heap_new(),
            asks: ask_heap_new(),
            bid_lookup: level_map_new(),
            ask_lookup: level_map_new(),
            best_bid: Option::None,
            best_ask: Option::None,
            avg_bid: 0,
            tot_bid: 0,
            num_bids: 0,
            avg_ask: 0,
            tot_ask: 0,
            num_asks: 0,
            pressure: 0,
            theoretical_price: 0,
            count: 0,
        };
        book
    }

    /// Number of levels resting on the bid side.
    pub fn bid_depth(&self) -> (n: usize)
        ensures
            n == self.bid_map().dom().len(),
    {
        level_map_len(&self.bid_lookup)
    }

    /// Number of levels resting on the ask side.
    pub fn ask_depth(&self) -> (n: usize)
        ensures
            n == self.ask_map().dom().len(),
    {
        level_map_len(&self.ask_lookup)
    }

    /// The level resting at a tick on the bid side, if any.
    pub fn bid_level(&self, level: usize) -> (r: Option<PriceLevel>)
        ensures
            r == (if self.bid_map().dom().contains(level) {
                Option::Some(self.bid_map()[level])
            } else {
                Option::None::<PriceLevel>
            }),
    {
        level_map_get(&self.bid_lookup, level)
    }

    /// The level resting at a tick on the ask side, if any.
    pub fn ask_level(&self, level: usize) -> (r: Option<PriceLevel>)
        ensures
            r == (if self.ask_map().dom().contains(level) {
                Option::Some(self.ask_map()[level])
            } else {
                Option::None::<PriceLevel>
            }),
    {
        level_map_get(&self.ask_lookup, level)
    }

    /// The tick at the tip of the bid heap; equal to the cached best
    /// bid on a well-formed book.
    pub fn bid_tip(&self) -> (r: Option<usize>)
        requires
            self.wf(),
        ensures
            r == self.best_bid,
    {
        let r = bid_heap_peek(&self.bids);
        proof {
            match r {
                Option::None => {
                    assert(self.bid_heap().len() == 0);
                    if self.best_bid is Some {
                        let b = self.best_bid->0;
                        assert(self.bid_map().dom().contains(b));
                        assert(self.bid_heap().count(b) > 0);
                    }
                },
                Option::Some(v) => {
                    let b = self.best_bid->0;
                    assert(self.bid_heap().count(v) > 0);
                    assert(self.bid_map().dom().contains(b));
                    assert(self.bid_heap().count(b) > 0);
                    assert(v <= b);
                    assert(b <= v);
                },
            }
        }
        r
    }

    /// The tick at the tip of the ask heap; equal to the cached best
    /// ask on a well-formed book.
    pub fn ask_tip(&self) -> (r: Option<usize>)
        requires
            self.wf(),
        ensures
            r == self.best_ask,
    {
        let r = ask_heap_peek(&self.asks);
        proof {
            match r {
                Option::None => {
                    assert(self.ask_heap().len() == 0);
                    if self.best_ask is Some {
                        let b = self.best_ask->0;
                        assert(self.ask_map().dom().contains(b));
                        assert(self.ask_heap().count(b) > 0);
                    }
                },
                Option::Some(v) => {
                    let b = self.best_ask->0;
                    assert(self.ask_heap().count(v) > 0);
                    assert(self.ask_map().dom().contains(b));
                    assert(self.ask_heap().count(b) > 0);
                    assert(v >= b);
                    assert(b >= v);
                },
            }
        }
        r
    }
}

/// The sequence tag a change receives: the book's running count,
/// positive for buys and negative for sells.
pub open spec fn change_seq_tag(side: Side, count_after: int) -> int {
    match side {
        Side::Buy => count_after,
        Side::Sell => -count_after,
    }
}

/// One change applied to a side's map: a zero amount deletes the level,
/// any other amount stores it with the given sequence tag.
pub open spec fn apply_change_map(m: Map<usize, PriceLevel>, c: Change, count_after: int) -> Map<
    usize,
    PriceLevel,
> {
    if c.price_level.amount == 0 {
        m.remove(c.price_level.level)
    } else {
        m.insert(
            c.price_level.level,
            (PriceLevel {
                level: c.price_level.level,
                amount: c.price_level.amount,
                sequence: change_seq_tag(c.side, count_after) as i64,
            }),
        )
    }
}

/// A whole update applied to both side maps, counting each change;
/// the i-th change (0-based) carries tag `±(count0 + i + 1)`.
pub open spec fn apply_changes(
    bm: Map<usize, PriceLevel>,
    am: Map<usize, PriceLevel>,
    cs: Seq<Change>,
    count0: int,
) -> (Map<usize, PriceLevel>, Map<usize, PriceLevel>)
    decreases cs.len(),
{
    if cs.len() == 0 {
        (bm, am)
    } else {
        let prev = apply_changes(bm, am, cs.drop_last(), count0);
        let c = cs.last();
        match c.side {
            Side::Buy => (apply_change_map(prev.0, c, count0 + cs.len()), prev.1),
            Side::Sell => (prev.0, apply_change_map(prev.1, c, count0 + cs.len())),
        }
    }
}

/// No prefix of the update fills a side past its capacity: after each
/// inserting change the touched side holds fewer than
/// `BOOK_CAPACITY` levels. Deletes are always in bounds.
pub open spec fn changes_within_capacity(
    bm: Map<usize, PriceLevel>,
    am: Map<usize, PriceLevel>,
    cs: Seq<Change>,
    count0: int,
) -> bool
    decreases cs.len(),
{
    if cs.len() == 0 {
        true
    } else {
        let c = cs.last();
        let post = apply_changes(bm, am, cs, count0);
        &&& changes_within_capacity(bm, am, cs.drop_last(), count0)
        &&& (c.price_level.amount != 0 ==> (match c.side {
            Side::Buy => post.0.dom().len() < BOOK_CAPACITY,
            Side::Sell => post.1.dom().len() < BOOK_CAPACITY,
        }))
    }
}

/// Every change of the update carries an in-range tick and amount.
pub open spec fn changes_valid(cs: Seq<Change>) -> bool {
    forall|i: int| 0 <= i < cs.len() ==> (#[trigger] cs[i]).price_level.valid()
}

/// Every change of the update works on the buy side.
pub open spec fn all_buys(cs: Seq<Change>) -> bool {
    forall|i: int| 0 <= i < cs.len() ==> (#[trigger] cs[i]).side is Buy
}

/// Every change of the update works on the sell side.
pub open spec fn all_sells(cs: Seq<Change>) -> bool {
    forall|i: int| 0 <= i < cs.len() ==> (#[trigger] cs[i]).side is Sell
}

/// The capacity condition of `changes_within_capacity` holds at each
/// prefix, not only at the last change.
proof fn lemma_capacity_at(
    bm: Map<usize, PriceLevel>,
    am: Map<usize, PriceLevel>,
    cs: Seq<Change>,
    count0: int,
    i: int,
)
    requires
        changes_within_capacity(bm, am, cs, count0),
        0 <= i < cs.len(),
    ensures
        ({
            let post = apply_changes(bm, am, cs.take(i + 1), count0);
            cs[i].price_level.amount != 0 ==> (match cs[i].side {
                Side::Buy => post.0.dom().len() < BOOK_CAPACITY,
                Side::Sell => post.1.dom().len() < BOOK_CAPACITY,
            })
        }),
    decreases cs.len(),
{
    if i == cs.len() - 1 {
        assert(cs.take(i + 1) =~= cs);
    } else {
        let prev = cs.drop_last();
        assert(prev.take(i + 1) =~= cs.take(i + 1));
        lemma_capacity_at(bm, am, prev, count0, i);
    }
}

/// Applies one change to a side's lookup: a zero amount removes the
/// level, any other amount stores `{level, amount, seq}`.
fn update_lookup(lookup: &mut LevelMap, level: usize, amount: u64, seq: i64)
    requires
        amount != 0 ==> level_map_model(old(lookup)).dom().contains(level) || level_map_model(
            old(lookup),
        ).dom().len() < BOOK_CAPACITY - 1,
    ensures
        amount == 0 ==> level_map_model(final(lookup)) == level_map_model(old(lookup)).remove(
            level,
        ),
        amount != 0 ==> level_map_model(final(lookup)) == level_map_model(old(lookup)).insert(
            level,
            (PriceLevel { level, amount, sequence: seq }),
        ),
{
    if amount == 0 {
        if level_map_contains(lookup, level) {
            let _ = level_map_remove(lookup, level);
        } else {
            proof {
                assert(level_map_model(lookup).remove(level) =~= level_map_model(lookup));
            }
        }
    } else {
        level_map_insert(lookup, level, PriceLevel { level, amount, sequence: seq });
    }
}

/// Compaction: rebuilds the bid heap to hold exactly the lookup's keys,
/// one copy each; afterwards the heap's size equals the lookup's size.
pub fn rebuild_bid_heap(lookup: &LevelMap, heap: &mut BidHeap)
    requires
        side_valid(level_map_model(lookup)),
    ensures
        forall|k: usize|
            level_map_model(lookup).dom().contains(k) ==> bid_heap_model(final(heap)).count(k)
                == 1,
        forall|x: usize|
            bid_heap_model(final(heap)).count(x) > 0 ==> level_map_model(lookup).dom().contains(x),
        bid_heap_model(final(heap)).len() == level_map_model(lookup).dom().len(),
{
    let ghost m = level_map_model(lookup);
    bid_heap_clear(heap);
    let keys = level_map_keys(lookup);
    let n = keys.len();
    let mut i: usize = 0;
    while i < n
        invariant
            i <= n,
            n == keys@.len(),
            m == level_map_model(lookup),
            side_valid(m),
            keys@.len() == m.dom().len(),
            forall|k: usize| keys@.contains(k) <==> m.dom().contains(k),
            forall|a: int, b: int| 0 <= a < b < keys@.len() ==> keys@[a] != keys@[b],
            bid_heap_model(heap).len() == i,
            forall|j: int| 0 <= j < i ==> bid_heap_model(heap).count(keys@[j]) == 1,
            forall|x: usize| bid_heap_model(heap).count(x) > 0 ==> keys@.take(i as int).contains(x),
        decreases n - i,
    {
        let ghost pre = bid_heap_model(heap);
        proof {
            assert(!keys@.take(i as int).contains(keys@[i as int]));
            assert(pre.count(keys@[i as int]) == 0);
        }
        bid_heap_push(heap, keys[i]);
        proof {
            assert forall|x: usize| bid_heap_model(heap).count(x) > 0 implies keys@.take(
                i + 1,
            ).contains(x) by {
                let tk = keys@.take(i as int);
                let tk1 = keys@.take(i + 1);
                if x == keys@[i as int] {
                    assert(tk1[i as int] == x);
                    assert(tk1.contains(x));
                } else {
                    assert(pre.count(x) > 0);
                    assert(tk.contains(x));
                    let j = choose|j: int| 0 <= j < tk.len() && tk[j] == x;
                    assert(tk1[j] == x);
                    assert(tk1.contains(x));
                }
            }
        }
        i += 1;
    }
    proof {
        assert forall|k: usize| m.dom().contains(k) implies bid_heap_model(heap).count(k) == 1 by {
            assert(keys@.contains(k));
            let j = choose|j: int| 0 <= j < keys@.len() && keys@[j] == k;
        }
        assert forall|x: usize| bid_heap_model(heap).count(x) > 0 implies m.dom().contains(x) by {
            assert(keys@.take(n as int) =~= keys@);
            assert(keys@.contains(x));
        }
    }
}

/// Heap maintenance for the bid side after the lookup has absorbed a
/// change at `level`: compacts a full heap, lazily pops stale ticks
/// from the tip, and pushes `level` when the change was an insert.
/// Returns (as ghost data) the heap's new greatest tick, which is a
/// lookup key — the tip is never stale.
fn update_bid_heap(lookup: &LevelMap, heap: &mut BidHeap, level: usize, amount: u64) -> (tip:
    Ghost<Option<usize>>)
    requires
        side_valid(level_map_model(lookup)),
        amount != 0 ==> level_map_model(lookup).dom().contains(level) && level_map_model(
            lookup,
        ).dom().len() < BOOK_CAPACITY,
        amount == 0 ==> !level_map_model(lookup).dom().contains(level),
        heap_covers(bid_heap_model(old(heap)), level_map_model(lookup).remove(level)),
        bid_heap_model(old(heap)).len() <= BOOK_CAPACITY,
    ensures
        heap_covers(bid_heap_model(final(heap)), level_map_model(lookup)),
        bid_heap_model(final(heap)).len() <= BOOK_CAPACITY,
        bid_heap_model(old(heap)).len() >= BOOK_CAPACITY ==> bid_heap_model(final(heap)).len()
            <= level_map_model(lookup).dom().len() + 1,
        match tip@ {
            Option::None => bid_heap_model(final(heap)).len() == 0 && level_map_model(
                lookup,
            ).dom().len() == 0,
            Option::Some(t) => is_greatest(bid_heap_model(final(heap)), t) && level_map_model(
                lookup,
            ).dom().contains(t),
        },
{
    let ghost m = level_map_model(lookup);
    if bid_heap_len(heap) >= BOOK_CAPACITY {
        rebuild_bid_heap(lookup, heap);
        proof {
            assert forall|k: usize| m.remove(level).dom().contains(k) implies bid_heap_model(
                heap,
            ).count(k) > 0 by {
                assert(m.dom().contains(k));
            }
        }
    }
    let ghost cap0 = bid_heap_model(heap).len();
    let ghost mut loop_tip: Option<usize> = Option::None;
    loop
        invariant
            m == level_map_model(lookup),
            side_valid(m),
            heap_covers(bid_heap_model(heap), m.remove(level)),
            bid_heap_model(heap).len() <= cap0,
            cap0 <= BOOK_CAPACITY,
            amount != 0 ==> cap0 < BOOK_CAPACITY,
        ensures
            m == level_map_model(lookup),
            heap_covers(bid_heap_model(heap), m.remove(level)),
            bid_heap_model(heap).len() <= cap0,
            cap0 <= BOOK_CAPACITY,
            amount != 0 ==> cap0 < BOOK_CAPACITY,
            match loop_tip {
                Option::None => bid_heap_model(heap).len() == 0,
                Option::Some(t) => is_greatest(bid_heap_model(heap), t) && m.dom().contains(t),
            },
        decreases bid_heap_model(heap).len(),
    {
        let top = bid_heap_peek(heap);
        match top {
            Option::None => {
                proof {
                    loop_tip = Option::None;
                }
                break ;
            },
            Option::Some(t) => {
                if level_map_contains(lookup, t) {
                    proof {
                        loop_tip = Option::Some(t);
                    }
                    break ;
                }
                let ghost pre = bid_heap_model(heap);
                let _ = bid_heap_pop(heap);
                proof {
                    assert forall|k: usize| m.remove(level).dom().contains(k) implies
                        bid_heap_model(heap).count(k) > 0 by {
                        assert(pre.count(k) > 0);
                        assert(k != t);
                    }
                }
            },
        }
    }
    if amount != 0 {
        let ghost pre = bid_heap_model(heap);
        bid_heap_push(heap, level);
        proof {
            assert forall|k: usize| m.dom().contains(k) implies bid_heap_model(heap).count(k)
                > 0 by {
                if k != level {
                    assert(m.remove(level).dom().contains(k));
                    assert(pre.count(k) > 0);
                }
            }
            match loop_tip {
                Option::None => {
                    assert(pre.len() == 0);
                    assert forall|x: usize| bid_heap_model(heap).count(x) > 0 implies x
                        <= level by {
                        if x != level {
                            assert(pre.count(x) > 0);
                        }
                    }
                    loop_tip = Option::Some(level);
                },
                Option::Some(t) => {
                    let hi = if t < level {
                        level
                    } else {
                        t
                    };
                    assert forall|x: usize| bid_heap_model(heap).count(x) > 0 implies x <= hi by {
                        if x != level {
                            assert(pre.count(x) > 0);
                        }
                    }
                    assert(bid_heap_model(heap).count(hi) > 0);
                    loop_tip = Option::Some(hi);
                },
            }
        }
    } else {
        proof {
            assert(m.remove(level) =~= m);
            if loop_tip is None {
                if m.dom().len() != 0 {
                    let k = m.dom().choose();
                    assert(m.dom().contains(k));
                    assert(bid_heap_model(heap).count(k) > 0);
                }
            }
        }
    }
    Ghost(loop_tip)
}

/// Heap maintenance for the ask side, mirror of `update_bid_heap`.
fn update_ask_heap(lookup: &LevelMap, heap: &mut AskHeap, level: usize, amount: u64) -> (tip:
    Ghost<Option<usize>>)
    requires
        side_valid(level_map_model(lookup)),
        amount != 0 ==> level_map_model(lookup).dom().contains(level) && level_map_model(
            lookup,
        ).dom().len() < BOOK_CAPACITY,
        amount == 0 ==> !level_map_model(lookup).dom().contains(level),
        heap_covers(ask_heap_model(old(heap)), level_map_model(lookup).remove(level)),
        ask_heap_model(old(heap)).len() <= BOOK_CAPACITY,
    ensures
        heap_covers(ask_heap_model(final(heap)), level_map_model(lookup)),
        ask_heap_model(final(heap)).len() <= BOOK_CAPACITY,
        ask_heap_model(old(heap)).len() >= BOOK_CAPACITY ==> ask_heap_model(final(heap)).len()
            <= level_map_model(lookup).dom().len() + 1,
        match tip@ {
            Option::None => ask_heap_model(final(heap)).len() == 0 && level_map_model(
                lookup,
            ).dom().len() == 0,
            Option::Some(t) => is_least(ask_heap_model(final(heap)), t) && level_map_model(
                lookup,
            ).dom().contains(t),
        },
{
    let ghost m = level_map_model(lookup);
    if ask_heap_len(heap) >= BOOK_CAPACITY {
        rebuild_ask_heap(lookup, heap);
        proof {
            assert forall|k: usize| m.remove(level).dom().contains(k) implies ask_heap_model(
                heap,
            ).count(k) > 0 by {
                assert(m.dom().contains(k));
            }
        }
    }
    let ghost cap0 = ask_heap_model(heap).len();
    let ghost mut loop_tip: Option<usize> = Option::None;
    loop
        invariant
            m == level_map_model(lookup),
            side_valid(m),
            heap_covers(ask_heap_model(heap), m.remove(level)),
            ask_heap_model(heap).len() <= cap0,
            cap0 <= BOOK_CAPACITY,
            amount != 0 ==> cap0 < BOOK_CAPACITY,
        ensures
            m == level_map_model(lookup),
            heap_covers(ask_heap_model(heap), m.remove(level)),
            ask_heap_model(heap).len() <= cap0,
            cap0 <= BOOK_CAPACITY,
            amount != 0 ==> cap0 < BOOK_CAPACITY,
            match loop_tip {
                Option::None => ask_heap_model(heap).len() == 0,
                Option::Some(t) => is_least(ask_heap_model(heap), t) && m.dom().contains(t),
            },
        decreases ask_heap_model(heap).len(),
    {
        let top = ask_heap_peek(heap);
        match top {
            Option::None => {
                proof {
                    loop_tip = Option::None;
                }
                break ;
            },
            Option::Some(t) => {
                if level_map_contains(lookup, t) {
                    proof {
                        loop_tip = Option::Some(t);
                    }
                    break ;
                }
                let ghost pre = ask_heap_model(heap);
                let _ = ask_heap_pop(heap);
                proof {
                    assert forall|k: usize| m.remove(level).dom().contains(k) implies
                        ask_heap_model(heap).count(k) > 0 by {
                        assert(pre.count(k) > 0);
                        assert(k != t);
                    }
                }
            },
        }
    }
    if amount != 0 {
        let ghost pre = ask_heap_model(heap);
        ask_heap_push(heap, level);
        proof {
            assert forall|k: usize| m.dom().contains(k) implies ask_heap_model(heap).count(k)
                > 0 by {
                if k != level {
                    assert(m.remove(level).dom().contains(k));
                    assert(pre.count(k) > 0);
                }
            }
            match loop_tip {
                Option::None => {
                    assert(pre.len() == 0);
                    assert forall|x: usize| ask_heap_model(heap).count(x) > 0 implies x
                        >= level by {
                        if x != level {
                            assert(pre.count(x) > 0);
                        }
                    }
                    loop_tip = Option::Some(level);
                },
                Option::Some(t) => {
                    let lo = if level < t {
                        level
                    } else {
                        t
                    };
                    assert forall|x: usize| ask_heap_model(heap).count(x) > 0 implies x >= lo by {
                        if x != level {
                            assert(pre.count(x) > 0);
                        }
                    }
                    assert(ask_heap_model(heap).count(lo) > 0);
                    loop_tip = Option::Some(lo);
                },
            }
        }
    } else {
        proof {
            assert(m.remove(level) =~= m);
            if loop_tip is None {
                if m.dom().len() != 0 {
                    let k = m.dom().choose();
                    assert(m.dom().contains(k));
                    assert(ask_heap_model(heap).count(k) > 0);
                }
            }
        }
    }
    Ghost(loop_tip)
}

/// The lookup map a snapshot side produces: later entries at the same
/// level replace earlier ones.
pub open spec fn snapshot_side_map(s: Seq<PriceLevel>) -> Map<usize, PriceLevel>
    decreases s.len(),
{
    if s.len() == 0 {
        Map::empty()
    } else {
        snapshot_side_map(s.drop_last()).insert(s.last().level, s.last())
    }
}

/// The multiset of ticks a snapshot side pushes into its heap.
pub open spec fn levels_multiset(s: Seq<PriceLevel>) -> Multiset<usize>
    decreases s.len(),
{
    if s.len() == 0 {
        Multiset::empty()
    } else {
        levels_multiset(s.drop_last()).insert(s.last().level)
    }
}

/// A snapshot side the engine accepts: bounded (one below the lookup's
/// nominal capacity, whose last slot stays free), with in-range ticks
/// and strictly positive amounts.
pub open spec fn snapshot_side_ok(s: Seq<PriceLevel>) -> bool {
    &&& s.len() < BOOK_CAPACITY
    &&& forall|i: int| 0 <= i < s.len() ==> (#[trigger] s[i]).valid() && s[i].amount > 0
}

/// The store a valid snapshot side builds is itself valid, its heap
/// covers its map, every heap tick is a map key, and the sizes are
/// bounded by the snapshot's length.
proof fn lemma_snapshot_side_ok(s: Seq<PriceLevel>)
    requires
        snapshot_side_ok(s),
    ensures
        side_valid(snapshot_side_map(s)),
        heap_covers(levels_multiset(s), snapshot_side_map(s)),
        forall|x: usize|
            levels_multiset(s).count(x) > 0 ==> snapshot_side_map(s).dom().contains(x),
        levels_multiset(s).len() == s.len(),
        snapshot_side_map(s).dom().len() <= s.len(),
    decreases s.len(),
{
    if s.len() == 0 {
    } else {
        let prev = s.drop_last();
        assert(snapshot_side_ok(prev)) by {
            assert(forall|i: int| 0 <= i < prev.len() ==> prev[i] == s[i]);
        }
        lemma_snapshot_side_ok(prev);
        let pm = snapshot_side_map(prev);
        let m = snapshot_side_map(s);
        let key = s.last().level;
        assert(s.last().valid() && s.last().amount > 0);
        assert(m.dom() =~= pm.dom().insert(key));
        assert forall|k: usize| #[trigger] m.dom().contains(k) implies m[k].level == k
            && valid_tick(k) && 0 < m[k].amount < MAX_AMOUNT by {
            if k != key {
                assert(pm.dom().contains(k));
            }
        }
        assert forall|k: usize| #[trigger] m.dom().contains(k) implies levels_multiset(s).count(k)
            > 0 by {
            if k != key {
                assert(pm.dom().contains(k));
                assert(levels_multiset(prev).count(k) > 0);
            }
        }
        assert forall|x: usize| levels_multiset(s).count(x) > 0 implies m.dom().contains(x) by {
            if x != key {
                assert(levels_multiset(prev).count(x) > 0);
                assert(pm.dom().contains(x));
            }
        }
    }
}

/// Clears the bid side and bulk-loads a snapshot into its lookup and
/// heap.
fn init_bid_side(lookup: &mut LevelMap, heap: &mut BidHeap, levels: &Vec<PriceLevel>)
    requires
        snapshot_side_ok(levels@),
    ensures
        level_map_model(final(lookup)) == snapshot_side_map(levels@),
        bid_heap_model(final(heap)) == levels_multiset(levels@),
{
    crate::containers::level_map_clear(lookup);
    bid_heap_clear(heap);
    let n = levels.len();
    let mut i: usize = 0;
    while i < n
        invariant
            i <= n,
            n == levels@.len(),
            snapshot_side_ok(levels@),
            level_map_model(lookup) == snapshot_side_map(levels@.take(i as int)),
            bid_heap_model(heap) == levels_multiset(levels@.take(i as int)),
            bid_heap_model(heap).len() == i,
            level_map_model(lookup).dom().len() <= i,
        decreases n - i,
    {
        let pl = levels[i];
        proof {
            lemma_snapshot_side_ok(levels@.take(i as int));
        }
        level_map_insert(lookup, pl.level, pl);
        bid_heap_push(heap, pl.level);
        proof {
            assert(levels@.take(i + 1).drop_last() =~= levels@.take(i as int));
            assert(levels@.take(i + 1).last() == levels@[i as int]);
            assert(level_map_model(lookup).dom() =~= snapshot_side_map(
                levels@.take(i as int),
            ).dom().insert(pl.level));
        }
        i += 1;
    }
    proof {
        assert(levels@.take(n as int) =~= levels@);
    }
}

/// Clears the ask side and bulk-loads a snapshot into its lookup and
/// heap.
fn init_ask_side(lookup: &mut LevelMap, heap: &mut AskHeap, levels: &Vec<PriceLevel>)
    requires
        snapshot_side_ok(levels@),
    ensures
        level_map_model(final(lookup)) == snapshot_side_map(levels@),
        ask_heap_model(final(heap)) == levels_multiset(levels@),
{
    crate::containers::level_map_clear(lookup);
    ask_heap_clear(heap);
    let n = levels.len();
    let mut i: usize = 0;
    while i < n
        invariant
            i <= n,
            n == levels@.len(),
            snapshot_side_ok(levels@),
            level_map_model(lookup) == snapshot_side_map(levels@.take(i as int)),
            ask_heap_model(heap) == levels_multiset(levels@.take(i as int)),
            ask_heap_model(heap).len() == i,
            level_map_model(lookup).dom().len() <= i,
        decreases n - i,
    {
        let pl = levels[i];
        proof {
            lemma_snapshot_side_ok(levels@.take(i as int));
        }
        level_map_insert(lookup, pl.level, pl);
        ask_heap_push(heap, pl.level);
        proof {
            assert(levels@.take(i + 1).drop_last() =~= levels@.take(i as int));
            assert(levels@.take(i + 1).last() == levels@[i as int]);
            assert(level_map_model(lookup).dom() =~= snapshot_side_map(
                levels@.take(i as int),
            ).dom().insert(pl.level));
        }
        i += 1;
    }
    proof {
        assert(levels@.take(n as int) =~= levels@);
    }
}

/// Refreshes the cached best bid from the heap tip.
fn update_best_bid(heap: &BidHeap, best: &mut Option<usize>)
    ensures
        match *final(best) {
            Option::None => bid_heap_model(heap).len() == 0,
            Option::Some(b) => is_greatest(bid_heap_model(heap), b),
        },
{
    *best = bid_heap_peek(heap);
}

/// Refreshes the cached best ask from the heap tip.
fn update_best_ask(heap: &AskHeap, best: &mut Option<usize>)
    ensures
        match *final(best) {
            Option::None => ask_heap_model(heap).len() == 0,
            Option::Some(b) => is_least(ask_heap_model(heap), b),
        },
{
    *best = ask_heap_peek(heap);
}

/// Compaction for the ask heap, mirror of `rebuild_bid_heap`.
pub fn rebuild_ask_heap(lookup: &LevelMap, heap: &mut AskHeap)
    requires
        side_valid(level_map_model(lookup)),
    ensures
        forall|k: usize|
            level_map_model(lookup).dom().contains(k) ==> ask_heap_model(final(heap)).count(k)
                == 1,
        forall|x: usize|
            ask_heap_model(final(heap)).count(x) > 0 ==> level_map_model(lookup).dom().contains(x),
        ask_heap_model(final(heap)).len() == level_map_model(lookup).dom().len(),
{
    let ghost m = level_map_model(lookup);
    ask_heap_clear(heap);
    let keys = level_map_keys(lookup);
    let n = keys.len();
    let mut i: usize = 0;
    while i < n
        invariant
            i <= n,
            n == keys@.len(),
            m == level_map_model(lookup),
            side_valid(m),
            keys@.len() == m.dom().len(),
            forall|k: usize| keys@.contains(k) <==> m.dom().contains(k),
            forall|a: int, b: int| 0 <= a < b < keys@.len() ==> keys@[a] != keys@[b],
            ask_heap_model(heap).len() == i,
            forall|j: int| 0 <= j < i ==> ask_heap_model(heap).count(keys@[j]) == 1,
            forall|x: usize| ask_heap_model(heap).count(x) > 0 ==> keys@.take(i as int).contains(x),
        decreases n - i,
    {
        let ghost pre = ask_heap_model(heap);
        proof {
            assert(!keys@.take(i as int).contains(keys@[i as int]));
            assert(pre.count(keys@[i as int]) == 0);
        }
        ask_heap_push(heap, keys[i]);
        proof {
            assert forall|x: usize| ask_heap_model(heap).count(x) > 0 implies keys@.take(
                i + 1,
            ).contains(x) by {
                let tk = keys@.take(i as int);
                let tk1 = keys@.take(i + 1);
                if x == keys@[i as int] {
                    assert(tk1[i as int] == x);
                    assert(tk1.contains(x));
                } else {
                    assert(pre.count(x) > 0);
                    assert(tk.contains(x));
                    let j = choose|j: int| 0 <= j < tk.len() && tk[j] == x;
                    assert(tk1[j] == x);
                    assert(tk1.contains(x));
                }
            }
        }
        i += 1;
    }
    proof {
        assert forall|k: usize| m.dom().contains(k) implies ask_heap_model(heap).count(k) == 1 by {
            assert(keys@.contains(k));
            let j = choose|j: int| 0 <= j < keys@.len() && keys@[j] == k;
        }
        assert forall|x: usize| ask_heap_model(heap).count(x) > 0 implies m.dom().contains(x) by {
            assert(keys@.take(n as int) =~= keys@);
            assert(keys@.contains(x));
        }
    }
}

/// The cross-weighted mid price: each side's level is weighted by the
/// opposite side's resting amount, biasing the mid toward the side
/// with less depth.
pub open spec fn spec_pressure(bid_level: int, ask_level: int, bid_amt: int, ask_amt: int) -> int {
    (bid_amt * ask_level + ask_amt * bid_level) / (bid_amt + ask_amt)
}

impl OrderBook {
    /// Replaces all price data with a snapshot: both sides are cleared
    /// and bulk-loaded, and the best caches are refreshed from the heap
    /// tips. If the loaded snapshot sets both sides, the top-of-book
    /// amounts are folded into the running averages and the pressure is
    /// recomputed; the update counter is retained.
    pub fn init(&mut self, snapshot: &Snapshot)
        requires
            old(self).wf(),
            snapshot_side_ok(snapshot.bids@),
            snapshot_side_ok(snapshot.asks@),
            old(self).num_bids < u64::MAX,
            old(self).num_asks < u64::MAX,
        ensures
            final(self).wf(),
            final(self).bid_map() == snapshot_side_map(snapshot.bids@),
            final(self).ask_map() == snapshot_side_map(snapshot.asks@),
            final(self).bid_heap() == levels_multiset(snapshot.bids@),
            final(self).ask_heap() == levels_multiset(snapshot.asks@),
            final(self).name == old(self).name && final(self).pair == old(self).pair,
            final(self).theoretical_price == old(self).theoretical_price,
            final(self).count == old(self).count,
            (final(self).best_bid is Some && final(self).best_ask is Some) ==> ({
                let fb = final(self).best_bid->0;
                let fa = final(self).best_ask->0;
                &&& final(self).num_bids == old(self).num_bids + 1
                &&& final(self).num_asks == old(self).num_asks + 1
                &&& final(self).tot_bid == old(self).tot_bid + final(self).bid_map()[fb].amount
                &&& final(self).tot_ask == old(self).tot_ask + final(self).ask_map()[fa].amount
                &&& final(self).pressure == spec_pressure(
                    fb as int,
                    fa as int,
                    final(self).bid_map()[fb].amount as int,
                    final(self).ask_map()[fa].amount as int,
                )
            }),
            !(final(self).best_bid is Some && final(self).best_ask is Some) ==> ({
                &&& final(self).num_bids == old(self).num_bids
                &&& final(self).num_asks == old(self).num_asks
                &&& final(self).tot_bid == old(self).tot_bid
                &&& final(self).tot_ask == old(self).tot_ask
                &&& final(self).avg_bid == old(self).avg_bid
                &&& final(self).avg_ask == old(self).avg_ask
                &&& final(self).pressure == old(self).pressure
            }),
    {
        init_bid_side(&mut self.bid_lookup, &mut self.bids, &snapshot.bids);
        init_ask_side(&mut self.ask_lookup, &mut self.asks, &snapshot.asks);
        proof {
            lemma_snapshot_side_ok(snapshot.bids@);
            lemma_snapshot_side_ok(snapshot.asks@);
        }
        update_best_bid(&self.bids, &mut self.best_bid);
        update_best_ask(&self.asks, &mut self.best_ask);
        proof {
            match self.best_bid {
                Option::None => {
                    if self.bid_map().dom().len() != 0 {
                        let k = self.bid_map().dom().choose();
                        assert(self.bid_map().dom().contains(k));
                        assert(self.bid_heap().count(k) > 0);
                    }
                },
                Option::Some(b) => {
                    assert(self.bid_heap().count(b) > 0);
                },
            }
            match self.best_ask {
                Option::None => {
                    if self.ask_map().dom().len() != 0 {
                        let k = self.ask_map().dom().choose();
                        assert(self.ask_map().dom().contains(k));
                        assert(self.ask_heap().count(k) > 0);
                    }
                },
                Option::Some(b) => {
                    assert(self.ask_heap().count(b) > 0);
                },
            }
        }
        if self.best_bid.is_some() && self.best_ask.is_some() {
            self.update_pressure();
        }
    }

    /// Folds the current top-of-book amounts into the running averages
    /// and recomputes the pressure.
    fn update_pressure(&mut self)
        requires
            bid_side_wf(old(self).bid_heap(), old(self).bid_map(), old(self).best_bid),
            ask_side_wf(old(self).ask_heap(), old(self).ask_map(), old(self).best_ask),
            old(self).stats_wf(),
            old(self).best_bid is Some && old(self).best_ask is Some,
            old(self).num_bids < u64::MAX,
            old(self).num_asks < u64::MAX,
        ensures
            final(self).stats_wf(),
            final(self).num_bids == old(self).num_bids + 1,
            final(self).num_asks == old(self).num_asks + 1,
            final(self).tot_bid == old(self).tot_bid + old(self).bid_map()[old(
                self,
            ).best_bid->0].amount,
            final(self).tot_ask == old(self).tot_ask + old(self).ask_map()[old(
                self,
            ).best_ask->0].amount,
            final(self).pressure == spec_pressure(
                old(self).best_bid->0 as int,
                old(self).best_ask->0 as int,
                old(self).bid_map()[old(self).best_bid->0].amount as int,
                old(self).ask_map()[old(self).best_ask->0].amount as int,
            ),
            *final(self) == (OrderBook {
                avg_bid: final(self).avg_bid,
                tot_bid: final(self).tot_bid,
                num_bids: final(self).num_bids,
                avg_ask: final(self).avg_ask,
                tot_ask: final(self).tot_ask,
                num_asks: final(self).num_asks,
                pressure: final(self).pressure,
                ..*old(self)
            }),
    {
        let bid_level = match self.best_bid {
            Option::Some(b) => b,
            Option::None => 0,
        };
        let ask_level = match self.best_ask {
            Option::Some(a) => a,
            Option::None => 0,
        };
        let bid_entry = match level_map_get(&self.bid_lookup, bid_level) {
            Option::Some(e) => e,
            Option::None => PriceLevel { level: 0, amount: 0, sequence: 0 },
        };
        let ask_entry = match level_map_get(&self.ask_lookup, ask_level) {
            Option::Some(e) => e,
            Option::None => PriceLevel { level: 0, amount: 0, sequence: 0 },
        };
        let bid_amount = bid_entry.amount;
        let ask_amount = ask_entry.amount;
        proof {
            assert(self.bid_map().dom().contains(bid_level));
            assert(self.ask_map().dom().contains(ask_level));
            assert(0 < bid_amount < MAX_AMOUNT);
            assert(0 < ask_amount < MAX_AMOUNT);
            assert(valid_tick(bid_level) && valid_tick(ask_level));
            vstd::arithmetic::mul::lemma_mul_upper_bound(
                self.num_bids as int,
                u64::MAX as int,
                (MAX_AMOUNT - 1) as int,
                (MAX_AMOUNT - 1) as int,
            );
            vstd::arithmetic::mul::lemma_mul_upper_bound(
                self.num_asks as int,
                u64::MAX as int,
                (MAX_AMOUNT - 1) as int,
                (MAX_AMOUNT - 1) as int,
            );
        }
        self.num_bids = self.num_bids + 1;
        self.num_asks = self.num_asks + 1;
        self.tot_bid = self.tot_bid + bid_amount as u128;
        self.tot_ask = self.tot_ask + ask_amount as u128;
        proof {
            vstd::arithmetic::mul::lemma_mul_is_distributive_add_other_way(
                (MAX_AMOUNT - 1) as int,
                old(self).num_bids as int,
                1,
            );
            vstd::arithmetic::mul::lemma_mul_is_distributive_add_other_way(
                (MAX_AMOUNT - 1) as int,
                old(self).num_asks as int,
                1,
            );
            lemma_avg_bounded(self.tot_bid as int, self.num_bids as int, (MAX_AMOUNT - 1) as int);
            lemma_avg_bounded(self.tot_ask as int, self.num_asks as int, (MAX_AMOUNT - 1) as int);
        }
        self.avg_bid = (self.tot_bid / self.num_bids as u128) as u64;
        self.avg_ask = (self.tot_ask / self.num_asks as u128) as u64;
        proof {
            vstd::arithmetic::mul::lemma_mul_upper_bound(
                bid_amount as int,
                (MAX_AMOUNT - 1) as int,
                ask_level as int,
                (MAX_TICK - 1) as int,
            );
            vstd::arithmetic::mul::lemma_mul_upper_bound(
                ask_amount as int,
                (MAX_AMOUNT - 1) as int,
                bid_level as int,
                (MAX_TICK - 1) as int,
            );
        }
        let num = bid_amount as u128 * ask_level as u128 + ask_amount as u128 * bid_level as u128;
        let den = bid_amount as u128 + ask_amount as u128;
        proof {
            lemma_pressure_bounded(
                bid_level as int,
                ask_level as int,
                bid_amount as int,
                ask_amount as int,
            );
        }
        self.pressure = (num / den) as usize;
    }
}

impl OrderBook {
    /// Applies a batch of changes: per change the side's lookup is
    /// updated, the side's heap is lazily repaired, and the best cache
    /// is refreshed; afterwards, if both sides are set, the pressure is
    /// recomputed and the spread invariant is checked. A crossed book
    /// (best bid at or above best ask) returns `Err(BookError::Desync)`
    /// with the data still applied, as a protocol desync is the
    /// exchange's fault, not the caller's. The theoretical price is
    /// reset in every case.
    pub fn update(&mut self, update: &Update) -> (r: Result<(), BookError>)
        requires
            old(self).wf(),
            changes_valid(update.changes@),
            update.changes@.len() <= MAX_UPDATE_CHANGES,
            changes_within_capacity(
                old(self).bid_map(),
                old(self).ask_map(),
                update.changes@,
                old(self).count as int,
            ),
            old(self).count + update.changes@.len() <= i64::MAX,
            old(self).num_bids < u64::MAX,
            old(self).num_asks < u64::MAX,
        ensures
            final(self).wf(),
            ({
                let post = apply_changes(
                    old(self).bid_map(),
                    old(self).ask_map(),
                    update.changes@,
                    old(self).count as int,
                );
                final(self).bid_map() == post.0 && final(self).ask_map() == post.1
            }),
            final(self).count == old(self).count + update.changes@.len(),
            final(self).name == old(self).name && final(self).pair == old(self).pair,
            final(self).theoretical_price == 0,
            (final(self).best_bid is Some && final(self).best_ask is Some) ==> ({
                let fb = final(self).best_bid->0;
                let fa = final(self).best_ask->0;
                &&& final(self).num_bids == old(self).num_bids + 1
                &&& final(self).num_asks == old(self).num_asks + 1
                &&& final(self).tot_bid == old(self).tot_bid + final(self).bid_map()[fb].amount
                &&& final(self).tot_ask == old(self).tot_ask + final(self).ask_map()[fa].amount
                &&& final(self).pressure == spec_pressure(
                    fb as int,
                    fa as int,
                    final(self).bid_map()[fb].amount as int,
                    final(self).ask_map()[fa].amount as int,
                )
            }),
            !(final(self).best_bid is Some && final(self).best_ask is Some) ==> ({
                &&& final(self).num_bids == old(self).num_bids
                &&& final(self).num_asks == old(self).num_asks
                &&& final(self).tot_bid == old(self).tot_bid
                &&& final(self).tot_ask == old(self).tot_ask
                &&& final(self).avg_bid == old(self).avg_bid
                &&& final(self).avg_ask == old(self).avg_ask
                &&& final(self).pressure == old(self).pressure
            }),
            r is Ok <==> !(final(self).best_bid is Some && final(self).best_ask is Some && final(self).best_bid->0 >= final(self).best_ask->0),
            (r is Ok && final(self).best_bid is Some && final(self).best_ask is Some)
                ==> final(self).best_bid->0 < final(self).best_ask->0,
            all_buys(update.changes@) ==> final(self).ask_heap() == old(self).ask_heap()
                && final(self).ask_map() == old(self).ask_map() && final(self).best_ask == old(
                self,
            ).best_ask,
            all_sells(update.changes@) ==> final(self).bid_heap() == old(self).bid_heap()
                && final(self).bid_map() == old(self).bid_map() && final(self).best_bid == old(
                self,
            ).best_bid,
    {
        let ghost bm0 = self.bid_map();
        let ghost am0 = self.ask_map();
        let ghost c0 = self.count as int;
        let ghost book0 = *self;
        let n = update.changes.len();
        let mut i: usize = 0;
        while i < n
            invariant
                i <= n,
                n == update.changes@.len(),
                changes_valid(update.changes@),
                changes_within_capacity(bm0, am0, update.changes@, c0),
                c0 + n <= i64::MAX,
                0 <= c0,
                self.count == c0 + i,
                ({
                    let p = apply_changes(bm0, am0, update.changes@.take(i as int), c0);
                    self.bid_map() == p.0 && self.ask_map() == p.1
                }),
                bid_side_wf(self.bid_heap(), self.bid_map(), self.best_bid),
                ask_side_wf(self.ask_heap(), self.ask_map(), self.best_ask),
                bm0 == book0.bid_map() && am0 == book0.ask_map(),
                self.name == book0.name && self.pair == book0.pair,
                self.avg_bid == book0.avg_bid && self.avg_ask == book0.avg_ask,
                self.tot_bid == book0.tot_bid && self.tot_ask == book0.tot_ask,
                self.num_bids == book0.num_bids && self.num_asks == book0.num_asks,
                self.pressure == book0.pressure,
                self.theoretical_price == book0.theoretical_price,
                book0.stats_wf(),
                book0.num_bids < u64::MAX && book0.num_asks < u64::MAX,
                all_buys(update.changes@) ==> self.ask_heap() == book0.ask_heap()
                    && self.ask_map() == book0.ask_map() && self.best_ask == book0.best_ask,
                all_sells(update.changes@) ==> self.bid_heap() == book0.bid_heap()
                    && self.bid_map() == book0.bid_map() && self.best_bid == book0.best_bid,
            decreases n - i,
        {
            let c = update.changes[i];
            let level = c.price_level.level;
            let amount = c.price_level.amount;
            proof {
                lemma_capacity_at(bm0, am0, update.changes@, c0, i as int);
                assert(update.changes@.take(i + 1).drop_last() =~= update.changes@.take(i as int));
                assert(update.changes@.take(i + 1).last() == update.changes@[i as int]);
                assert(c.price_level.valid());
            }
            self.count = self.count + 1;
            match c.side {
                Side::Buy => {
                    let ghost cur = self.bid_map();
                    proof {
                        assert(apply_change_map(cur, c, c0 + i + 1).dom() =~= (if amount == 0 {
                            cur.dom().remove(level)
                        } else {
                            cur.dom().insert(level)
                        }));
                    }
                    update_lookup(&mut self.bid_lookup, level, amount, self.count);
                    let ghost m = self.bid_map();
                    proof {
                        assert(m == apply_change_map(cur, c, c0 + i + 1));
                        assert forall|k: usize| #[trigger] m.dom().contains(k) implies m[k].level
                            == k && valid_tick(k) && 0 < m[k].amount < MAX_AMOUNT by {
                            if k != level {
                                assert(cur.dom().contains(k));
                            }
                        }
                        assert forall|k: usize| m.remove(level).dom().contains(k) implies
                            self.bid_heap().count(k) > 0 by {
                            assert(cur.dom().contains(k));
                        }
                    }
                    let tip = update_bid_heap(&self.bid_lookup, &mut self.bids, level, amount);
                    update_best_bid(&self.bids, &mut self.best_bid);
                    proof {
                        match self.best_bid {
                            Option::None => {
                                if tip@ is Some {
                                    assert(self.bid_heap().count(tip@->0) > 0);
                                }
                            },
                            Option::Some(b) => {
                                assert(self.bid_heap().count(b) > 0);
                                let t = tip@->0;
                                assert(self.bid_heap().count(t) > 0);
                                assert(b == t);
                            },
                        }
                    }
                },
                Side::Sell => {
                    let ghost cur = self.ask_map();
                    proof {
                        assert(apply_change_map(cur, c, c0 + i + 1).dom() =~= (if amount == 0 {
                            cur.dom().remove(level)
                        } else {
                            cur.dom().insert(level)
                        }));
                    }
                    update_lookup(&mut self.ask_lookup, level, amount, -self.count);
                    let ghost m = self.ask_map();
                    proof {
                        assert(m == apply_change_map(cur, c, c0 + i + 1));
                        assert forall|k: usize| #[trigger] m.dom().contains(k) implies m[k].level
                            == k && valid_tick(k) && 0 < m[k].amount < MAX_AMOUNT by {
                            if k != level {
                                assert(cur.dom().contains(k));
                            }
                        }
                        assert forall|k: usize| m.remove(level).dom().contains(k) implies
                            self.ask_heap().count(k) > 0 by {
                            assert(cur.dom().contains(k));
                        }
                    }
                    let tip = update_ask_heap(&self.ask_lookup, &mut self.asks, level, amount);
                    update_best_ask(&self.asks, &mut self.best_ask);
                    proof {
                        match self.best_ask {
                            Option::None => {
                                if tip@ is Some {
                                    assert(self.ask_heap().count(tip@->0) > 0);
                                }
                            },
                            Option::Some(b) => {
                                assert(self.ask_heap().count(b) > 0);
                                let t = tip@->0;
                                assert(self.ask_heap().count(t) > 0);
                                assert(b == t);
                            },
                        }
                    }
                },
            }
            i += 1;
        }
        proof {
            assert(update.changes@.take(n as int) =~= update.changes@);
        }
        let mut r: Result<(), BookError> = Result::Ok(());
        if self.best_bid.is_some() && self.best_ask.is_some() {
            self.update_pressure();
            let bb = self.best_bid.unwrap();
            let ba = self.best_ask.unwrap();
            if bb >= ba {
                r = Result::Err(BookError::Desync);
            }
        }
        self.theoretical_price = 0;
        r
    }
}

/// Integer division that truncates toward zero, as the machine's
/// signed division does.
pub open spec fn div_trunc(a: int, b: int) -> int {
    if a >= 0 {
        a / b
    } else {
        -((-a) / b)
    }
}

/// Clamps a mathematical tick count into the machine's unsigned range.
pub open spec fn clamp_to_usize(v: int) -> int {
    if v < 0 {
        0
    } else if v > usize::MAX {
        usize::MAX as int
    } else {
        v
    }
}

/// The impulse-adjusted price after a trade: the spread delta (signed
/// by the aggressor side) scaled by the trade size relative to the
/// average top-of-book depth, added to the pressure.
pub open spec fn spec_theoretical(
    bid: int,
    ask: int,
    side: Side,
    size: int,
    pressure: int,
    avg_sum: int,
) -> int {
    let delta = match side {
        Side::Buy => ask - bid,
        Side::Sell => bid - ask,
    };
    clamp_to_usize(pressure + div_trunc(delta * size, avg_sum))
}

impl OrderBook {
    /// Records an executed trade: recomputes the theoretical price
    /// from the pressure, the spread and the trade's size. Both sides
    /// must be set and at least one running average must be positive.
    pub fn update_impulse(&mut self, trade: &Match)
        requires
            old(self).wf(),
            old(self).best_bid is Some && old(self).best_ask is Some,
            old(self).avg_bid as int + old(self).avg_ask as int > 0,
            trade.size < MAX_AMOUNT,
        ensures
            final(self).wf(),
            *final(self) == (OrderBook {
                theoretical_price: final(self).theoretical_price,
                ..*old(self)
            }),
            final(self).theoretical_price as int == spec_theoretical(
                old(self).best_bid->0 as int,
                old(self).best_ask->0 as int,
                trade.side,
                trade.size as int,
                old(self).pressure as int,
                old(self).avg_bid as int + old(self).avg_ask as int,
            ),
    {
        let bid = match self.best_bid {
            Option::Some(b) => b,
            Option::None => 0,
        };
        let ask = match self.best_ask {
            Option::Some(a) => a,
            Option::None => 0,
        };
        proof {
            assert(self.bid_map().dom().contains(bid));
            assert(self.ask_map().dom().contains(ask));
            assert(valid_tick(bid) && valid_tick(ask));
        }
        let avg_sum = self.avg_bid as u128 + self.avg_ask as u128;
        let neg: bool;
        let mag: usize;
        match trade.side {
            Side::Buy => {
                if ask >= bid {
                    neg = false;
                    mag = ask - bid;
                } else {
                    neg = true;
                    mag = bid - ask;
                }
            },
            Side::Sell => {
                if bid >= ask {
                    neg = false;
                    mag = bid - ask;
                } else {
                    neg = true;
                    mag = ask - bid;
                }
            },
        }
        proof {
            vstd::arithmetic::mul::lemma_mul_upper_bound(
                mag as int,
                (MAX_TICK - 1) as int,
                trade.size as int,
                (MAX_AMOUNT - 1) as int,
            );
            vstd::arithmetic::mul::lemma_mul_nonnegative(mag as int, trade.size as int);
        }
        let prod = mag as u128 * trade.size as u128;
        let q = prod / avg_sum;
        proof {
            vstd::arithmetic::div_mod::lemma_div_is_ordered(prod as int, prod as int, avg_sum as int);
            vstd::arithmetic::div_mod::lemma_div_pos_is_pos(prod as int, avg_sum as int);
            vstd::arithmetic::div_mod::lemma_div_is_ordered_by_denominator(
                prod as int,
                1,
                avg_sum as int,
            );
            vstd::arithmetic::div_mod::lemma_div_basics(prod as int);
        }
        let t: i128 = if neg {
            self.pressure as i128 - q as i128
        } else {
            self.pressure as i128 + q as i128
        };
        let tp: usize = if t < 0 {
            0
        } else if t > usize::MAX as i128 {
            usize::MAX
        } else {
            t as usize
        };
        self.theoretical_price = tp;
        proof {
            let delta = (match trade.side {
                Side::Buy => ask as int - bid as int,
                Side::Sell => bid as int - ask as int,
            });
            if neg {
                assert(delta == -(mag as int));
                assert(delta * trade.size as int == -(mag as int * trade.size as int))
                    by (nonlinear_arith)
                    requires
                        delta == -(mag as int),
                ;
                assert(div_trunc(delta * trade.size as int, avg_sum as int) == -(q as int));
            } else {
                assert(delta == mag as int);
                assert(div_trunc(delta * trade.size as int, avg_sum as int) == q as int);
            }
        }
    }
}

/// Every key of a well-formed side's lookup maps to an entry keyed by
/// its own level with a strictly positive amount.
pub proof fn lemma_lookup_entries(book: OrderBook)
    requires
        book.wf(),
    ensures
        forall|k: usize|
            #[trigger] book.bid_map().dom().contains(k) ==> book.bid_map()[k].level == k && 0
                < book.bid_map()[k].amount,
        forall|k: usize|
            #[trigger] book.ask_map().dom().contains(k) ==> book.ask_map()[k].level == k && 0
                < book.ask_map()[k].amount,
{
}

/// After an update whose changes end with a zero-amount change at a
/// level, with no later change at that level on the same side, the
/// level is absent from that side's lookup.
pub proof fn lemma_delete_removes(
    bm: Map<usize, PriceLevel>,
    am: Map<usize, PriceLevel>,
    cs: Seq<Change>,
    count0: int,
    i: int,
)
    requires
        0 <= i < cs.len(),
        cs[i].price_level.amount == 0,
        forall|j: int|
            i < j < cs.len() ==> ((#[trigger] cs[j]).side != cs[i].side || cs[j].price_level.level
                != cs[i].price_level.level),
    ensures
        cs[i].side is Buy ==> !apply_changes(bm, am, cs, count0).0.dom().contains(
            cs[i].price_level.level,
        ),
        cs[i].side is Sell ==> !apply_changes(bm, am, cs, count0).1.dom().contains(
            cs[i].price_level.level,
        ),
    decreases cs.len(),
{
    if i == cs.len() - 1 {
    } else {
        let prev = cs.drop_last();
        assert(forall|j: int| 0 <= j < prev.len() ==> prev[j] == cs[j]);
        lemma_delete_removes(bm, am, prev, count0, i);
    }
}

/// After an update whose changes end with a positive-amount change at
/// a level, with no later change at that level on the same side, the
/// lookup holds exactly that level and amount, and the sequence tag of
/// the change's position.
pub proof fn lemma_insert_stores(
    bm: Map<usize, PriceLevel>,
    am: Map<usize, PriceLevel>,
    cs: Seq<Change>,
    count0: int,
    i: int,
)
    requires
        0 <= i < cs.len(),
        cs[i].price_level.amount != 0,
        forall|j: int|
            i < j < cs.len() ==> ((#[trigger] cs[j]).side != cs[i].side || cs[j].price_level.level
                != cs[i].price_level.level),
    ensures
        ({
            let lv = cs[i].price_level.level;
            let expected = (PriceLevel {
                level: lv,
                amount: cs[i].price_level.amount,
                sequence: change_seq_tag(cs[i].side, count0 + i + 1) as i64,
            });
            &&& (cs[i].side is Buy ==> apply_changes(bm, am, cs, count0).0.dom().contains(lv)
                && apply_changes(bm, am, cs, count0).0[lv] == expected)
            &&& (cs[i].side is Sell ==> apply_changes(bm, am, cs, count0).1.dom().contains(lv)
                && apply_changes(bm, am, cs, count0).1[lv] == expected)
        }),
    decreases cs.len(),
{
    if i == cs.len() - 1 {
    } else {
        let prev = cs.drop_last();
        assert(forall|j: int| 0 <= j < prev.len() ==> prev[j] == cs[j]);
        lemma_insert_stores(bm, am, prev, count0, i);
    }
}

/// Two well-formed books whose lookups and heaps agree also agree on
/// their cached best prices: after `init`, the book's price state is a
/// function of the snapshot alone, so a second `init` fully overwrites
/// the first.
pub proof fn lemma_init_overwrites(b1: OrderBook, b2: OrderBook)
    requires
        b1.wf(),
        b2.wf(),
        b1.bid_map() == b2.bid_map(),
        b1.ask_map() == b2.ask_map(),
        b1.bid_heap() == b2.bid_heap(),
        b1.ask_heap() == b2.ask_heap(),
    ensures
        b1.best_bid == b2.best_bid,
        b1.best_ask == b2.best_ask,
{
    match (b1.best_bid, b2.best_bid) {
        (Option::Some(x), Option::Some(y)) => {
            assert(b1.bid_heap().count(x) > 0);
            assert(b1.bid_heap().count(y) > 0);
            assert(x <= y && y <= x);
        },
        (Option::Some(x), Option::None) => {
            assert(b1.bid_map().dom().contains(x));
            assert(b2.bid_heap().count(x) > 0);
        },
        (Option::None, Option::Some(y)) => {
            assert(b2.bid_map().dom().contains(y));
            assert(b1.bid_heap().count(y) > 0);
        },
        (Option::None, Option::None) => {},
    }
    match (b1.best_ask, b2.best_ask) {
        (Option::Some(x), Option::Some(y)) => {
            assert(b1.ask_heap().count(x) > 0);
            assert(b1.ask_heap().count(y) > 0);
            assert(x <= y && y <= x);
        },
        (Option::Some(x), Option::None) => {
            assert(b1.ask_map().dom().contains(x));
            assert(b2.ask_heap().count(x) > 0);
        },
        (Option::None, Option::Some(y)) => {
            assert(b2.ask_map().dom().contains(y));
            assert(b1.ask_heap().count(y) > 0);
        },
        (Option::None, Option::None) => {},
    }
}

/// Applying the same zero-amount change twice leaves the side maps as
/// one application does.
pub proof fn lemma_zero_change_idempotent(
    bm: Map<usize, PriceLevel>,
    am: Map<usize, PriceLevel>,
    c: Change,
    count0: int,
    count1: int,
)
    requires
        c.price_level.amount == 0,
    ensures
        ({
            let once = apply_changes(bm, am, seq![c], count0);
            let twice = apply_changes(once.0, once.1, seq![c], count1);
            twice.0 == once.0 && twice.1 == once.1
        }),
{
    let s = seq![c];
    assert(s.len() == 1);
    assert(s.drop_last() =~= Seq::<Change>::empty());
    assert(s.last() == c);
    let once = apply_changes(bm, am, s, count0);
    let twice = apply_changes(once.0, once.1, s, count1);
    assert(apply_changes(bm, am, s.drop_last(), count0) == (bm, am));
    assert(apply_changes(once.0, once.1, s.drop_last(), count1) == (once.0, once.1));
    let lv = c.price_level.level;
    match c.side {
        Side::Buy => {
            assert(once.0 == bm.remove(lv) && once.1 == am);
            assert(twice.0 == once.0.remove(lv) && twice.1 == once.1);
            assert(twice.0 =~= once.0);
        },
        Side::Sell => {
            assert(once.1 == am.remove(lv) && once.0 == bm);
            assert(twice.1 == once.1.remove(lv) && twice.0 == once.0);
            assert(twice.1 =~= once.1);
        },
    }
}

/// A well-formed bid side holding exactly one level has that level as
/// its cached best.
pub proof fn lemma_single_level_best(book: OrderBook, level: usize)
    requires
        book.wf(),
        book.bid_map().dom() =~= set![level],
    ensures
        book.best_bid == Option::Some(level),
{
    assert(book.bid_map().dom().contains(level));
    match book.best_bid {
        Option::None => {
            assert(book.bid_map().dom().len() == 1) by {
                book.bid_map().dom().lemma_singleton_size();
            }
        },
        Option::Some(b) => {
            assert(book.bid_map().dom().contains(b));
        },
    }
}

/// A well-formed ask side holding exactly one level has that level as
/// its cached best.
pub proof fn lemma_single_level_best_ask(book: OrderBook, level: usize)
    requires
        book.wf(),
        book.ask_map().dom() =~= set![level],
    ensures
        book.best_ask == Option::Some(level),
{
    assert(book.ask_map().dom().contains(level));
    match book.best_ask {
        Option::None => {
            assert(book.ask_map().dom().len() == 1) by {
                book.ask_map().dom().lemma_singleton_size();
            }
        },
        Option::Some(b) => {
            assert(book.ask_map().dom().contains(b));
        },
    }
}

/// A running total bounded by `num * cap` keeps its mean at or below
/// `cap`.
proof fn lemma_avg_bounded(tot: int, num: int, cap: int)
    requires
        0 < num,
        0 <= tot <= num * cap,
        0 <= cap,
    ensures
        0 <= tot / num <= cap,
{
    vstd::arithmetic::div_mod::lemma_div_is_ordered(tot, num * cap, num);
    vstd::arithmetic::div_mod::lemma_div_multiples_vanish(cap, num);
    vstd::arithmetic::div_mod::lemma_div_pos_is_pos(tot, num);
}

/// The pressure lies between zero and the greater of the two levels.
proof fn lemma_pressure_bounded(bid_level: int, ask_level: int, bid_amt: int, ask_amt: int)
    requires
        0 < bid_amt,
        0 < ask_amt,
        0 <= bid_level,
        0 <= ask_level,
    ensures
        0 <= spec_pressure(bid_level, ask_level, bid_amt, ask_amt) <= (if bid_level >= ask_level {
            bid_level
        } else {
            ask_level
        }),
{
    let mx = if bid_level >= ask_level {
        bid_level
    } else {
        ask_level
    };
    let num = bid_amt * ask_level + ask_amt * bid_level;
    let den = bid_amt + ask_amt;
    vstd::arithmetic::mul::lemma_mul_inequality(ask_level, mx, bid_amt);
    vstd::arithmetic::mul::lemma_mul_inequality(bid_level, mx, ask_amt);
    vstd::arithmetic::mul::lemma_mul_is_distributive_add_other_way(mx, bid_amt, ask_amt);
    assert(num <= den * mx);
    vstd::arithmetic::div_mod::lemma_div_is_ordered(num, den * mx, den);
    vstd::arithmetic::div_mod::lemma_div_multiples_vanish(mx, den);
    vstd::arithmetic::mul::lemma_mul_nonnegative(bid_amt, ask_level);
    vstd::arithmetic::mul::lemma_mul_nonnegative(ask_amt, bid_level);
    vstd::arithmetic::div_mod::lemma_div_pos_is_pos(num, den);
}

} // verus!
