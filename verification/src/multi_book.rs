//! The cross-exchange multi-book: one `OrderBook` per exchange for a
//! single trading pair, a dense matrix of directed spreads between
//! every ordered pair of books, and arbitrage-threshold counters with
//! sequence-based de-duplication.

use vstd::prelude::*;

use crate::data_types::{valid_tick, Side};
use crate::order_book::OrderBook;

verus! {

/// Arbitrage thresholds, in millionths of the buy price
/// (2500 = 0.25%).
pub const PPM_025: i64 = 2500;

pub const PPM_020: i64 = 2000;

pub const PPM_015: i64 = 1500;

pub const PPM_010: i64 = 1000;

pub const PPM_005: i64 = 500;

/// One directed spread: `raw` ticks of profit selling at one book's
/// bid after buying at another's ask, the same as a fraction of the
/// buy price in millionths, and the sequence tags of the two levels
/// it was computed from (`seqs[0]` the ask's, `seqs[1]` the bid's).
#[derive(Clone, Copy, Debug, PartialEq)]
pub struct Spread {
    pub raw: i64,
    pub percentage: i64,
    pub seqs: [i64; 2],
}

/// The spread fraction in millionths, truncated toward zero.
pub open spec fn spec_ppm(raw: int, ask: int) -> int {
    crate::order_book::div_trunc(raw * 1_000_000, ask)
}

/// A spread whose fields are all zero, as the matrix starts out.
pub open spec fn is_zero_spread(sp: Spread) -> bool {
    sp.raw == 0 && sp.percentage == 0 && sp.seqs@[0] == 0 && sp.seqs@[1] == 0
}

/// The slot of the directed spread "buy at book `a`, sell at book
/// `b`" in the dense matrix of `s * (s - 1)` slots.
pub open spec fn spread_idx(a: int, b: int, s: int) -> int {
    a * s + b - (if b < a {
        a
    } else {
        a + 1
    })
}

/// The matrix slot of an ordered pair is in range.
pub proof fn lemma_spread_idx_bounds(a: int, b: int, s: int)
    requires
        0 <= a < s,
        0 <= b < s,
        a != b,
    ensures
        0 <= spread_idx(a, b, s) < s * (s - 1),
{
    assert(0 <= spread_idx(a, b, s) < s * (s - 1)) by (nonlinear_arith)
        requires
            0 <= a < s,
            0 <= b < s,
            a != b,
    ;
}

/// Distinct ordered pairs use distinct matrix slots.
pub proof fn lemma_spread_idx_injective(a1: int, b1: int, a2: int, b2: int, s: int)
    requires
        0 <= a1 < s,
        0 <= b1 < s,
        a1 != b1,
        0 <= a2 < s,
        0 <= b2 < s,
        a2 != b2,
        !(a1 == a2 && b1 == b2),
    ensures
        spread_idx(a1, b1, s) != spread_idx(a2, b2, s),
{
    assert(spread_idx(a1, b1, s) != spread_idx(a2, b2, s)) by (nonlinear_arith)
        requires
            0 <= a1 < s,
            0 <= b1 < s,
            a1 != b1,
            0 <= a2 < s,
            0 <= b2 < s,
            a2 != b2,
            !(a1 == a2 && b1 == b2),
    ;
}

/// `sp` is the directed spread of buying at `buy_book`'s best ask and
/// selling at `sell_book`'s best bid, with the levels' sequence tags.
pub open spec fn spread_matches(sp: Spread, buy_book: OrderBook, sell_book: OrderBook) -> bool {
    let ask = buy_book.best_ask->0;
    let bid = sell_book.best_bid->0;
    &&& sp.raw == bid as int - ask as int
    &&& sp.percentage == spec_ppm(bid as int - ask as int, ask as int)
    &&& sp.seqs@[0] == buy_book.ask_map()[ask].sequence
    &&& sp.seqs@[1] == sell_book.bid_map()[bid].sequence
}

/// A spread at or above the reporting threshold whose level sequences
/// differ from the last reported ones (or which was never reported).
pub open spec fn arb_trigger(sp: Spread, last: Spread) -> bool {
    sp.percentage >= PPM_020 && (last.seqs@[0] == 0 || sp.seqs@[0] != last.seqs@[0] || sp.seqs@[1]
        != last.seqs@[1])
}

/// The first slot among the first `n` that triggers an arbitrage
/// report, if any.
pub open spec fn first_arb(spreads: Seq<Spread>, last: Seq<Spread>, n: int) -> Option<int>
    decreases n,
{
    if n <= 0 {
        Option::None
    } else {
        match first_arb(spreads, last, n - 1) {
            Option::Some(k) => Option::Some(k),
            Option::None => if arb_trigger(spreads[n - 1], last[n - 1]) {
                Option::Some(n - 1)
            } else {
                Option::None
            },
        }
    }
}

/// How many of the first `n` spreads are at or above `threshold`.
pub open spec fn count_ge(spreads: Seq<Spread>, n: int, threshold: int) -> int
    decreases n,
{
    if n <= 0 {
        0
    } else {
        count_ge(spreads, n - 1, threshold) + (if spreads[n - 1].percentage >= threshold {
            1int
        } else {
            0int
        })
    }
}

/// The running maximum of the first `n` spread percentages, seeded
/// with `m0`.
pub open spec fn fold_max(spreads: Seq<Spread>, n: int, m0: int) -> int
    decreases n,
{
    if n <= 0 {
        m0
    } else {
        let p = fold_max(spreads, n - 1, m0);
        if spreads[n - 1].percentage >= p {
            spreads[n - 1].percentage as int
        } else {
            p
        }
    }
}

/// All the order books for one trading pair, with the directed-spread
/// matrix and the arbitrage counters. `S` is the number of books and
/// `T == S * (S - 1)` the number of directed pairs.
pub struct MultiBook<const S: usize, const T: usize> {
    pub pair: String,
    pub books: Vec<OrderBook>,
    pub spreads: Vec<Spread>,
    pub last_spreads: Vec<Spread>,
    pub arb_count: usize,
    pub o25: usize,
    pub o20: usize,
    pub o15: usize,
    pub o10: usize,
    pub o05: usize,
    pub max: i64,
}

impl<const S: usize, const T: usize> MultiBook<S, T> {
    /// Well-formedness: the vectors have their fixed lengths, the
    /// matrix is dense, and every book is well-formed.
    pub open spec fn wf(self) -> bool {
        &&& self.books@.len() == S
        &&& self.spreads@.len() == T
        &&& self.last_spreads@.len() == T
        &&& T as int == S as int * (S as int - 1)
        &&& S as int * S as int <= usize::MAX as int
        &&& forall|i: int| 0 <= i < S ==> (#[trigger] self.books@[i]).wf()
    }

    /// `S` fresh empty books named `names[0..S]`, all spreads zeroed.
    pub fn new(pair: String, names: Vec<String>) -> (mb: MultiBook<S, T>)
        requires
            names@.len() == S,
            T as int == S as int * (S as int - 1),
            S as int * S as int <= usize::MAX as int,
        ensures
            mb.wf(),
            mb.pair == pair,
            forall|i: int|
                0 <= i < S ==> {
                    let b = #[trigger] mb.books@[i];
                    &&& b.name == names@[i]
                    &&& b.pair == pair
                    &&& b.bid_map().dom().len() == 0
                    &&& b.ask_map().dom().len() == 0
                    &&& b.best_bid is None
                    &&& b.best_ask is None
                    &&& b.count == 0
                },
            forall|t: int| 0 <= t < T ==> is_zero_spread(#[trigger] mb.spreads@[t]),
            forall|t: int| 0 <= t < T ==> is_zero_spread(#[trigger] mb.last_spreads@[t]),
            mb.arb_count == 0 && mb.o25 == 0 && mb.o20 == 0 && mb.o15 == 0 && mb.o10 == 0
                && mb.o05 == 0,
            mb.max == 0,
    {
        let mut books: Vec<OrderBook> = Vec::new();
        let mut i: usize = 0;
        while i < S
            invariant
                i <= S,
                names@.len() == S,
                books@.len() == i,
                forall|k: int|
                    0 <= k < i ==> {
                        let b = #[trigger] books@[k];
                        &&& b.wf()
                        &&& b.name == names@[k]
                        &&& b.pair == pair
                        &&& b.bid_map().dom().len() == 0
                        &&& b.ask_map().dom().len() == 0
                        &&& b.best_bid is None
                        &&& b.best_ask is None
                        &&& b.count == 0
                    },
            decreases S - i,
        {
            books.push(OrderBook::new(names[i].clone(), pair.clone()));
            i += 1;
        }
        let mut spreads: Vec<Spread> = Vec::new();
        let mut last_spreads: Vec<Spread> = Vec::new();
        let mut t: usize = 0;
        while t < T
            invariant
                t <= T,
                spreads@.len() == t,
                last_spreads@.len() == t,
                forall|k: int| 0 <= k < t ==> is_zero_spread(#[trigger] spreads@[k]),
                forall|k: int| 0 <= k < t ==> is_zero_spread(#[trigger] last_spreads@[k]),
            decreases T - t,
        {
            spreads.push(Spread { raw: 0, percentage: 0, seqs: [0, 0] });
            last_spreads.push(Spread { raw: 0, percentage: 0, seqs: [0, 0] });
            t += 1;
        }
        MultiBook {
            pair,
            books,
            spreads,
            last_spreads,
            arb_count: 0,
            o25: 0,
            o20: 0,
            o15: 0,
            o10: 0,
            o05: 0,
            max: 0,
        }
    }

    /// The best level of one side of a book, as `(tick, sequence)`.
    pub fn get_best(&self, side: Side, book: &OrderBook) -> (r: Option<(usize, i64)>)
        requires
            book.wf(),
        ensures
            match side {
                Side::Buy => match book.best_bid {
                    Option::None => r is None,
                    Option::Some(b) => r == Option::Some((b, book.bid_map()[b].sequence)),
                },
                Side::Sell => match book.best_ask {
                    Option::None => r is None,
                    Option::Some(a) => r == Option::Some((a, book.ask_map()[a].sequence)),
                },
            },
    {
        match side {
            Side::Buy => {
                match book.best_bid {
                    Option::Some(b) => {
                        let entry = match crate::containers::level_map_get(&book.bid_lookup, b) {
                            Option::Some(e) => e,
                            Option::None => crate::data_types::PriceLevel {
                                level: 0,
                                amount: 0,
                                sequence: 0,
                            },
                        };
                        Option::Some((b, entry.sequence))
                    },
                    Option::None => Option::None,
                }
            },
            Side::Sell => {
                match book.best_ask {
                    Option::Some(a) => {
                        let entry = match crate::containers::level_map_get(&book.ask_lookup, a) {
                            Option::Some(e) => e,
                            Option::None => crate::data_types::PriceLevel {
                                level: 0,
                                amount: 0,
                                sequence: 0,
                            },
                        };
                        Option::Some((a, entry.sequence))
                    },
                    Option::None => Option::None,
                }
            },
        }
    }

    /// Builds one directed spread from a buy (ask) tick and a sell
    /// (bid) tick, carrying the two levels' sequence tags.
    fn spread_from_levels(&self, ask: usize, bid: usize, seqs: [i64; 2]) -> (r: Spread)
        requires
            valid_tick(ask),
            valid_tick(bid),
        ensures
            r.raw == bid as int - ask as int,
            r.percentage == spec_ppm(bid as int - ask as int, ask as int),
            r.seqs == seqs,
    {
        let neg: bool;
        let mag: usize;
        if bid >= ask {
            neg = false;
            mag = bid - ask;
        } else {
            neg = true;
            mag = ask - bid;
        }
        let pm = (mag as u64 * 1_000_000) / (ask as u64);
        proof {
            vstd::arithmetic::div_mod::lemma_div_pos_is_pos(
                mag as int * 1_000_000,
                ask as int,
            );
            vstd::arithmetic::div_mod::lemma_div_is_ordered(
                mag as int * 1_000_000,
                0x4000_0000int * 1_000_000,
                ask as int,
            );
        }
        let raw: i64 = if neg {
            -(mag as i64)
        } else {
            mag as i64
        };
        let percentage: i64 = if neg {
            -(pm as i64)
        } else {
            pm as i64
        };
        proof {
            if neg {
                assert((bid as int - ask as int) * 1_000_000 == -(mag as int * 1_000_000))
                    by (nonlinear_arith)
                    requires
                        bid as int - ask as int == -(mag as int),
                ;
            }
        }
        Spread { raw, percentage, seqs }
    }

    /// Recomputes every directed spread that involves `books[book_idx]`
    /// (both directions for each other book; a pair with an unset side
    /// keeps its old slot), then scans the whole matrix: every slot
    /// bumps the threshold counters it reaches and feeds the running
    /// maximum. The first slot at or above 0.20% whose level sequences
    /// differ from the last reported ones is copied into the report
    /// history, bumps the arbitrage count, and its index is returned
    /// so the caller can emit a diagnostic dump; at most one report
    /// per scan.
    pub fn update_spread(&mut self, book_idx: usize) -> (r: Option<usize>)
        requires
            old(self).wf(),
            book_idx < S,
            old(self).o25 <= usize::MAX - T,
            old(self).o20 <= usize::MAX - T,
            old(self).o15 <= usize::MAX - T,
            old(self).o10 <= usize::MAX - T,
            old(self).o05 <= usize::MAX - T,
            old(self).arb_count < usize::MAX,
        ensures
            final(self).wf(),
            final(self).books == old(self).books,
            final(self).pair == old(self).pair,
            forall|a: int, b: int|
                #![trigger spread_idx(a, b, S as int)]
                0 <= a < S && 0 <= b < S && a != b ==> {
                    let t = spread_idx(a, b, S as int);
                    let buy = old(self).books@[a];
                    let sell = old(self).books@[b];
                    if a == book_idx || b == book_idx {
                        if buy.best_ask is Some && sell.best_bid is Some {
                            spread_matches(final(self).spreads@[t], buy, sell)
                        } else {
                            final(self).spreads@[t] == old(self).spreads@[t]
                        }
                    } else {
                        final(self).spreads@[t] == old(self).spreads@[t]
                    }
                },
            final(self).o25 == old(self).o25 + count_ge(final(self).spreads@, T as int, PPM_025 as int),
            final(self).o20 == old(self).o20 + count_ge(final(self).spreads@, T as int, PPM_020 as int),
            final(self).o15 == old(self).o15 + count_ge(final(self).spreads@, T as int, PPM_015 as int),
            final(self).o10 == old(self).o10 + count_ge(final(self).spreads@, T as int, PPM_010 as int),
            final(self).o05 == old(self).o05 + count_ge(final(self).spreads@, T as int, PPM_005 as int),
            final(self).max == fold_max(final(self).spreads@, T as int, old(self).max as int),
            (match first_arb(final(self).spreads@, old(self).last_spreads@, T as int) {
                Option::None => {
                    &&& r is None
                    &&& final(self).arb_count == old(self).arb_count
                    &&& final(self).last_spreads == old(self).last_spreads
                },
                Option::Some(k) => {
                    &&& r == Option::Some(k as usize)
                    &&& final(self).arb_count == old(self).arb_count + 1
                    &&& final(self).last_spreads@ == old(self).last_spreads@.update(
                        k,
                        final(self).spreads@[k],
                    )
                },
            }),
    {
        let ghost old_spreads = self.spreads@;
        let ghost books0 = self.books@;
        let ghost self0 = *self;
        let mut j: usize = 0;
        while j < S
            invariant
                j <= S,
                self.wf(),
                book_idx < S,
                self.books == self0.books,
                books0 == self0.books@,
                old_spreads == self0.spreads@,
                self.pair == self0.pair,
                self.last_spreads == self0.last_spreads,
                self.arb_count == self0.arb_count,
                self.o25 == self0.o25 && self.o20 == self0.o20 && self.o15 == self0.o15
                    && self.o10 == self0.o10 && self.o05 == self0.o05,
                self.max == self0.max,
                forall|a: int, b: int|
                    #![trigger spread_idx(a, b, S as int)]
                    0 <= a < S && 0 <= b < S && a != b ==> {
                        let t = spread_idx(a, b, S as int);
                        let buy = books0[a];
                        let sell = books0[b];
                        if (a == book_idx && b < j) || (b == book_idx && a < j) {
                            if buy.best_ask is Some && sell.best_bid is Some {
                                spread_matches(self.spreads@[t], buy, sell)
                            } else {
                                self.spreads@[t] == old_spreads[t]
                            }
                        } else {
                            self.spreads@[t] == old_spreads[t]
                        }
                    },
            decreases S - j,
        {
            if j != book_idx {
                proof {
                    lemma_spread_idx_bounds(book_idx as int, j as int, S as int);
                    lemma_spread_idx_bounds(j as int, book_idx as int, S as int);
                    assert(book_idx as int * S as int + S as int <= S as int * S as int)
                        by (nonlinear_arith)
                        requires
                            (book_idx as int) < (S as int),
                    ;
                    assert(j as int * S as int + S as int <= S as int * S as int)
                        by (nonlinear_arith)
                        requires
                            (j as int) < (S as int),
                    ;
                }
                let forward_buy = self.get_best(Side::Sell, &self.books[book_idx]);
                let forward_sell = self.get_best(Side::Buy, &self.books[j]);
                let reverse_buy = self.get_best(Side::Sell, &self.books[j]);
                let reverse_sell = self.get_best(Side::Buy, &self.books[book_idx]);
                if forward_buy.is_some() && forward_sell.is_some() {
                    let (ask, ask_seq) = forward_buy.unwrap();
                    let (bid, bid_seq) = forward_sell.unwrap();
                    proof {
                        assert(books0[book_idx as int].ask_map().dom().contains(ask));
                        assert(books0[j as int].bid_map().dom().contains(bid));
                    }
                    let sp = self.spread_from_levels(ask, bid, [ask_seq, bid_seq]);
                    let mut t: usize = book_idx * S + j;
                    if j < book_idx {
                        t = t - book_idx;
                    } else {
                        t = t - (book_idx + 1);
                    }
                    let ghost pre = self.spreads@;
                    self.spreads.set(t, sp);
                    proof {
                        assert forall|a: int, b: int|
                            0 <= a < S && 0 <= b < S && a != b && !(a == book_idx && b
                                == j) implies #[trigger] self.spreads@[spread_idx(a, b, S as int)]
                            == pre[spread_idx(a, b, S as int)] by {
                            lemma_spread_idx_bounds(a, b, S as int);
                            lemma_spread_idx_injective(a, b, book_idx as int, j as int, S as int);
                        }
                    }
                }
                if reverse_buy.is_some() && reverse_sell.is_some() {
                    let (ask, ask_seq) = reverse_buy.unwrap();
                    let (bid, bid_seq) = reverse_sell.unwrap();
                    proof {
                        assert(books0[j as int].ask_map().dom().contains(ask));
                        assert(books0[book_idx as int].bid_map().dom().contains(bid));
                    }
                    let sp = self.spread_from_levels(ask, bid, [ask_seq, bid_seq]);
                    let mut t: usize = j * S + book_idx;
                    if book_idx < j {
                        t = t - j;
                    } else {
                        t = t - (j + 1);
                    }
                    let ghost pre = self.spreads@;
                    self.spreads.set(t, sp);
                    proof {
                        assert forall|a: int, b: int|
                            0 <= a < S && 0 <= b < S && a != b && !(a == j && b
                                == book_idx) implies #[trigger] self.spreads@[spread_idx(
                                a,
                                b,
                                S as int,
                            )] == pre[spread_idx(a, b, S as int)] by {
                            lemma_spread_idx_bounds(a, b, S as int);
                            lemma_spread_idx_injective(a, b, j as int, book_idx as int, S as int);
                        }
                    }
                }
            }
            j += 1;
        }
        let ghost scan_spreads = self.spreads@;
        let ghost last0 = self.last_spreads@;
        let mut found: Option<usize> = Option::None;
        let mut i: usize = 0;
        while i < T
            invariant
                i <= T,
                self.wf(),
                scan_spreads == self.spreads@,
                last0 == self0.last_spreads@,
                self.books == self0.books,
                self.pair == self0.pair,
                self0.o25 <= usize::MAX - T,
                self0.o20 <= usize::MAX - T,
                self0.o15 <= usize::MAX - T,
                self0.o10 <= usize::MAX - T,
                self0.o05 <= usize::MAX - T,
                self0.arb_count < usize::MAX,
                self.o25 == self0.o25 + count_ge(scan_spreads, i as int, PPM_025 as int),
                self.o20 == self0.o20 + count_ge(scan_spreads, i as int, PPM_020 as int),
                self.o15 == self0.o15 + count_ge(scan_spreads, i as int, PPM_015 as int),
                self.o10 == self0.o10 + count_ge(scan_spreads, i as int, PPM_010 as int),
                self.o05 == self0.o05 + count_ge(scan_spreads, i as int, PPM_005 as int),
                self.max == fold_max(scan_spreads, i as int, self0.max as int),
                match found {
                    Option::None => {
                        &&& first_arb(scan_spreads, last0, i as int) is None
                        &&& self.last_spreads == self0.last_spreads
                        &&& self.arb_count == self0.arb_count
                    },
                    Option::Some(k) => {
                        &&& k < i
                        &&& first_arb(scan_spreads, last0, i as int) == Option::Some(k as int)
                        &&& self.last_spreads@ == last0.update(k as int, scan_spreads[k as int])
                        &&& self.arb_count == self0.arb_count + 1
                    },
                },
            decreases T - i,
        {
            let sp = self.spreads[i];
            proof {
                lemma_count_ge_bounds(scan_spreads, i as int, PPM_025 as int);
                lemma_count_ge_bounds(scan_spreads, i as int, PPM_020 as int);
                lemma_count_ge_bounds(scan_spreads, i as int, PPM_015 as int);
                lemma_count_ge_bounds(scan_spreads, i as int, PPM_010 as int);
                lemma_count_ge_bounds(scan_spreads, i as int, PPM_005 as int);
            }
            if sp.percentage >= PPM_025 {
                self.o25 = self.o25 + 1;
            }
            if sp.percentage >= PPM_020 {
                self.o20 = self.o20 + 1;
            }
            if sp.percentage >= PPM_015 {
                self.o15 = self.o15 + 1;
            }
            if sp.percentage >= PPM_010 {
                self.o10 = self.o10 + 1;
            }
            if sp.percentage >= PPM_005 {
                self.o05 = self.o05 + 1;
            }
            if sp.percentage >= self.max {
                self.max = sp.percentage;
            }
            if found.is_none() {
                let last = self.last_spreads[i];
                if sp.percentage >= PPM_020 && (last.seqs[0] == 0 || (sp.seqs[0] != last.seqs[0]
                    || sp.seqs[1] != last.seqs[1])) {
                    self.last_spreads.set(i, sp);
                    self.arb_count = self.arb_count + 1;
                    found = Option::Some(i);
                    proof {
                        assert(arb_trigger(scan_spreads[i as int], last0[i as int]));
                    }
                }
            }
            i += 1;
        }
        found
    }
}

/// With exactly one qualifying slot in the scanned matrix — one slot
/// at or above the report threshold but below 0.25%, every other slot
/// below 0.05% — whose sequences differ from the report history (or
/// whose history is still blank), the scan reports that slot, the
/// four counters up to 0.20% each move by exactly one, and the 0.25%
/// counter does not move. Together with `update_spread`'s contract
/// this pins the whole outcome: the arbitrage count rises by one and
/// the slot is copied into the history.
pub proof fn lemma_single_opportunity_scan(spreads: Seq<Spread>, last: Seq<Spread>, k: int)
    requires
        0 <= k < spreads.len(),
        PPM_020 <= spreads[k].percentage < PPM_025,
        forall|i: int|
            0 <= i < spreads.len() && i != k ==> (#[trigger] spreads[i]).percentage < PPM_005,
        arb_trigger(spreads[k], last[k]),
    ensures
        first_arb(spreads, last, spreads.len() as int) == Option::Some(k),
        count_ge(spreads, spreads.len() as int, PPM_025 as int) == 0,
        count_ge(spreads, spreads.len() as int, PPM_020 as int) == 1,
        count_ge(spreads, spreads.len() as int, PPM_015 as int) == 1,
        count_ge(spreads, spreads.len() as int, PPM_010 as int) == 1,
        count_ge(spreads, spreads.len() as int, PPM_005 as int) == 1,
{
    lemma_single_opportunity_prefix(spreads, last, k, spreads.len() as int);
}

/// Induction behind `lemma_single_opportunity_scan`: the prefix scans
/// report and count the single qualifying slot once it is reached.
proof fn lemma_single_opportunity_prefix(spreads: Seq<Spread>, last: Seq<Spread>, k: int, n: int)
    requires
        0 <= k < spreads.len(),
        0 <= n <= spreads.len(),
        PPM_020 <= spreads[k].percentage < PPM_025,
        forall|i: int|
            0 <= i < spreads.len() && i != k ==> (#[trigger] spreads[i]).percentage < PPM_005,
        arb_trigger(spreads[k], last[k]),
    ensures
        first_arb(spreads, last, n) == (if k < n {
            Option::Some(k)
        } else {
            Option::None::<int>
        }),
        count_ge(spreads, n, PPM_025 as int) == 0,
        count_ge(spreads, n, PPM_020 as int) == (if k < n {
            1int
        } else {
            0int
        }),
        count_ge(spreads, n, PPM_015 as int) == (if k < n {
            1int
        } else {
            0int
        }),
        count_ge(spreads, n, PPM_010 as int) == (if k < n {
            1int
        } else {
            0int
        }),
        count_ge(spreads, n, PPM_005 as int) == (if k < n {
            1int
        } else {
            0int
        }),
    decreases n,
{
    if n > 0 {
        lemma_single_opportunity_prefix(spreads, last, k, n - 1);
    }
}

/// Prefix counts never exceed the prefix length.
proof fn lemma_count_ge_bounds(spreads: Seq<Spread>, n: int, threshold: int)
    requires
        0 <= n,
    ensures
        0 <= count_ge(spreads, n, threshold) <= n,
    decreases n,
{
    if n > 0 {
        lemma_count_ge_bounds(spreads, n - 1, threshold);
    }
}

} // verus!
