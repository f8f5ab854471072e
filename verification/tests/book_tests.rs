use prism_book::data_types::{Change, Match, PriceLevel, Side, Snapshot, Update, AMOUNT_SCALE};
use prism_book::order_book::{rebuild_ask_heap, rebuild_bid_heap, BookError, OrderBook};
use std::cmp::Ordering;

fn level(ticks: usize, units: u64) -> PriceLevel {
    PriceLevel { level: ticks, amount: units * AMOUNT_SCALE, sequence: 0 }
}

fn book_with_levels(bids: Vec<PriceLevel>, asks: Vec<PriceLevel>) -> OrderBook {
    let mut book = OrderBook::new("test".to_string(), "ETH-USD".to_string());
    book.init(&Snapshot { bids, asks });
    book
}

fn single_change(side: Side, ticks: usize, amount: u64) -> Update<'static> {
    Update {
        product_id: "",
        time: "",
        changes: vec![Change {
            side,
            price_level: PriceLevel { level: ticks, amount, sequence: 0 },
        }],
    }
}

#[test]
fn snapshot_sets_best_prices() {
    // Bids 100.00 and 99.50, asks 100.50 and 101.00, one unit each side
    // except where noted.
    let mut book = book_with_levels(
        vec![level(10000, 1), level(9950, 2)],
        vec![level(10050, 1), level(10100, 3)],
    );
    assert_eq!(book.best_bid, Some(10000));
    assert_eq!(book.best_ask, Some(10050));
    // Loading both sides folds the tops into the averages and the
    // pressure at once.
    assert_eq!(book.pressure, 10025);
    assert_eq!(book.avg_bid, AMOUNT_SCALE);
    assert_eq!(book.avg_ask, AMOUNT_SCALE);
    // An update keeps them current.
    let r = book.update(&Update { product_id: "", time: "", changes: vec![] });
    assert!(r.is_ok());
    assert_eq!(book.pressure, 10025);
    assert_eq!(book.avg_bid, AMOUNT_SCALE);
}

#[test]
fn delete_via_zero_removes_level() {
    let mut book = book_with_levels(
        vec![level(10000, 1), level(9950, 2)],
        vec![level(10050, 1), level(10100, 3)],
    );
    let r = book.update(&single_change(Side::Buy, 10000, 0));
    assert!(r.is_ok());
    assert!(book.bid_lookup.get(&10000).is_none());
    assert!(book.bid_level(10000).is_none());
    assert_eq!(book.bid_level(9950), Some(level(9950, 2)));
    assert_eq!(book.best_bid, Some(9950));
    assert_eq!(book.best_ask, Some(10050));
}

#[test]
fn stale_tip_is_skipped_lazily() {
    let mut book = book_with_levels(
        vec![level(10000, 1), level(9950, 2)],
        vec![level(10050, 1), level(10100, 3)],
    );
    let r = book.update(&single_change(Side::Sell, 10050, 0));
    assert!(r.is_ok());
    let r = book.update(&single_change(Side::Sell, 10040, AMOUNT_SCALE / 2));
    assert!(r.is_ok());
    assert_eq!(book.best_ask, Some(10040));
    // The cached best always matches the lookup and the heap tip.
    assert!(book.ask_lookup.get(&10040).is_some());
    assert_eq!(book.asks.peek(), Some(&10040));
}

#[test]
fn tips_match_best_caches() {
    let mut book = book_with_levels(
        vec![level(10000, 1), level(9950, 2)],
        vec![level(10050, 1)],
    );
    assert_eq!(book.bid_tip(), book.best_bid);
    assert_eq!(book.ask_tip(), book.best_ask);
    let r = book.update(&single_change(Side::Buy, 10000, 0));
    assert!(r.is_ok());
    assert_eq!(book.bid_tip(), Some(9950));
    assert_eq!(book.bids.peek(), Some(&9950));
}

#[test]
fn lookup_entries_keyed_by_level() {
    let book = book_with_levels(
        vec![level(10000, 1), level(9950, 2)],
        vec![level(10050, 1)],
    );
    for (k, v) in book.bid_lookup.iter() {
        assert_eq!(*k, v.level);
        assert!(v.amount > 0);
    }
    for (k, v) in book.ask_lookup.iter() {
        assert_eq!(*k, v.level);
        assert!(v.amount > 0);
    }
}

#[test]
fn insert_stores_exact_level() {
    let mut book = book_with_levels(vec![level(9950, 2)], vec![level(10050, 1)]);
    let r = book.update(&single_change(Side::Buy, 10000, 3 * AMOUNT_SCALE));
    assert!(r.is_ok());
    let stored = book.bid_lookup.get(&10000).copied().unwrap();
    assert_eq!(stored.level, 10000);
    assert_eq!(stored.amount, 3 * AMOUNT_SCALE);
    assert_eq!(book.best_bid, Some(10000));
}

#[test]
fn reinit_overwrites_previous_snapshot() {
    let mut book = book_with_levels(
        vec![level(10000, 1), level(9950, 2)],
        vec![level(10050, 1)],
    );
    let second = Snapshot { bids: vec![level(20000, 5)], asks: vec![level(20100, 5)] };
    book.init(&second);
    let mut fresh = OrderBook::new("test".to_string(), "ETH-USD".to_string());
    fresh.init(&Snapshot { bids: vec![level(20000, 5)], asks: vec![level(20100, 5)] });
    assert_eq!(book.best_bid, fresh.best_bid);
    assert_eq!(book.best_ask, fresh.best_ask);
    assert_eq!(book.bid_lookup.len(), fresh.bid_lookup.len());
    assert!(book.bid_lookup.get(&10000).is_none());
    assert_eq!(book.bid_lookup.get(&20000), fresh.bid_lookup.get(&20000));
}

#[test]
fn zero_change_twice_is_idempotent() {
    let mut book = book_with_levels(
        vec![level(10000, 1), level(9950, 2)],
        vec![level(10050, 1)],
    );
    let r = book.update(&single_change(Side::Buy, 10000, 0));
    assert!(r.is_ok());
    let depth_after_first = book.bid_lookup.len();
    let best_after_first = book.best_bid;
    let r = book.update(&single_change(Side::Buy, 10000, 0));
    assert!(r.is_ok());
    assert_eq!(book.bid_lookup.len(), depth_after_first);
    assert_eq!(book.best_bid, best_after_first);
    assert!(book.bid_lookup.get(&10000).is_none());
}

#[test]
fn single_level_side_is_its_own_best() {
    let book = book_with_levels(vec![level(31415, 7)], vec![level(31416, 7)]);
    assert_eq!(book.best_bid, Some(31415));
    assert_eq!(book.bids.peek(), Some(&31415));
    assert_eq!(book.best_ask, Some(31416));
    assert_eq!(book.asks.peek(), Some(&31416));
}

#[test]
fn crossed_book_reports_desync() {
    let mut book = book_with_levels(vec![level(10000, 1)], vec![level(10050, 1)]);
    // A bid stored above the best ask crosses the book.
    let r = book.update(&single_change(Side::Buy, 10100, AMOUNT_SCALE));
    assert_eq!(r, Err(BookError::Desync));
}

#[test]
fn trade_impulse_moves_theoretical_price() {
    let mut book = book_with_levels(vec![level(10000, 1)], vec![level(10050, 1)]);
    let r = book.update(&Update { product_id: "", time: "", changes: vec![] });
    assert!(r.is_ok());
    assert_eq!(book.pressure, 10025);
    book.update_impulse(&Match { side: Side::Buy, size: 2 * AMOUNT_SCALE, price: 10050 });
    assert_eq!(book.theoretical_price, 10075);
    // The next non-trade update resets the estimate.
    let r = book.update(&Update { product_id: "", time: "", changes: vec![] });
    assert!(r.is_ok());
    assert_eq!(book.theoretical_price, 0);
}

#[test]
fn sell_aggressor_pushes_theoretical_price_down() {
    let mut book = book_with_levels(vec![level(10000, 1)], vec![level(10050, 1)]);
    let r = book.update(&Update { product_id: "", time: "", changes: vec![] });
    assert!(r.is_ok());
    book.update_impulse(&Match { side: Side::Sell, size: 2 * AMOUNT_SCALE, price: 10000 });
    assert_eq!(book.theoretical_price, 10025 - 50);
}

#[test]
fn update_counts_every_change() {
    let mut book = book_with_levels(vec![level(10000, 1)], vec![level(10050, 1)]);
    let update = Update {
        product_id: "",
        time: "",
        changes: vec![
            Change { side: Side::Buy, price_level: PriceLevel { level: 9990, amount: AMOUNT_SCALE, sequence: 0 } },
            Change { side: Side::Sell, price_level: PriceLevel { level: 10060, amount: AMOUNT_SCALE, sequence: 0 } },
        ],
    };
    let r = book.update(&update);
    assert!(r.is_ok());
    assert_eq!(book.count, 2);
    // Buy sequences are positive-monotone, sell sequences negative.
    assert_eq!(book.bid_lookup.get(&9990).unwrap().sequence, 1);
    assert_eq!(book.ask_lookup.get(&10060).unwrap().sequence, -2);
}

#[test]
fn full_heap_triggers_compaction_on_next_push() {
    let mut book = book_with_levels(vec![], vec![level(70000, 1)]);
    // Fill the bid side with 65535 distinct levels, 512 changes per
    // update.
    let mut next: usize = 1;
    while next <= 65535 {
        let mut changes = Vec::new();
        while changes.len() < 512 && next <= 65535 {
            changes.push(Change {
                side: Side::Buy,
                price_level: PriceLevel { level: next, amount: AMOUNT_SCALE, sequence: 0 },
            });
            next += 1;
        }
        let r = book.update(&Update { product_id: "", time: "", changes });
        assert!(r.is_ok());
    }
    assert_eq!(book.bid_lookup.len(), 65535);
    assert_eq!(book.bids.len(), 65535);
    // Delete a level far from the tip: its heap copy goes stale.
    let r = book.update(&single_change(Side::Buy, 1, 0));
    assert!(r.is_ok());
    assert_eq!(book.bid_lookup.len(), 65534);
    assert_eq!(book.bids.len(), 65535);
    // Reinsert it: the heap reaches its capacity of 65536.
    let r = book.update(&single_change(Side::Buy, 1, AMOUNT_SCALE));
    assert!(r.is_ok());
    assert_eq!(book.bid_lookup.len(), 65535);
    assert_eq!(book.bids.len(), 65536);
    // The next push finds the heap full and compacts it down to the
    // lookup's keys before pushing.
    let r = book.update(&single_change(Side::Buy, 2, 2 * AMOUNT_SCALE));
    assert!(r.is_ok());
    assert_eq!(book.bid_lookup.len(), 65535);
    assert_eq!(book.bids.len(), book.bid_lookup.len() + 1);
    assert_eq!(book.best_bid, Some(65535));
}

#[test]
fn compaction_rebuilds_heap_from_lookup() {
    let mut book = book_with_levels(
        vec![level(10000, 1), level(9950, 2), level(9900, 3)],
        vec![level(10050, 1), level(10100, 2)],
    );
    // Delete a non-top level: the heap keeps a stale copy.
    let r = book.update(&single_change(Side::Buy, 9950, 0));
    assert!(r.is_ok());
    assert_eq!(book.bid_lookup.len(), 2);
    assert_eq!(book.bids.len(), 3);
    // Compaction drops the stale entries: afterwards the heap size
    // equals the lookup size.
    rebuild_bid_heap(&book.bid_lookup, &mut book.bids);
    assert_eq!(book.bids.len(), book.bid_lookup.len());
    rebuild_ask_heap(&book.ask_lookup, &mut book.asks);
    assert_eq!(book.asks.len(), book.ask_lookup.len());
    assert_eq!(book.bids.peek(), Some(&10000));
}

#[test]
fn price_levels_order_by_level_then_sequence() {
    let a = PriceLevel { level: 1, amount: 5, sequence: 9 };
    let b = PriceLevel { level: 2, amount: 1, sequence: 0 };
    assert_eq!(a.partial_cmp(&b), Some(Ordering::Less));
    let c = PriceLevel { level: 1, amount: 7, sequence: 10 };
    assert_eq!(a.partial_cmp(&c), Some(Ordering::Less));
    let d = PriceLevel { level: 1, amount: 7, sequence: 9 };
    assert_eq!(a.partial_cmp(&d), Some(Ordering::Equal));
}
