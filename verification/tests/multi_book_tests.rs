use prism_book::data_types::{Change, PriceLevel, Side, Snapshot, Update, AMOUNT_SCALE};
use prism_book::multi_book::MultiBook;

fn level(ticks: usize, units: u64) -> PriceLevel {
    PriceLevel { level: ticks, amount: units * AMOUNT_SCALE, sequence: 0 }
}

fn two_books() -> MultiBook<2, 2> {
    MultiBook::<2, 2>::new(
        "BTC-USD".to_string(),
        vec!["alpha".to_string(), "beta".to_string()],
    )
}

#[test]
fn new_multi_book_is_zeroed() {
    let mb = two_books();
    assert_eq!(mb.books.len(), 2);
    assert_eq!(mb.spreads.len(), 2);
    assert_eq!(mb.books[0].name, "alpha");
    assert_eq!(mb.books[1].name, "beta");
    assert_eq!(mb.books[0].pair, "BTC-USD");
    for sp in &mb.spreads {
        assert_eq!(sp.raw, 0);
        assert_eq!(sp.percentage, 0);
        assert_eq!(sp.seqs, [0, 0]);
    }
    assert_eq!(mb.arb_count, 0);
    assert_eq!(mb.max, 0);
}

#[test]
fn cross_exchange_spread_values() {
    let mut mb = two_books();
    mb.books[0].init(&Snapshot {
        bids: vec![level(2_500_000, 1)],
        asks: vec![level(2_500_200, 1)],
    });
    mb.books[1].init(&Snapshot {
        bids: vec![level(2_500_400, 1)],
        asks: vec![level(2_500_600, 1)],
    });
    let r = mb.update_spread(1);
    assert!(r.is_none());
    // Forward: buy at book 0's ask, sell at book 1's bid.
    assert_eq!(mb.spreads[0].raw, 2_500_400 - 2_500_200);
    assert_eq!(mb.spreads[0].percentage, 200i64 * 1_000_000 / 2_500_200);
    assert_eq!(mb.spreads[0].percentage, 79);
    // Reverse: buy at book 1's ask, sell at book 0's bid.
    assert_eq!(mb.spreads[1].raw, 2_500_000 - 2_500_600);
    assert_eq!(mb.spreads[1].percentage, -239);
    // Thresholds: nothing at or above 0.05% here.
    assert_eq!(mb.o05, 0);
    assert_eq!(mb.arb_count, 0);
    assert_eq!(mb.max, 79);
}

#[test]
fn spread_reflects_book_difference_both_ways() {
    let mut mb = two_books();
    mb.books[0].init(&Snapshot {
        bids: vec![level(10000, 1)],
        asks: vec![level(10010, 1)],
    });
    mb.books[1].init(&Snapshot {
        bids: vec![level(10020, 1)],
        asks: vec![level(10030, 1)],
    });
    let r = mb.update_spread(0);
    assert!(r.is_none());
    assert_eq!(mb.spreads[0].raw, 10020 - 10010);
    assert_eq!(mb.spreads[1].raw, 10000 - 10030);
    // A pair with an unset side keeps its old slot.
    let mut mb2 = two_books();
    mb2.books[0].init(&Snapshot {
        bids: vec![level(10000, 1)],
        asks: vec![level(10010, 1)],
    });
    let r = mb2.update_spread(0);
    assert!(r.is_none());
    assert_eq!(mb2.spreads[0].raw, 0);
    assert_eq!(mb2.spreads[1].raw, 0);
}

#[test]
fn arbitrage_detection_counts_and_dedups() {
    let mut mb = two_books();
    // Buy at 10,000.00, sell at 10,021.00: 0.21% spread.
    mb.books[0].init(&Snapshot {
        bids: vec![level(999_900, 1)],
        asks: vec![level(1_000_000, 1)],
    });
    mb.books[1].init(&Snapshot {
        bids: vec![level(1_002_100, 1)],
        asks: vec![level(1_002_200, 1)],
    });
    // Touch the quoted levels so they carry nonzero sequence tags;
    // all-zero tags would re-trigger the report on every scan.
    let touch_ask = Update {
        product_id: "",
        time: "",
        changes: vec![Change {
            side: Side::Sell,
            price_level: prism_book::data_types::PriceLevel {
                level: 1_000_000,
                amount: AMOUNT_SCALE,
                sequence: 0,
            },
        }],
    };
    assert!(mb.books[0].update(&touch_ask).is_ok());
    let touch_bid = Update {
        product_id: "",
        time: "",
        changes: vec![Change {
            side: Side::Buy,
            price_level: prism_book::data_types::PriceLevel {
                level: 1_002_100,
                amount: AMOUNT_SCALE,
                sequence: 0,
            },
        }],
    };
    assert!(mb.books[1].update(&touch_bid).is_ok());
    let r = mb.update_spread(1);
    // The forward spread (slot 0) trips the report threshold.
    assert_eq!(r, Some(0));
    assert_eq!(mb.spreads[0].percentage, 2100);
    assert_eq!(mb.arb_count, 1);
    assert_eq!(mb.o25, 0);
    assert_eq!(mb.o20, 1);
    assert_eq!(mb.o15, 1);
    assert_eq!(mb.o10, 1);
    assert_eq!(mb.o05, 1);
    assert_eq!(mb.max, 2100);
    assert_eq!(mb.last_spreads[0].percentage, 2100);
    // Same books, same sequences: the report is deduplicated, while
    // the counters keep counting over the whole matrix.
    let r = mb.update_spread(1);
    assert!(r.is_none());
    assert_eq!(mb.arb_count, 1);
    assert_eq!(mb.o20, 2);
    // The bid moves up to a 0.27% spread with a fresh sequence tag: a
    // new report, and the 0.25% counter starts moving.
    let raise_quote = Update {
        product_id: "",
        time: "",
        changes: vec![
            Change {
                side: Side::Sell,
                price_level: PriceLevel { level: 1_002_200, amount: 0, sequence: 0 },
            },
            Change {
                side: Side::Sell,
                price_level: PriceLevel { level: 1_002_800, amount: AMOUNT_SCALE, sequence: 0 },
            },
            Change {
                side: Side::Buy,
                price_level: PriceLevel { level: 1_002_700, amount: AMOUNT_SCALE, sequence: 0 },
            },
        ],
    };
    assert!(mb.books[1].update(&raise_quote).is_ok());
    let r = mb.update_spread(1);
    assert_eq!(r, Some(0));
    assert_eq!(mb.spreads[0].percentage, 2700);
    assert_eq!(mb.arb_count, 2);
    assert_eq!(mb.o25, 1);
    assert_eq!(mb.max, 2700);
}

#[test]
fn counters_cover_slots_past_the_reported_one() {
    let mut mb = MultiBook::<3, 6>::new(
        "ETH-USD".to_string(),
        vec!["alpha".to_string(), "beta".to_string(), "gamma".to_string()],
    );
    mb.books[0].init(&Snapshot {
        bids: vec![level(999_900, 1)],
        asks: vec![level(1_000_000, 1)],
    });
    mb.books[1].init(&Snapshot {
        bids: vec![level(1_002_100, 1)],
        asks: vec![level(1_002_200, 1)],
    });
    mb.books[2].init(&Snapshot {
        bids: vec![level(1_002_400, 1)],
        asks: vec![level(1_002_500, 1)],
    });
    // Both directed spreads out of book 0 qualify: 0.21% to book 1
    // (slot 0, the reported one) and 0.24% to book 2 (slot 1). The
    // scan reports the first but still counts the second.
    let r = mb.update_spread(0);
    assert_eq!(r, Some(0));
    assert_eq!(mb.spreads[0].percentage, 2100);
    assert_eq!(mb.spreads[1].percentage, 2400);
    assert_eq!(mb.arb_count, 1);
    assert_eq!(mb.o25, 0);
    assert_eq!(mb.o20, 2);
    assert_eq!(mb.o15, 2);
    assert_eq!(mb.o10, 2);
    assert_eq!(mb.o05, 2);
    assert_eq!(mb.max, 2400);
    assert_eq!(mb.last_spreads[0].percentage, 2100);
    assert_eq!(mb.last_spreads[1].percentage, 0);
}
