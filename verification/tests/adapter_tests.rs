use prism_book::clients::{binance, bitstamp, coinbase, gemini, kraken};
use prism_book::data_types::{self, AMOUNT_SCALE};
use prism_book::relay;

#[test]
fn test_message() {

}

#[test]
fn test_update() {

}

#[test]
fn coinbase_change_translates_one_for_one() {
    // "buy", "10.01", "1100.0" on the wire.
    let update = coinbase::Update {
        changes: vec![coinbase::Change {
            side: coinbase::Side::Buy,
            price_level: coinbase::PriceLevel {
                level: prism_book::decimal::parse_price("10.01").unwrap(),
                amount: prism_book::decimal::parse_amount("1100.0").unwrap(),
                sequence: 0,
            },
        }],
    };
    assert_eq!(update.changes[0].price_level.level, 1001);
    assert_eq!(update.changes[0].price_level.amount, 1100 * AMOUNT_SCALE);
    let changes = coinbase::update_changes(&update);
    assert_eq!(changes.len(), 1);
    assert_eq!(changes[0].side, data_types::Side::Buy);
    assert_eq!(changes[0].price_level.level, 1001);
    assert_eq!(changes[0].price_level.amount, 1100 * AMOUNT_SCALE);
    assert_eq!(changes[0].price_level.sequence, 0);
}

#[test]
fn coinbase_snapshot_translates_both_sides() {
    let snapshot = coinbase::Snapshot {
        bids: vec![
            coinbase::PriceLevel { level: 1001, amount: AMOUNT_SCALE, sequence: 9 },
            coinbase::PriceLevel { level: 1107, amount: 2 * AMOUNT_SCALE, sequence: 9 },
        ],
        asks: vec![coinbase::PriceLevel { level: 1223, amount: AMOUNT_SCALE, sequence: 9 }],
    };
    let book = coinbase::snapshot_to_book(&snapshot);
    assert_eq!(book.bids.len(), 2);
    assert_eq!(book.asks.len(), 1);
    assert_eq!(book.bids[0].level, 1001);
    assert_eq!(book.bids[1].level, 1107);
    assert_eq!(book.asks[0].level, 1223);
    // The book assigns sequence tags itself; they enter as zero.
    assert_eq!(book.bids[0].sequence, 0);
}

#[test]
fn coinbase_pair_names_pass_through() {
    assert_eq!(coinbase::translate_pair(&"ETH-USD".to_string()), Some("ETH-USD".to_string()));
    assert_eq!(coinbase::translate_pair(&"DOGE-USD".to_string()), None);
}

#[test]
fn gemini_snapshot_splits_sides() {
    let snapshot = gemini::Snapshot {
        changes: vec![
            gemini::Change {
                side: gemini::Side::Buy,
                price_level: gemini::PriceLevel { level: 100, amount: 1, sequence: 0 },
            },
            gemini::Change {
                side: gemini::Side::Sell,
                price_level: gemini::PriceLevel { level: 200, amount: 2, sequence: 0 },
            },
            gemini::Change {
                side: gemini::Side::Buy,
                price_level: gemini::PriceLevel { level: 150, amount: 3, sequence: 0 },
            },
        ],
    };
    let book = gemini::snapshot_to_book(&snapshot);
    assert_eq!(book.bids.len(), 2);
    assert_eq!(book.bids[0].level, 100);
    assert_eq!(book.bids[1].level, 150);
    assert_eq!(book.asks.len(), 1);
    assert_eq!(book.asks[0].level, 200);
}

#[test]
fn gemini_pair_names_drop_the_dash() {
    assert_eq!(gemini::translate_pair(&"ETH-USD".to_string()), Some("ETHUSD".to_string()));
    assert_eq!(gemini::translate_pair(&"BTC-USDT".to_string()), Some("BTCUSDT".to_string()));
    assert_eq!(gemini::translate_pair(&"DOGE-USD".to_string()), None);
}

#[test]
fn bitstamp_update_orders_bids_before_asks() {
    let update = bitstamp::Update {
        bids: vec![bitstamp::PriceLevel { level: 100, amount: 1 }],
        asks: vec![
            bitstamp::PriceLevel { level: 200, amount: 2 },
            bitstamp::PriceLevel { level: 201, amount: 0 },
        ],
    };
    let changes = bitstamp::update_changes(&update);
    assert_eq!(changes.len(), 3);
    assert_eq!(changes[0].side, data_types::Side::Buy);
    assert_eq!(changes[0].price_level.level, 100);
    assert_eq!(changes[1].side, data_types::Side::Sell);
    assert_eq!(changes[1].price_level.level, 200);
    assert_eq!(changes[2].price_level.amount, 0);
}

#[test]
fn bitstamp_pair_names_are_lowercased() {
    assert_eq!(bitstamp::translate_pair(&"ETH-USD".to_string()), Some("ethusd".to_string()));
    assert_eq!(bitstamp::translate_pair(&"DOGE-USD".to_string()), None);
}

#[test]
fn kraken_snapshot_skips_republished_levels() {
    let msg = kraken::Message::Double {
        content_1: kraken::Content {
            asks: Some(vec![
                kraken::PriceLevel { level: 554130, amount: 250_700_000, republished: false },
                kraken::PriceLevel { level: 554140, amount: 10_000_000, republished: true },
            ]),
            bids: Some(vec![kraken::PriceLevel { level: 554120, amount: 152_900_000, republished: false }]),
        },
        content_2: kraken::Content {
            asks: Some(vec![
                kraken::PriceLevel { level: 554180, amount: 33_000_000, republished: true },
                kraken::PriceLevel { level: 554270, amount: 64_700_000, republished: false },
            ]),
            bids: Some(vec![kraken::PriceLevel { level: 553990, amount: 30_000_000, republished: true }]),
        },
    };
    let book = kraken::snapshot_to_book(&msg);
    // Republished levels are excluded from every content object.
    assert_eq!(book.bids.len(), 1);
    assert_eq!(book.bids[0].level, 554120);
    assert_eq!(book.asks.len(), 2);
    assert_eq!(book.asks[0].level, 554130);
    assert_eq!(book.asks[1].level, 554270);
    // A single-content snapshot is filtered too.
    let single = kraken::Message::Single {
        content: kraken::Content {
            asks: Some(vec![kraken::PriceLevel { level: 554130, amount: 1, republished: false }]),
            bids: Some(vec![kraken::PriceLevel { level: 554120, amount: 1, republished: true }]),
        },
    };
    let book = kraken::snapshot_to_book(&single);
    assert_eq!(book.bids.len(), 0);
    assert_eq!(book.asks.len(), 1);
}

#[test]
fn kraken_update_keeps_republished_levels() {
    let msg = kraken::Message::Single {
        content: kraken::Content {
            asks: Some(vec![
                kraken::PriceLevel { level: 189720, amount: 0, republished: false },
                kraken::PriceLevel { level: 190443, amount: 15_752_791_502, republished: true },
            ]),
            bids: None,
        },
    };
    let changes = kraken::update_changes(&msg);
    assert_eq!(changes.len(), 2);
    assert_eq!(changes[0].side, data_types::Side::Sell);
    assert_eq!(changes[0].price_level.level, 189720);
    assert_eq!(changes[0].price_level.amount, 0);
    assert_eq!(changes[1].price_level.level, 190443);
}

#[test]
fn kraken_pair_names_use_xbt() {
    assert_eq!(kraken::translate_pair(&"ETH-USD".to_string()), Some("ETH/USD".to_string()));
    assert_eq!(kraken::translate_pair(&"BTC-USD".to_string()), Some("XBT/USD".to_string()));
    assert_eq!(kraken::translate_pair(&"DOGE-USD".to_string()), None);
}

#[test]
fn binance_pair_routing() {
    assert_eq!(binance::pair_index(&"ETHUSDT".to_string()), Some(0));
    assert_eq!(binance::pair_index(&"BTCUSDT".to_string()), Some(1));
    assert_eq!(binance::pair_index(&"DOGEUSDT".to_string()), None);
}

fn inbound_book(bid_level: &str, bid_amount: &str, ask_level: &str, ask_amount: &str) -> binance::InboundMessage {
    binance::InboundMessage {
        message_type: "book".to_string(),
        pair: "BTCUSDT".to_string(),
        sent: None,
        price: None,
        amount: None,
        bid_level: Some(bid_level.to_string()),
        ask_level: Some(ask_level.to_string()),
        bid_amount: Some(bid_amount.to_string()),
        ask_amount: Some(ask_amount.to_string()),
        buy: None,
    }
}

#[test]
fn binance_inbound_book_update_parses_strings() {
    let msg = inbound_book("25000.00", "1.5", "25001.00", "2.0");
    let update = binance::inbound_to_update(&msg).unwrap();
    assert_eq!(update.best_bid.level.level, 2_500_000);
    assert_eq!(update.best_bid.level.amount, 150_000_000);
    assert_eq!(update.best_ask.level.level, 2_500_100);
    assert_eq!(update.best_ask.level.amount, 2 * AMOUNT_SCALE);
    // A malformed field rejects the record.
    let bad = inbound_book("25000.00", "1.5", "25x01", "2.0");
    assert!(binance::inbound_to_update(&bad).is_none());
}

#[test]
fn binance_delta_retires_superseded_bests() {
    let msg = inbound_book("25000.00", "1.5", "25001.00", "2.0");
    let update = binance::inbound_to_update(&msg).unwrap();
    let changes = binance::delta_changes(Some(2_499_900), Some(2_500_100), &update);
    // The old best bid moved: deleted. The old best ask is unchanged:
    // kept. Then both new bests are stored.
    assert_eq!(changes.len(), 3);
    assert_eq!(changes[0].side, data_types::Side::Buy);
    assert_eq!(changes[0].price_level.level, 2_499_900);
    assert_eq!(changes[0].price_level.amount, 0);
    assert_eq!(changes[1].price_level.level, 2_500_000);
    assert_eq!(changes[2].side, data_types::Side::Sell);
    assert_eq!(changes[2].price_level.level, 2_500_100);
    // A fresh book has nothing to retire.
    let changes = binance::delta_changes(None, None, &update);
    assert_eq!(changes.len(), 2);
}

#[test]
fn binance_inbound_trade_parses_side_and_fields() {
    let msg = binance::InboundMessage {
        message_type: "trade".to_string(),
        pair: "ETHUSDT".to_string(),
        sent: Some(1_689_025_543_609),
        price: Some("1897.20".to_string()),
        amount: Some("0.25".to_string()),
        bid_level: None,
        ask_level: None,
        bid_amount: None,
        ask_amount: None,
        buy: Some(false),
    };
    let trade = binance::inbound_to_trade(&msg).unwrap();
    assert_eq!(trade.side, binance::Side::Sell);
    assert_eq!(trade.level.level, 189720);
    assert_eq!(trade.level.amount, 25_000_000);
    let m = binance::trade_to_match(&trade);
    assert_eq!(m.side, data_types::Side::Sell);
    assert_eq!(m.price, 189720);
    assert_eq!(m.size, 25_000_000);
}

#[test]
fn relay_wraps_trades_and_book_updates() {
    let t = relay::Trade {
        sent: 77,
        pair: "BTCUSDT".to_string(),
        price: "25000.00".to_string(),
        amount: "0.5".to_string(),
    };
    let out = relay::outbound_of_trade(&t);
    assert_eq!(out.message_type, "trade");
    assert_eq!(out.pair, "BTCUSDT");
    assert_eq!(out.sent, Some(77));
    assert_eq!(out.price.as_deref(), Some("25000.00"));
    assert!(out.bid_level.is_none());
    let u = relay::BookUpdate {
        pair: "ETHUSDT".to_string(),
        bid_level: "1897.20".to_string(),
        ask_level: "1897.30".to_string(),
        bid_amount: "1.0".to_string(),
        ask_amount: "2.0".to_string(),
    };
    let out = relay::outbound_of_book_update(&u);
    assert_eq!(out.message_type, "book");
    assert_eq!(out.bid_level.as_deref(), Some("1897.20"));
    assert_eq!(out.ask_amount.as_deref(), Some("2.0"));
    assert!(out.sent.is_none());
}
