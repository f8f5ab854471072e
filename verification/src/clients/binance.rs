//! The relayed Binance feed model: pre-normalized JSON records carrying
//! either a best-bid/best-ask book update or a trade, as decimal
//! strings. The translations parse the strings into ticks and scaled
//! amounts and build the canonical messages, including the delta
//! changes that retire a superseded best level.

use vstd::prelude::*;
use vstd::string::StringSliceAdditionalSpecFns;

use crate::data_types;
use crate::decimal::{parse_amount, parse_price, spec_parse_amount, spec_parse_price};

verus! {

/// The side as the feed labels it.
#[derive(Clone, Copy, Debug, PartialEq, Eq, Structural)]
pub enum Side {
    Buy,
    Sell,
}

/// One parsed price level of the feed.
#[derive(Clone, Copy, Debug, PartialEq, Eq, Structural)]
pub struct PriceLevel {
    pub level: usize,
    pub amount: u64,
}

/// One side's new best level.
#[derive(Clone, Copy, Debug, PartialEq, Eq, Structural)]
pub struct Change {
    pub side: Side,
    pub level: PriceLevel,
}

/// A top-of-book update: the new best bid and best ask.
#[derive(Clone, Copy, Debug, PartialEq, Eq, Structural)]
pub struct Update {
    pub best_bid: Change,
    pub best_ask: Change,
}

/// One record of the relayed feed; a trade carries `sent`/`price`/
/// `amount`/`buy`, a book update the four level fields.
#[derive(Debug, PartialEq)]
pub struct InboundMessage {
    pub message_type: String,
    pub pair: String,
    pub sent: Option<i64>,
    pub price: Option<String>,
    pub amount: Option<String>,
    pub bid_level: Option<String>,
    pub ask_level: Option<String>,
    pub bid_amount: Option<String>,
    pub ask_amount: Option<String>,
    pub buy: Option<bool>,
}

/// The book slot a relayed pair symbol drives.
pub open spec fn spec_pair_index(pair: Seq<char>) -> Option<int> {
    if pair == "ETHUSDT"@ {
        Option::Some(0int)
    } else if pair == "BTCUSDT"@ {
        Option::Some(1int)
    } else {
        Option::None
    }
}

/// Routes a relayed pair symbol to its book slot; `None` for an
/// unconfigured pair.
pub fn pair_index(pair: &String) -> (r: Option<usize>)
    ensures
        match r {
            Option::None => spec_pair_index(pair@) is None,
            Option::Some(i) => spec_pair_index(pair@) == Option::Some(i as int),
        },
{
    if *pair == "ETHUSDT".to_owned() {
        Option::Some(0)
    } else if *pair == "BTCUSDT".to_owned() {
        Option::Some(1)
    } else {
        Option::None
    }
}

/// A parsed decimal string field, when present, in range, and well
/// formed.
pub open spec fn spec_field_price(f: Option<String>) -> Option<int> {
    match f {
        Option::None => Option::None,
        Option::Some(s) => match spec_parse_price(vstd::utf8::encode_utf8(s@)) {
            Option::None => Option::None,
            Option::Some(v) => if v <= usize::MAX {
                Option::Some(v)
            } else {
                Option::None
            },
        },
    }
}

/// As `spec_field_price`, for amount fields.
pub open spec fn spec_field_amount(f: Option<String>) -> Option<int> {
    match f {
        Option::None => Option::None,
        Option::Some(s) => match spec_parse_amount(vstd::utf8::encode_utf8(s@)) {
            Option::None => Option::None,
            Option::Some(v) => if v <= u64::MAX {
                Option::Some(v)
            } else {
                Option::None
            },
        },
    }
}

/// Parses a price field: present, well formed and in range.
fn field_price(f: &Option<String>) -> (r: Option<usize>)
    ensures
        match r {
            Option::None => spec_field_price(*f) is None,
            Option::Some(v) => spec_field_price(*f) == Option::Some(v as int),
        },
{
    match f {
        Option::None => Option::None,
        Option::Some(s) => {
            let st = s.as_str();
            let r = parse_price(st);
            proof {
                assert(st.spec_bytes() == vstd::utf8::encode_utf8(s@));
            }
            r
        },
    }
}

/// Parses an amount field: present, well formed and in range.
fn field_amount(f: &Option<String>) -> (r: Option<u64>)
    ensures
        match r {
            Option::None => spec_field_amount(*f) is None,
            Option::Some(v) => spec_field_amount(*f) == Option::Some(v as int),
        },
{
    match f {
        Option::None => Option::None,
        Option::Some(s) => {
            let st = s.as_str();
            let r = parse_amount(st);
            proof {
                assert(st.spec_bytes() == vstd::utf8::encode_utf8(s@));
            }
            r
        },
    }
}

/// Translates a relayed book record into a top-of-book update; `None`
/// when any of the four level fields is absent or malformed.
pub fn inbound_to_update(m: &InboundMessage) -> (r: Option<Update>)
    ensures
        match r {
            Option::None => spec_field_price(m.bid_level) is None || spec_field_amount(
                m.bid_amount,
            ) is None || spec_field_price(m.ask_level) is None || spec_field_amount(m.ask_amount)
                is None,
            Option::Some(u) => {
                &&& spec_field_price(m.bid_level) == Option::Some(u.best_bid.level.level as int)
                &&& spec_field_amount(m.bid_amount) == Option::Some(u.best_bid.level.amount as int)
                &&& spec_field_price(m.ask_level) == Option::Some(u.best_ask.level.level as int)
                &&& spec_field_amount(m.ask_amount) == Option::Some(u.best_ask.level.amount as int)
                &&& u.best_bid.side == Side::Buy
                &&& u.best_ask.side == Side::Sell
            },
        },
{
    let bid_level = field_price(&m.bid_level);
    let bid_amount = field_amount(&m.bid_amount);
    let ask_level = field_price(&m.ask_level);
    let ask_amount = field_amount(&m.ask_amount);
    match (bid_level, bid_amount, ask_level, ask_amount) {
        (Option::Some(bl), Option::Some(ba), Option::Some(al), Option::Some(aa)) => Option::Some(
            Update {
                best_bid: Change { side: Side::Buy, level: PriceLevel { level: bl, amount: ba } },
                best_ask: Change { side: Side::Sell, level: PriceLevel { level: al, amount: aa } },
            },
        ),
        _ => Option::None,
    }
}

/// Translates a relayed trade record into a side-tagged fill; `None`
/// when the price, amount or side field is absent or malformed.
pub fn inbound_to_trade(m: &InboundMessage) -> (r: Option<Change>)
    ensures
        match r {
            Option::None => m.buy is None || spec_field_price(m.price) is None
                || spec_field_amount(m.amount) is None,
            Option::Some(c) => {
                &&& m.buy is Some
                &&& c.side == (if m.buy->0 {
                    Side::Buy
                } else {
                    Side::Sell
                })
                &&& spec_field_price(m.price) == Option::Some(c.level.level as int)
                &&& spec_field_amount(m.amount) == Option::Some(c.level.amount as int)
            },
        },
{
    let price = field_price(&m.price);
    let amount = field_amount(&m.amount);
    match (m.buy, price, amount) {
        (Option::Some(b), Option::Some(p), Option::Some(a)) => Option::Some(
            Change {
                side: if b {
                    Side::Buy
                } else {
                    Side::Sell
                },
                level: PriceLevel { level: p, amount: a },
            },
        ),
        _ => Option::None,
    }
}

/// The delta an incoming top-of-book update applies to a book with the
/// given current bests: a zero-amount change retires a superseded best
/// on each side, then the two new bests are stored.
pub open spec fn spec_delta_changes(
    curr_bid: Option<usize>,
    curr_ask: Option<usize>,
    u: Update,
) -> Seq<data_types::Change> {
    let retire_bid: Seq<data_types::Change> = if curr_bid is Some && u.best_bid.level.level
        != curr_bid->0 {
        seq![
            data_types::Change {
                side: data_types::Side::Buy,
                price_level: data_types::PriceLevel {
                    level: curr_bid->0,
                    amount: 0,
                    sequence: 0,
                },
            },
        ]
    } else {
        Seq::empty()
    };
    let retire_ask: Seq<data_types::Change> = if curr_ask is Some && u.best_ask.level.level
        != curr_ask->0 {
        seq![
            data_types::Change {
                side: data_types::Side::Sell,
                price_level: data_types::PriceLevel {
                    level: curr_ask->0,
                    amount: 0,
                    sequence: 0,
                },
            },
        ]
    } else {
        Seq::empty()
    };
    retire_bid + retire_ask + seq![
        data_types::Change {
            side: data_types::Side::Buy,
            price_level: data_types::PriceLevel {
                level: u.best_bid.level.level,
                amount: u.best_bid.level.amount,
                sequence: 0,
            },
        },
        data_types::Change {
            side: data_types::Side::Sell,
            price_level: data_types::PriceLevel {
                level: u.best_ask.level.level,
                amount: u.best_ask.level.amount,
                sequence: 0,
            },
        },
    ]
}

/// Builds the canonical changes a top-of-book update applies to a book
/// whose current bests are given: superseded bests are deleted, the
/// new bests stored.
pub fn delta_changes(curr_bid: Option<usize>, curr_ask: Option<usize>, u: &Update) -> (r: Vec<
    data_types::Change,
>)
    ensures
        r@ == spec_delta_changes(curr_bid, curr_ask, *u),
{
    let mut changes: Vec<data_types::Change> = Vec::new();
    match curr_bid {
        Option::Some(b) => {
            if u.best_bid.level.level != b {
                changes.push(
                    data_types::Change {
                        side: data_types::Side::Buy,
                        price_level: data_types::PriceLevel { level: b, amount: 0, sequence: 0 },
                    },
                );
            }
        },
        Option::None => {},
    }
    match curr_ask {
        Option::Some(a) => {
            if u.best_ask.level.level != a {
                changes.push(
                    data_types::Change {
                        side: data_types::Side::Sell,
                        price_level: data_types::PriceLevel { level: a, amount: 0, sequence: 0 },
                    },
                );
            }
        },
        Option::None => {},
    }
    changes.push(
        data_types::Change {
            side: data_types::Side::Buy,
            price_level: data_types::PriceLevel {
                level: u.best_bid.level.level,
                amount: u.best_bid.level.amount,
                sequence: 0,
            },
        },
    );
    changes.push(
        data_types::Change {
            side: data_types::Side::Sell,
            price_level: data_types::PriceLevel {
                level: u.best_ask.level.level,
                amount: u.best_ask.level.amount,
                sequence: 0,
            },
        },
    );
    proof {
        assert(changes@ =~= spec_delta_changes(curr_bid, curr_ask, *u));
    }
    changes
}

/// Translates a relayed trade into a canonical trade.
pub fn trade_to_match(c: &Change) -> (r: data_types::Match)
    ensures
        r.side == (match c.side {
            Side::Buy => data_types::Side::Buy,
            Side::Sell => data_types::Side::Sell,
        }),
        r.size == c.level.amount,
        r.price == c.level.level,
{
    data_types::Match {
        side: match c.side {
            Side::Buy => data_types::Side::Buy,
            Side::Sell => data_types::Side::Sell,
        },
        size: c.level.amount,
        price: c.level.level,
    }
}

} // verus!
