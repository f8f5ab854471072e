//! The outbound relay: normalizes raw Binance trade and top-of-book
//! records into the single `OutboundMessage` shape the inbound side of
//! the system consumes.

use vstd::prelude::*;

verus! {

/// A raw trade record: epoch milliseconds when it was sent, the pair,
/// and price and quantity as decimal strings.
#[derive(Debug, PartialEq)]
pub struct Trade {
    pub sent: i64,
    pub pair: String,
    pub price: String,
    pub amount: String,
}

/// A raw top-of-book record: the pair and the four best-level fields
/// as decimal strings.
#[derive(Debug, PartialEq)]
pub struct BookUpdate {
    pub pair: String,
    pub bid_level: String,
    pub ask_level: String,
    pub bid_amount: String,
    pub ask_amount: String,
}

/// The normalized record the relay forwards: a type tag, the pair, and
/// whichever payload fields the type carries.
#[derive(Debug, PartialEq)]
pub struct OutboundMessage {
    pub message_type: String,
    pub pair: String,
    pub sent: Option<i64>,
    pub price: Option<String>,
    pub amount: Option<String>,
    pub bid_level: Option<String>,
    pub ask_level: Option<String>,
    pub bid_amount: Option<String>,
    pub ask_amount: Option<String>,
}

/// Wraps a trade record: type `"trade"`, the trade fields filled, the
/// book fields absent.
pub fn outbound_of_trade(t: &Trade) -> (r: OutboundMessage)
    ensures
        r.message_type@ == "trade"@,
        r.pair@ == t.pair@,
        r.sent == Option::Some(t.sent),
        r.price matches Option::Some(p) && p@ == t.price@,
        r.amount matches Option::Some(a) && a@ == t.amount@,
        r.bid_level is None && r.ask_level is None,
        r.bid_amount is None && r.ask_amount is None,
{
    OutboundMessage {
        message_type: "trade".to_owned(),
        pair: t.pair.clone(),
        sent: Option::Some(t.sent),
        price: Option::Some(t.price.clone()),
        amount: Option::Some(t.amount.clone()),
        bid_level: Option::None,
        ask_level: Option::None,
        bid_amount: Option::None,
        ask_amount: Option::None,
    }
}

/// Wraps a top-of-book record: type `"book"`, the four level fields
/// filled, the trade fields absent.
pub fn outbound_of_book_update(u: &BookUpdate) -> (r: OutboundMessage)
    ensures
        r.message_type@ == "book"@,
        r.pair@ == u.pair@,
        r.sent is None && r.price is None && r.amount is None,
        r.bid_level matches Option::Some(b) && b@ == u.bid_level@,
        r.ask_level matches Option::Some(a) && a@ == u.ask_level@,
        r.bid_amount matches Option::Some(b) && b@ == u.bid_amount@,
        r.ask_amount matches Option::Some(a) && a@ == u.ask_amount@,
{
    OutboundMessage {
        message_type: "book".to_owned(),
        pair: u.pair.clone(),
        sent: Option::None,
        price: Option::None,
        amount: Option::None,
        bid_level: Option::Some(u.bid_level.clone()),
        ask_level: Option::Some(u.ask_level.clone()),
        bid_amount: Option::Some(u.bid_amount.clone()),
        ask_amount: Option::Some(u.ask_amount.clone()),
    }
}

} // verus!
