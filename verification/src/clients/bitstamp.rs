//! The Bitstamp-style diff-order-book feed model and its translation
//! into the canonical book messages. The first message doubles as the
//! snapshot; later ones are diffs.

use vstd::prelude::*;

use crate::data_types;

verus! {

/// One parsed price level of the feed.
#[derive(Clone, Copy, Debug, PartialEq, Eq, Structural)]
pub struct PriceLevel {
    pub level: usize,
    pub amount: u64,
}

/// One feed message: the levels of both sides.
#[derive(Debug, PartialEq)]
pub struct Update {
    pub bids: Vec<PriceLevel>,
    pub asks: Vec<PriceLevel>,
}

/// Updates with this many levels per side or more are a protocol
/// violation.
pub const MAX_BITSTAMP_UPDATE: usize = 128;

/// The canonical level a feed level denotes.
pub open spec fn book_level(p: PriceLevel) -> data_types::PriceLevel {
    data_types::PriceLevel { level: p.level, amount: p.amount, sequence: 0 }
}

/// The canonical change a feed level denotes on a given side.
pub open spec fn book_change(p: PriceLevel, side: data_types::Side) -> data_types::Change {
    data_types::Change { side, price_level: book_level(p) }
}

/// Translates the first feed message into a canonical snapshot, level
/// by level.
pub fn snapshot_to_book(s: &Update) -> (r: data_types::Snapshot)
    ensures
        r.bids@.len() == s.bids@.len(),
        forall|i: int| 0 <= i < s.bids@.len() ==> r.bids@[i] == book_level(#[trigger] s.bids@[i]),
        r.asks@.len() == s.asks@.len(),
        forall|i: int| 0 <= i < s.asks@.len() ==> r.asks@[i] == book_level(#[trigger] s.asks@[i]),
{
    let mut bids: Vec<data_types::PriceLevel> = Vec::new();
    let mut i: usize = 0;
    while i < s.bids.len()
        invariant
            i <= s.bids@.len(),
            bids@.len() == i,
            forall|j: int| 0 <= j < i ==> bids@[j] == book_level(#[trigger] s.bids@[j]),
        decreases s.bids@.len() - i,
    {
        let p = s.bids[i];
        bids.push(data_types::PriceLevel { level: p.level, amount: p.amount, sequence: 0 });
        i += 1;
    }
    let mut asks: Vec<data_types::PriceLevel> = Vec::new();
    let mut j: usize = 0;
    while j < s.asks.len()
        invariant
            j <= s.asks@.len(),
            asks@.len() == j,
            forall|t: int| 0 <= t < j ==> asks@[t] == book_level(#[trigger] s.asks@[t]),
        decreases s.asks@.len() - j,
    {
        let p = s.asks[j];
        asks.push(data_types::PriceLevel { level: p.level, amount: p.amount, sequence: 0 });
        j += 1;
    }
    data_types::Snapshot { bids, asks }
}

/// Translates a (bounded) diff into canonical changes: all bid levels
/// first, then all ask levels.
pub fn update_changes(u: &Update) -> (r: Vec<data_types::Change>)
    requires
        u.bids@.len() < MAX_BITSTAMP_UPDATE,
        u.asks@.len() < MAX_BITSTAMP_UPDATE,
    ensures
        r@.len() == u.bids@.len() + u.asks@.len(),
        forall|i: int|
            0 <= i < u.bids@.len() ==> #[trigger] r@[i] == book_change(
                u.bids@[i],
                data_types::Side::Buy,
            ),
        forall|i: int|
            0 <= i < u.asks@.len() ==> #[trigger] r@[u.bids@.len() + i] == book_change(
                u.asks@[i],
                data_types::Side::Sell,
            ),
{
    let mut changes: Vec<data_types::Change> = Vec::new();
    let nb = u.bids.len();
    let mut i: usize = 0;
    while i < nb
        invariant
            i <= nb,
            nb == u.bids@.len(),
            changes@.len() == i,
            forall|j: int|
                0 <= j < i ==> #[trigger] changes@[j] == book_change(
                    u.bids@[j],
                    data_types::Side::Buy,
                ),
        decreases nb - i,
    {
        let p = u.bids[i];
        changes.push(
            data_types::Change {
                side: data_types::Side::Buy,
                price_level: data_types::PriceLevel {
                    level: p.level,
                    amount: p.amount,
                    sequence: 0,
                },
            },
        );
        i += 1;
    }
    let na = u.asks.len();
    let mut j: usize = 0;
    while j < na
        invariant
            j <= na,
            na == u.asks@.len(),
            nb == u.bids@.len(),
            changes@.len() == nb + j,
            forall|t: int|
                0 <= t < nb ==> #[trigger] changes@[t] == book_change(
                    u.bids@[t],
                    data_types::Side::Buy,
                ),
            forall|t: int|
                0 <= t < j ==> #[trigger] changes@[nb + t] == book_change(
                    u.asks@[t],
                    data_types::Side::Sell,
                ),
        decreases na - j,
    {
        let p = u.asks[j];
        changes.push(
            data_types::Change {
                side: data_types::Side::Sell,
                price_level: data_types::PriceLevel {
                    level: p.level,
                    amount: p.amount,
                    sequence: 0,
                },
            },
        );
        j += 1;
    }
    changes
}

/// The channel symbol this exchange expects for a canonical pair.
pub open spec fn spec_translate_pair(pair: Seq<char>) -> Option<Seq<char>> {
    if pair == "ETH-USD"@ {
        Option::Some("ethusd"@)
    } else if pair == "BTC-USD"@ {
        Option::Some("btcusd"@)
    } else if pair == "ETH-USDT"@ {
        Option::Some("ethusdt"@)
    } else if pair == "BTC-USDT"@ {
        Option::Some("btcusdt"@)
    } else {
        Option::None
    }
}

/// Maps a canonical pair name to this exchange's channel symbol;
/// `None` for an unconfigured pair.
pub fn translate_pair(pair: &String) -> (r: Option<String>)
    ensures
        match r {
            Option::None => spec_translate_pair(pair@) is None,
            Option::Some(t) => spec_translate_pair(pair@) == Option::Some(t@),
        },
{
    if *pair == "ETH-USD".to_owned() {
        Option::Some("ethusd".to_owned())
    } else if *pair == "BTC-USD".to_owned() {
        Option::Some("btcusd".to_owned())
    } else if *pair == "ETH-USDT".to_owned() {
        Option::Some("ethusdt".to_owned())
    } else if *pair == "BTC-USDT".to_owned() {
        Option::Some("btcusdt".to_owned())
    } else {
        Option::None
    }
}

} // verus!
