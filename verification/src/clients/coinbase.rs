//! The Coinbase-style level-2 feed model and its translation into the
//! canonical book messages.

use vstd::prelude::*;

use crate::data_types;

verus! {

/// The side as the feed labels it.
#[derive(Clone, Copy, Debug, PartialEq, Eq, Structural)]
pub enum Side {
    Buy,
    Sell,
}

/// One parsed price level of the feed.
#[derive(Clone, Copy, Debug, PartialEq, Eq, Structural)]
pub struct PriceLevel {
    pub level: usize,
    pub amount: u64,
    pub sequence: i64,
}

/// A full book snapshot.
#[derive(Debug, PartialEq)]
pub struct Snapshot {
    pub bids: Vec<PriceLevel>,
    pub asks: Vec<PriceLevel>,
}

/// One change of an incremental update.
#[derive(Clone, Copy, Debug, PartialEq, Eq, Structural)]
pub struct Change {
    pub side: Side,
    pub price_level: PriceLevel,
}

/// An incremental update.
#[derive(Debug, PartialEq)]
pub struct Update {
    pub changes: Vec<Change>,
}

/// An executed trade.
#[derive(Clone, Copy, Debug, PartialEq, Eq, Structural)]
pub struct Match {
    pub side: Side,
    pub size: u64,
    pub price: usize,
}

/// The canonical side a feed side denotes.
pub open spec fn book_side(s: Side) -> data_types::Side {
    match s {
        Side::Buy => data_types::Side::Buy,
        Side::Sell => data_types::Side::Sell,
    }
}

/// The canonical level a feed level denotes; the book assigns the
/// sequence tag itself, so it enters as zero.
pub open spec fn book_level(p: PriceLevel) -> data_types::PriceLevel {
    data_types::PriceLevel { level: p.level, amount: p.amount, sequence: 0 }
}

/// Translates a feed snapshot into a canonical snapshot, level by
/// level.
pub fn snapshot_to_book(s: &Snapshot) -> (r: data_types::Snapshot)
    ensures
        r.bids@.len() == s.bids@.len(),
        forall|i: int| 0 <= i < s.bids@.len() ==> r.bids@[i] == book_level(#[trigger] s.bids@[i]),
        r.asks@.len() == s.asks@.len(),
        forall|i: int| 0 <= i < s.asks@.len() ==> r.asks@[i] == book_level(#[trigger] s.asks@[i]),
{
    let mut bids: Vec<data_types::PriceLevel> = Vec::new();
    let mut i: usize = 0;
    while i < s.bids.len()
        invariant
            i <= s.bids@.len(),
            bids@.len() == i,
            forall|j: int| 0 <= j < i ==> bids@[j] == book_level(#[trigger] s.bids@[j]),
        decreases s.bids@.len() - i,
    {
        let p = s.bids[i];
        bids.push(data_types::PriceLevel { level: p.level, amount: p.amount, sequence: 0 });
        i += 1;
    }
    let mut asks: Vec<data_types::PriceLevel> = Vec::new();
    let mut j: usize = 0;
    while j < s.asks.len()
        invariant
            j <= s.asks@.len(),
            asks@.len() == j,
            forall|t: int| 0 <= t < j ==> asks@[t] == book_level(#[trigger] s.asks@[t]),
        decreases s.asks@.len() - j,
    {
        let p = s.asks[j];
        asks.push(data_types::PriceLevel { level: p.level, amount: p.amount, sequence: 0 });
        j += 1;
    }
    data_types::Snapshot { bids, asks }
}

/// Translates a feed update into canonical changes, one for one.
pub fn update_changes(u: &Update) -> (r: Vec<data_types::Change>)
    ensures
        r@.len() == u.changes@.len(),
        forall|i: int|
            0 <= i < u.changes@.len() ==> #[trigger] r@[i] == (data_types::Change {
                side: book_side(u.changes@[i].side),
                price_level: book_level(u.changes@[i].price_level),
            }),
{
    let mut changes: Vec<data_types::Change> = Vec::new();
    let mut i: usize = 0;
    while i < u.changes.len()
        invariant
            i <= u.changes@.len(),
            changes@.len() == i,
            forall|j: int|
                0 <= j < i ==> #[trigger] changes@[j] == (data_types::Change {
                    side: book_side(u.changes@[j].side),
                    price_level: book_level(u.changes@[j].price_level),
                }),
        decreases u.changes@.len() - i,
    {
        let c = u.changes[i];
        let side = match c.side {
            Side::Buy => data_types::Side::Buy,
            Side::Sell => data_types::Side::Sell,
        };
        changes.push(
            data_types::Change {
                side,
                price_level: data_types::PriceLevel {
                    level: c.price_level.level,
                    amount: c.price_level.amount,
                    sequence: 0,
                },
            },
        );
        i += 1;
    }
    changes
}

/// Translates a feed trade into a canonical trade.
pub fn match_to_book(m: &Match) -> (r: data_types::Match)
    ensures
        r.side == book_side(m.side),
        r.size == m.size,
        r.price == m.price,
{
    data_types::Match {
        side: match m.side {
            Side::Buy => data_types::Side::Buy,
            Side::Sell => data_types::Side::Sell,
        },
        size: m.size,
        price: m.price,
    }
}

/// The product identifier this exchange expects for a canonical pair;
/// the names agree, so known pairs pass through.
pub open spec fn spec_translate_pair(pair: Seq<char>) -> Option<Seq<char>> {
    if pair == "ETH-USD"@ || pair == "BTC-USD"@ || pair == "ETH-USDT"@ || pair == "BTC-USDT"@ {
        Option::Some(pair)
    } else {
        Option::None
    }
}

/// Maps a canonical pair name to this exchange's product identifier;
/// `None` for an unconfigured pair.
pub fn translate_pair(pair: &String) -> (r: Option<String>)
    ensures
        match r {
            Option::None => spec_translate_pair(pair@) is None,
            Option::Some(t) => spec_translate_pair(pair@) == Option::Some(t@),
        },
{
    if *pair == "ETH-USD".to_owned() || *pair == "BTC-USD".to_owned() || *pair
        == "ETH-USDT".to_owned() || *pair == "BTC-USDT".to_owned() {
        Option::Some(pair.clone())
    } else {
        Option::None
    }
}

} // verus!
