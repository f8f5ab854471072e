//! The Gemini-style level-2 feed model and its translation into the
//! canonical book messages. Snapshots arrive as one flat list of
//! changes, which the translation splits by side.

use vstd::prelude::*;

use crate::data_types;

verus! {

/// The side as the feed labels it.
#[derive(Clone, Copy, Debug, PartialEq, Eq, Structural)]
pub enum Side {
    Buy,
    Sell,
}

/// One parsed price level of the feed.
#[derive(Clone, Copy, Debug, PartialEq, Eq, Structural)]
pub struct PriceLevel {
    pub level: usize,
    pub amount: u64,
    pub sequence: i64,
}

/// One change, on either side.
#[derive(Clone, Copy, Debug, PartialEq, Eq, Structural)]
pub struct Change {
    pub side: Side,
    pub price_level: PriceLevel,
}

/// The initial snapshot: a flat list of changes for both sides.
#[derive(Debug, PartialEq)]
pub struct Snapshot {
    pub changes: Vec<Change>,
}

/// An incremental update; the feed bounds these to a handful of
/// changes.
#[derive(Debug, PartialEq)]
pub struct Update {
    pub changes: Vec<Change>,
}

/// Updates larger than this are a protocol violation.
pub const MAX_GEMINI_UPDATE: usize = 16;

/// The canonical side a feed side denotes.
pub open spec fn book_side(s: Side) -> data_types::Side {
    match s {
        Side::Buy => data_types::Side::Buy,
        Side::Sell => data_types::Side::Sell,
    }
}

/// The canonical level a feed level denotes.
pub open spec fn book_level(p: PriceLevel) -> data_types::PriceLevel {
    data_types::PriceLevel { level: p.level, amount: p.amount, sequence: 0 }
}

/// The bid levels a snapshot's change list holds, in order.
pub open spec fn spec_side_levels(cs: Seq<Change>, side: Side) -> Seq<data_types::PriceLevel> {
    cs.filter_map(
        |c: Change|
            if c.side == side {
                Option::Some(book_level(c.price_level))
            } else {
                Option::None
            },
    )
}

/// Splits a snapshot's flat change list into canonical bid and ask
/// level lists, keeping each side's order.
pub fn snapshot_to_book(s: &Snapshot) -> (r: data_types::Snapshot)
    ensures
        r.bids@ == spec_side_levels(s.changes@, Side::Buy),
        r.asks@ == spec_side_levels(s.changes@, Side::Sell),
{
    let ghost buy_f = (|c: Change|
        if c.side == Side::Buy {
            Option::Some(book_level(c.price_level))
        } else {
            Option::None
        });
    let ghost sell_f = (|c: Change|
        if c.side == Side::Sell {
            Option::Some(book_level(c.price_level))
        } else {
            Option::None
        });
    let mut bids: Vec<data_types::PriceLevel> = Vec::new();
    let mut asks: Vec<data_types::PriceLevel> = Vec::new();
    let n = s.changes.len();
    let mut i: usize = 0;
    while i < n
        invariant
            i <= n,
            n == s.changes@.len(),
            bids@ == s.changes@.take(i as int).filter_map(buy_f),
            asks@ == s.changes@.take(i as int).filter_map(sell_f),
            buy_f == (|c: Change|
                if c.side == Side::Buy {
                    Option::Some(book_level(c.price_level))
                } else {
                    Option::None
                }),
            sell_f == (|c: Change|
                if c.side == Side::Sell {
                    Option::Some(book_level(c.price_level))
                } else {
                    Option::None
                }),
        decreases n - i,
    {
        let c = s.changes[i];
        proof {
            assert(s.changes@.take(i + 1).drop_last() =~= s.changes@.take(i as int));
            assert(s.changes@.take(i + 1).last() == s.changes@[i as int]);
        }
        let p = data_types::PriceLevel {
            level: c.price_level.level,
            amount: c.price_level.amount,
            sequence: 0,
        };
        match c.side {
            Side::Buy => bids.push(p),
            Side::Sell => asks.push(p),
        }
        i += 1;
    }
    proof {
        assert(s.changes@.take(n as int) =~= s.changes@);
    }
    data_types::Snapshot { bids, asks }
}

/// Translates a (bounded) feed update into canonical changes, one for
/// one.
pub fn update_changes(u: &Update) -> (r: Vec<data_types::Change>)
    requires
        u.changes@.len() <= MAX_GEMINI_UPDATE,
    ensures
        r@.len() == u.changes@.len(),
        forall|i: int|
            0 <= i < u.changes@.len() ==> #[trigger] r@[i] == (data_types::Change {
                side: book_side(u.changes@[i].side),
                price_level: book_level(u.changes@[i].price_level),
            }),
{
    let mut changes: Vec<data_types::Change> = Vec::new();
    let mut i: usize = 0;
    while i < u.changes.len()
        invariant
            i <= u.changes@.len(),
            changes@.len() == i,
            forall|j: int|
                0 <= j < i ==> #[trigger] changes@[j] == (data_types::Change {
                    side: book_side(u.changes@[j].side),
                    price_level: book_level(u.changes@[j].price_level),
                }),
        decreases u.changes@.len() - i,
    {
        let c = u.changes[i];
        let side = match c.side {
            Side::Buy => data_types::Side::Buy,
            Side::Sell => data_types::Side::Sell,
        };
        changes.push(
            data_types::Change {
                side,
                price_level: data_types::PriceLevel {
                    level: c.price_level.level,
                    amount: c.price_level.amount,
                    sequence: 0,
                },
            },
        );
        i += 1;
    }
    changes
}

/// The symbol this exchange expects for a canonical pair.
pub open spec fn spec_translate_pair(pair: Seq<char>) -> Option<Seq<char>> {
    if pair == "ETH-USD"@ {
        Option::Some("ETHUSD"@)
    } else if pair == "BTC-USD"@ {
        Option::Some("BTCUSD"@)
    } else if pair == "ETH-USDT"@ {
        Option::Some("ETHUSDT"@)
    } else if pair == "BTC-USDT"@ {
        Option::Some("BTCUSDT"@)
    } else {
        Option::None
    }
}

/// Maps a canonical pair name to this exchange's symbol; `None` for an
/// unconfigured pair.
pub fn translate_pair(pair: &String) -> (r: Option<String>)
    ensures
        match r {
            Option::None => spec_translate_pair(pair@) is None,
            Option::Some(t) => spec_translate_pair(pair@) == Option::Some(t@),
        },
{
    if *pair == "ETH-USD".to_owned() {
        Option::Some("ETHUSD".to_owned())
    } else if *pair == "BTC-USD".to_owned() {
        Option::Some("BTCUSD".to_owned())
    } else if *pair == "ETH-USDT".to_owned() {
        Option::Some("ETHUSDT".to_owned())
    } else if *pair == "BTC-USDT".to_owned() {
        Option::Some("BTCUSDT".to_owned())
    } else {
        Option::None
    }
}

} // verus!
