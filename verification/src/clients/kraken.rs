//! The Kraken-style book feed model and its translation into the
//! canonical book messages. Frames carry one or two content objects;
//! snapshot levels republished from an earlier book state are marked
//! and must be ignored when they arrive in a second content object.

use vstd::prelude::*;

use crate::data_types;

verus! {

/// One parsed price level of the feed; `republished` marks a level
/// re-sent from existing book state.
#[derive(Clone, Copy, Debug, PartialEq, Eq, Structural)]
pub struct PriceLevel {
    pub level: usize,
    pub amount: u64,
    pub republished: bool,
}

/// One content object: either side may be absent.
#[derive(Debug, PartialEq)]
pub struct Content {
    pub asks: Option<Vec<PriceLevel>>,
    pub bids: Option<Vec<PriceLevel>>,
}

/// A frame holds one or two content objects, told apart by the
/// envelope's arity.
#[derive(Debug, PartialEq)]
pub enum Message {
    Single { content: Content },
    Double { content_1: Content, content_2: Content },
}

/// The canonical level a feed level denotes.
pub open spec fn book_level(p: PriceLevel) -> data_types::PriceLevel {
    data_types::PriceLevel { level: p.level, amount: p.amount, sequence: 0 }
}

/// The non-republished levels of a list, translated.
pub open spec fn fresh_levels(v: Seq<PriceLevel>) -> Seq<data_types::PriceLevel> {
    v.filter_map(
        |p: PriceLevel|
            if !p.republished {
                Option::Some(book_level(p))
            } else {
                Option::None
            },
    )
}

/// The canonical changes a level list denotes on a given side.
pub open spec fn changes_of(v: Seq<PriceLevel>, side: data_types::Side) -> Seq<
    data_types::Change,
> {
    v.map_values(|p: PriceLevel| data_types::Change { side, price_level: book_level(p) })
}

/// A snapshot frame must carry both sides in each content object.
pub open spec fn contents_present(m: Message) -> bool {
    match m {
        Message::Single { content } => content.bids is Some && content.asks is Some,
        Message::Double { content_1, content_2 } => content_1.bids is Some && content_1.asks
            is Some && content_2.bids is Some && content_2.asks is Some,
    }
}

/// The bid levels a snapshot frame loads: every content object's
/// levels in frame order, republished ones excluded.
pub open spec fn spec_snapshot_bids(m: Message) -> Seq<data_types::PriceLevel> {
    match m {
        Message::Single { content } => fresh_levels(content.bids->0@),
        Message::Double { content_1, content_2 } => fresh_levels(content_1.bids->0@)
            + fresh_levels(content_2.bids->0@),
    }
}

/// The ask levels a snapshot frame loads, as `spec_snapshot_bids`.
pub open spec fn spec_snapshot_asks(m: Message) -> Seq<data_types::PriceLevel> {
    match m {
        Message::Single { content } => fresh_levels(content.asks->0@),
        Message::Double { content_1, content_2 } => fresh_levels(content_1.asks->0@)
            + fresh_levels(content_2.asks->0@),
    }
}

/// The changes one content object contributes to an update: its bids,
/// then its asks, absent sides skipped.
pub open spec fn content_changes(c: Content) -> Seq<data_types::Change> {
    (if c.bids is Some {
        changes_of(c.bids->0@, data_types::Side::Buy)
    } else {
        Seq::empty()
    }) + (if c.asks is Some {
        changes_of(c.asks->0@, data_types::Side::Sell)
    } else {
        Seq::empty()
    })
}

/// The changes a whole update frame denotes.
pub open spec fn spec_update_changes(m: Message) -> Seq<data_types::Change> {
    match m {
        Message::Single { content } => content_changes(content),
        Message::Double { content_1, content_2 } => content_changes(content_1) + content_changes(
            content_2,
        ),
    }
}

/// Appends every non-republished level of `src`, translated.
fn push_fresh_levels(dst: &mut Vec<data_types::PriceLevel>, src: &Vec<PriceLevel>)
    ensures
        final(dst)@ == old(dst)@ + fresh_levels(src@),
{
    let ghost f = (|p: PriceLevel|
        if !p.republished {
            Option::Some(book_level(p))
        } else {
            Option::None
        });
    let n = src.len();
    let mut i: usize = 0;
    while i < n
        invariant
            i <= n,
            n == src@.len(),
            dst@ == old(dst)@ + src@.take(i as int).filter_map(f),
            f == (|p: PriceLevel|
                if !p.republished {
                    Option::Some(book_level(p))
                } else {
                    Option::None
                }),
        decreases n - i,
    {
        let p = src[i];
        proof {
            assert(src@.take(i + 1).drop_last() =~= src@.take(i as int));
            assert(src@.take(i + 1).last() == src@[i as int]);
        }
        if !p.republished {
            dst.push(data_types::PriceLevel { level: p.level, amount: p.amount, sequence: 0 });
        }
        i += 1;
    }
    proof {
        assert(src@.take(n as int) =~= src@);
    }
}

/// Appends a canonical change for every level of `src`, on `side`.
fn push_changes(dst: &mut Vec<data_types::Change>, src: &Vec<PriceLevel>, side: data_types::Side)
    ensures
        final(dst)@ == old(dst)@ + changes_of(src@, side),
{
    let n = src.len();
    let mut i: usize = 0;
    while i < n
        invariant
            i <= n,
            n == src@.len(),
            dst@ == old(dst)@ + changes_of(src@.take(i as int), side),
        decreases n - i,
    {
        let p = src[i];
        dst.push(
            data_types::Change {
                side,
                price_level: data_types::PriceLevel {
                    level: p.level,
                    amount: p.amount,
                    sequence: 0,
                },
            },
        );
        proof {
            assert(changes_of(src@.take(i + 1), side) =~= changes_of(src@.take(i as int), side).push(
                data_types::Change { side, price_level: book_level(src@[i as int]) },
            ));
            assert(dst@ =~= old(dst)@ + changes_of(src@.take(i + 1), side));
        }
        i += 1;
    }
    proof {
        assert(src@.take(n as int) =~= src@);
    }
}

/// Translates a snapshot frame into a canonical snapshot: each content
/// object's levels in frame order, with republished levels excluded
/// from every content object.
pub fn snapshot_to_book(m: &Message) -> (r: data_types::Snapshot)
    requires
        contents_present(*m),
    ensures
        r.bids@ == spec_snapshot_bids(*m),
        r.asks@ == spec_snapshot_asks(*m),
{
    let mut bids: Vec<data_types::PriceLevel> = Vec::new();
    let mut asks: Vec<data_types::PriceLevel> = Vec::new();
    match m {
        Message::Single { content } => {
            match &content.bids {
                Option::Some(v) => push_fresh_levels(&mut bids, v),
                Option::None => {},
            }
            match &content.asks {
                Option::Some(v) => push_fresh_levels(&mut asks, v),
                Option::None => {},
            }
        },
        Message::Double { content_1, content_2 } => {
            match &content_1.bids {
                Option::Some(v) => push_fresh_levels(&mut bids, v),
                Option::None => {},
            }
            match &content_2.bids {
                Option::Some(v) => push_fresh_levels(&mut bids, v),
                Option::None => {},
            }
            match &content_1.asks {
                Option::Some(v) => push_fresh_levels(&mut asks, v),
                Option::None => {},
            }
            match &content_2.asks {
                Option::Some(v) => push_fresh_levels(&mut asks, v),
                Option::None => {},
            }
        },
    }
    proof {
        assert(bids@ =~= spec_snapshot_bids(*m));
        assert(asks@ =~= spec_snapshot_asks(*m));
    }
    data_types::Snapshot { bids, asks }
}

/// Translates an update frame into canonical changes: per content
/// object its bids then its asks, in frame order.
pub fn update_changes(m: &Message) -> (r: Vec<data_types::Change>)
    ensures
        r@ == spec_update_changes(*m),
{
    let mut changes: Vec<data_types::Change> = Vec::new();
    match m {
        Message::Single { content } => {
            match &content.bids {
                Option::Some(v) => push_changes(&mut changes, v, data_types::Side::Buy),
                Option::None => {},
            }
            match &content.asks {
                Option::Some(v) => push_changes(&mut changes, v, data_types::Side::Sell),
                Option::None => {},
            }
        },
        Message::Double { content_1, content_2 } => {
            match &content_1.bids {
                Option::Some(v) => push_changes(&mut changes, v, data_types::Side::Buy),
                Option::None => {},
            }
            match &content_1.asks {
                Option::Some(v) => push_changes(&mut changes, v, data_types::Side::Sell),
                Option::None => {},
            }
            match &content_2.bids {
                Option::Some(v) => push_changes(&mut changes, v, data_types::Side::Buy),
                Option::None => {},
            }
            match &content_2.asks {
                Option::Some(v) => push_changes(&mut changes, v, data_types::Side::Sell),
                Option::None => {},
            }
        },
    }
    proof {
        assert(changes@ =~= spec_update_changes(*m));
    }
    changes
}

/// The pair symbol this exchange expects for a canonical pair.
pub open spec fn spec_translate_pair(pair: Seq<char>) -> Option<Seq<char>> {
    if pair == "ETH-USD"@ {
        Option::Some("ETH/USD"@)
    } else if pair == "BTC-USD"@ {
        Option::Some("XBT/USD"@)
    } else if pair == "ETH-USDT"@ {
        Option::Some("ETH/USDT"@)
    } else if pair == "BTC-USDT"@ {
        Option::Some("XBT/USDT"@)
    } else {
        Option::None
    }
}

/// Maps a canonical pair name to this exchange's pair symbol; `None`
/// for an unconfigured pair.
pub fn translate_pair(pair: &String) -> (r: Option<String>)
    ensures
        match r {
            Option::None => spec_translate_pair(pair@) is None,
            Option::Some(t) => spec_translate_pair(pair@) == Option::Some(t@),
        },
{
    if *pair == "ETH-USD".to_owned() {
        Option::Some("ETH/USD".to_owned())
    } else if *pair == "BTC-USD".to_owned() {
        Option::Some("XBT/USD".to_owned())
    } else if *pair == "ETH-USDT".to_owned() {
        Option::Some("ETH/USDT".to_owned())
    } else if *pair == "BTC-USDT".to_owned() {
        Option::Some("XBT/USDT".to_owned())
    } else {
        Option::None
    }
}

} // verus!
