//! Canonical data model shared by every exchange adapter and the book
//! engine: integer price ticks, fixed-point amounts, per-level records
//! and the messages (`Snapshot`, `Update`, `Match`) that drive a book.

use vstd::prelude::*;

verus! {

/// Levels a side of a book can hold at most.
pub const BOOK_CAPACITY: usize = 65536;

/// Changes a single update can carry at most.
pub const MAX_UPDATE_CHANGES: usize = 512;

/// Amounts are stored as integers scaled by this factor
/// (1 unit of the base currency == `AMOUNT_SCALE`).
pub const AMOUNT_SCALE: u64 = 100_000_000;

/// Exclusive upper bound on price ticks (2^30, about $10.7M in
/// hundredths of the quote). Ticks are `usize`, whose width the
/// verifier leaves open; this bound fits a 32-bit word and keeps every
/// product the engine forms inside `u128`/`i128` on any word size.
pub const MAX_TICK: usize = 0x4000_0000;

/// Exclusive upper bound on scaled amounts (2^62), for the same reason.
pub const MAX_AMOUNT: u64 = 0x4000_0000_0000_0000;

/// The side of the book a change or a trade belongs to.
#[derive(Clone, Copy, Debug, PartialEq, Eq, Structural)]
pub enum Side {
    Buy,
    Sell,
}

/// One resting price level: the integer tick, the scaled amount resting
/// there, and the sequence tag the owning book assigned on insert.
#[derive(Clone, Copy, Debug, PartialEq, Eq, Structural)]
pub struct PriceLevel {
    pub level: usize,
    pub amount: u64,
    pub sequence: i64,
}

/// A price tick the engine accepts: positive and small enough that
/// products with amounts fit the machine's arithmetic.
pub open spec fn valid_tick(level: usize) -> bool {
    0 < level < MAX_TICK
}

/// An amount the engine accepts; zero is allowed and means "delete".
pub open spec fn valid_amount(amount: u64) -> bool {
    amount < MAX_AMOUNT
}

impl PriceLevel {
    /// A level the engine accepts as input.
    pub open spec fn valid(self) -> bool {
        valid_tick(self.level) && valid_amount(self.amount)
    }
}

/// The full state of both sides of a book, as one exchange publishes it.
#[derive(Debug, PartialEq)]
pub struct Snapshot {
    pub bids: Vec<PriceLevel>,
    pub asks: Vec<PriceLevel>,
}

/// A single change to one side of a book; `amount == 0` removes the level.
#[derive(Clone, Copy, Debug, PartialEq, Eq, Structural)]
pub struct Change {
    pub side: Side,
    pub price_level: PriceLevel,
}

/// An incremental update: a bounded batch of changes.
#[derive(Debug, PartialEq)]
pub struct Update<'a> {
    pub product_id: &'a str,
    pub time: &'a str,
    pub changes: Vec<Change>,
}

impl PartialOrd for PriceLevel {
    /// Orders levels by price tick first and by sequence tag to break
    /// ties; the resting amount does not take part.
    fn partial_cmp(&self, other: &Self) -> (r: Option<core::cmp::Ordering>) {
        if self.level != other.level {
            if self.level < other.level {
                Option::Some(core::cmp::Ordering::Less)
            } else {
                Option::Some(core::cmp::Ordering::Greater)
            }
        } else if self.sequence != other.sequence {
            if self.sequence < other.sequence {
                Option::Some(core::cmp::Ordering::Less)
            } else {
                Option::Some(core::cmp::Ordering::Greater)
            }
        } else {
            Option::Some(core::cmp::Ordering::Equal)
        }
    }
}

impl vstd::std_specs::cmp::PartialOrdSpecImpl for PriceLevel {
    open spec fn obeys_partial_cmp_spec() -> bool {
        true
    }

    open spec fn partial_cmp_spec(&self, other: &Self) -> Option<core::cmp::Ordering> {
        if self.level != other.level {
            if self.level < other.level {
                Option::Some(core::cmp::Ordering::Less)
            } else {
                Option::Some(core::cmp::Ordering::Greater)
            }
        } else if self.sequence != other.sequence {
            if self.sequence < other.sequence {
                Option::Some(core::cmp::Ordering::Less)
            } else {
                Option::Some(core::cmp::Ordering::Greater)
            }
        } else {
            Option::Some(core::cmp::Ordering::Equal)
        }
    }
}

/// An executed trade; `side` is the aggressor side.
#[derive(Clone, Copy, Debug, PartialEq, Eq, Structural)]
pub struct Match {
    pub side: Side,
    pub size: u64,
    pub price: usize,
}

} // verus!
