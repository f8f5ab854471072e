//! Exchange-specific wire models and the pure translations from each
//! exchange's messages into the canonical book messages.

pub mod binance;
pub mod bitstamp;
pub mod coinbase;
pub mod gemini;
pub mod kraken;

use vstd::prelude::*;

verus! {

/// Marker for a FIX transport endpoint; carries no state.
pub struct FIXClient {}

/// Marker for a UDP transport endpoint; carries no state.
pub struct UDPClient {}

} // verus!
