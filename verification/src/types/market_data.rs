//! Market-data identifiers.
use vstd::prelude::*;

verus! {

/// Aggressor side of a public trade.
#[derive(Debug, Clone, Copy, PartialEq, Eq, Structural)]
pub enum TradeSide {
    Buy,
    Sell,
}

} // verus!
