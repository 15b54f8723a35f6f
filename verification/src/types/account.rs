//! Account-side identifiers.
use vstd::prelude::*;

verus! {

/// Direction of a held position.
#[derive(Debug, Clone, Copy, PartialEq, Eq, Structural)]
pub enum PositionSide {
    Long,
    Short,
}

} // verus!
