//! Why a command was refused.

use vstd::prelude::*;

verus! {

/// The reason a command failed. A failed command leaves the field as it was.
#[derive(Debug, Clone, Copy, PartialEq, Eq, Structural)]
pub enum FieldError {
    /// No live unit has the given identifier.
    NotFound,
    /// Another unit stands on the cell.
    AlreadyOccupied,
    /// The index names no card of the hand.
    InvalidIndex,
    /// The hand holds too few other cards to pay the cost.
    InsufficientBurnFuel,
    /// The target is farther from the owner than the card reaches.
    OutOfRange,
    /// The card's owner is no live unit.
    OwnerNotFound,
    /// The target is no live unit.
    TargetNotFound,
    /// Every identifier has been handed out.
    IdsExhausted,
}

} // verus!
