//! State-change notifications that the engine reports to its host.

use vstd::prelude::*;
use crate::data::{GridIdx, UID};

verus! {

/// One observable change of battle state. Notifications are queued in the
/// order in which the changes happen.
#[derive(Debug, Clone, Copy, PartialEq, Eq, Structural)]
pub enum Notification {
    /// A unit's health changed to `hp`, out of `max_hp`.
    HpChanged { uid: UID, hp: i64, max_hp: i64 },
    /// A unit's health dropped to zero or below.
    Died { uid: UID },
    /// A unit moved to the cell `index`.
    PositionChanged { uid: UID, index: GridIdx },
    /// The contents of the hand changed.
    HandUpdated,
}

/// How many death notifications for `uid` a sequence holds.
pub open spec fn deaths_of(notes: Seq<Notification>, uid: UID) -> nat
    decreases notes.len(),
{
    if notes.len() == 0 {
        0
    } else {
        let rest = deaths_of(notes.drop_last(), uid);
        if notes.last() == (Notification::Died { uid }) {
            rest + 1
        } else {
            rest
        }
    }
}

} // verus!
