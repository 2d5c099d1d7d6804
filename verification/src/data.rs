//! Identifier types: grid coordinates and entity ids.

use vstd::prelude::*;

verus! {

/// A cell of the battle line.
#[derive(Debug, Clone, Copy, PartialEq, Eq, Structural, PartialOrd, Ord, Hash, Default)]
pub struct GridIdx(pub i64);

impl GridIdx {
    /// The magnitude of the difference of two coordinates.
    pub open spec fn spec_dist(a: GridIdx, b: GridIdx) -> int {
        if a.0 >= b.0 {
            a.0 - b.0
        } else {
            b.0 - a.0
        }
    }

    /// Distance between two cells. It is total: the result is unsigned
    /// because the distance between the two ends of the line does not fit
    /// in an `i64`.
    pub fn dist(a: GridIdx, b: GridIdx) -> (d: u64)
        ensures
            d == Self::spec_dist(a, b),
    {
        let wide: i128 = a.0 as i128 - b.0 as i128;
        if wide >= 0 {
            wide as u64
        } else {
            (-wide) as u64
        }
    }
}

/// Identifier of a battle entity. The value 0 is reserved for "none".
#[derive(Debug, Clone, Copy, PartialEq, Eq, Structural, PartialOrd, Ord, Hash, Default)]
pub struct UID(u32);

impl View for UID {
    type V = u32;

    closed spec fn view(&self) -> u32 {
        self.0
    }
}

/// The source of fresh identifiers. It hands out 1, 2, 3, ... in this order
/// and never hands out the same value twice; once `u32::MAX` has been handed
/// out it is exhausted.
#[derive(Debug, Clone, Copy)]
pub struct UidCounter {
    /// The identifier that is handed out next; 0 once all are used up.
    next: u32,
}

impl UidCounter {
    /// How many identifiers have been handed out so far.
    pub closed spec fn issued(&self) -> nat {
        if self.next == 0 {
            u32::MAX as nat
        } else {
            (self.next - 1) as nat
        }
    }

    /// A counter that has handed out nothing yet.
    pub fn new() -> (c: UidCounter)
        ensures
            c.issued() == 0,
    {
        UidCounter { next: 1 }
    }

    /// A counter that goes on after `issued` identifiers: it hands out
    /// `issued + 1` next. With it a battle can take up the numbering where
    /// an earlier one left it.
    pub fn resume(issued: u32) -> (c: UidCounter)
        ensures
            c.issued() == issued,
    {
        UidCounter {
            next: if issued == u32::MAX {
                0
            } else {
                issued + 1
            },
        }
    }

    /// Passes over identifiers, so that the first `issued` of them count as
    /// handed out. A counter that is already past that stays as it is.
    pub fn skip_to(&mut self, issued: u32)
        ensures
            final(self).issued() == (if issued > old(self).issued() {
                issued as nat
            } else {
                old(self).issued()
            }),
    {
        if issued > self.issued_count() {
            *self = UidCounter::resume(issued);
        }
    }

    /// How many identifiers have been handed out so far.
    pub fn issued_count(&self) -> (n: u32)
        ensures
            n == self.issued(),
    {
        if self.next == 0 {
            u32::MAX
        } else {
            self.next - 1
        }
    }

    /// No more identifiers are handed out than there are.
    pub proof fn lemma_issued_bounded(self)
        ensures
            self.issued() <= u32::MAX,
    {
    }
}

impl UID {
    /// Allocates the next unused identifier from `counter`. The result is
    /// the null identifier, and the counter is left as it was, exactly when
    /// the counter is exhausted.
    pub fn new(counter: &mut UidCounter) -> (uid: UID)
        ensures
            old(counter).issued() < u32::MAX ==> {
                &&& uid@ == old(counter).issued() + 1
                &&& final(counter).issued() == old(counter).issued() + 1
            },
            old(counter).issued() >= u32::MAX ==> {
                &&& uid@ == 0
                &&& *final(counter) == *old(counter)
            },
    {
        let id: u32 = counter.next;
        if id != 0 {
            counter.next = if id == u32::MAX {
                0
            } else {
                id + 1
            };
        }
        UID(id)
    }

    /// The identifier with the given raw value.
    pub closed spec fn spec_from(id: u32) -> UID {
        UID(id)
    }

    /// The identifier with the given raw value.
    #[verifier::when_used_as_spec(spec_from)]
    pub fn from(id: u32) -> (uid: UID)
        ensures
            uid == UID::spec_from(id),
            uid@ == id,
    {
        UID(id)
    }

    /// Whether this is the reserved identifier that names no entity.
    pub open spec fn is_null(self) -> bool {
        self@ == 0
    }

    /// The raw value.
    pub fn get(&self) -> (id: u32)
        ensures
            id == self@,
    {
        self.0
    }

    /// The reserved identifier that names no entity.
    pub fn null() -> (uid: UID)
        ensures
            uid@ == 0,
    {
        UID(0)
    }
}

/// The identifier made from a raw value has that raw value.
pub broadcast proof fn lemma_uid_of_raw(id: u32)
    ensures
        (#[trigger] UID::spec_from(id))@ == id,
{
}

/// An identifier is the one made from its raw value.
pub broadcast proof fn lemma_raw_of_uid(uid: UID)
    ensures
        UID::spec_from(#[trigger] uid@) == uid,
{
}

pub broadcast group group_uid {
    lemma_uid_of_raw,
    lemma_raw_of_uid,
}

} // verus!
