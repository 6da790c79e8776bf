//! Identity of a federation member.

use vstd::prelude::*;

verus! {

/// The ordinal number of a federation member. Members are ordered by it.
#[derive(Clone, Copy, Debug, PartialEq, Eq, Structural, PartialOrd, Ord, Hash)]
pub struct PeerId(pub u16);

impl PeerId {
    /// The member with the given ordinal number.
    pub fn new(id: u16) -> (peer: PeerId)
        ensures
            peer == PeerId(id),
    {
        PeerId(id)
    }

    /// The ordinal number.
    pub fn to_u16(self) -> (id: u16)
        ensures
            id == self.0,
    {
        self.0
    }

    /// The ordinal number as an index.
    pub fn to_usize(self) -> (index: usize)
        ensures
            index == self.0,
    {
        self.0 as usize
    }

    /// Whether this member comes before `other` in the order of members.
    pub fn precedes(self, other: PeerId) -> (r: bool)
        ensures
            r == (self.0 < other.0),
    {
        self.0 < other.0
    }
}

} // verus!
