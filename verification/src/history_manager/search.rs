//! Which side of a timestamp a search looks for.

use vstd::prelude::*;

verus! {

/// The side of a key on which a search looks for a commit.
#[derive(Debug, Clone, Copy, PartialEq, Eq, Structural)]
pub enum Bound {
    /// The last commit at or before the key.
    GreatestLower,
    /// The first commit at or after the key.
    LeastUpper,
}

impl Bound {
    /// The position, in a list of `len` commits, of the commit next to a key that is out of range:
    /// the first one when nothing is at or before the key, the last one when nothing is at or after
    /// it.
    pub open spec fn boundary_index(self, len: nat) -> int {
        match self {
            Bound::GreatestLower => 0,
            Bound::LeastUpper => len - 1,
        }
    }

    /// The position of the commit next to a key that is out of range, or `None` in an empty list.
    pub fn boundary_of(self, len: usize) -> (r: Option<usize>)
        ensures
            r is Some <==> len > 0,
            r matches Some(index) ==> index == self.boundary_index(len as nat),
    {
        if len == 0 {
            return None;
        }
        match self {
            Bound::GreatestLower => Some(0),
            Bound::LeastUpper => Some(len - 1),
        }
    }
}

} // verus!
