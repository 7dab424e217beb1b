//! The three dragons.

use vstd::prelude::*;
use vstd::std_specs::cmp::PartialOrdSpecImpl;
use core::cmp::Ordering;

verus! {

/// One of the three dragons, ordered `White < Red < Green`.
#[derive(Clone, Copy, Debug, PartialEq, Eq, Structural, Ord, Hash)]
pub enum Dragon {
    White,
    Red,
    Green,
}

impl Dragon {
    /// Position of the dragon in the declared order.
    pub open spec fn rank(self) -> int {
        match self {
            Dragon::White => 0,
            Dragon::Red => 1,
            Dragon::Green => 2,
        }
    }

    /// The strict order on dragons.
    pub open spec fn precedes(self, other: Dragon) -> bool {
        self.rank() < other.rank()
    }

    /// The dragon that follows `self` when dragons are taken in a circle.
    pub open spec fn spec_next_dora(&self) -> Dragon {
        match self {
            Dragon::White => Dragon::Red,
            Dragon::Red => Dragon::Green,
            Dragon::Green => Dragon::White,
        }
    }

    fn rank_exec(&self) -> (r: u8)
        ensures
            r == self.rank(),
    {
        match self {
            Dragon::White => 0,
            Dragon::Red => 1,
            Dragon::Green => 2,
        }
    }

    /// The dragon shown by a dora indicator of this dragon.
    #[verifier::when_used_as_spec(spec_next_dora)]
    pub fn next_dora(&self) -> (r: Dragon)
        ensures
            r == self.spec_next_dora(),
    {
        match self {
            Dragon::White => Dragon::Red,
            Dragon::Red => Dragon::Green,
            Dragon::Green => Dragon::White,
        }
    }
}

impl PartialOrdSpecImpl for Dragon {
    open spec fn obeys_partial_cmp_spec() -> bool {
        true
    }

    open spec fn partial_cmp_spec(&self, other: &Dragon) -> Option<Ordering> {
        if self.precedes(*other) {
            Some(Ordering::Less)
        } else if *self == *other {
            Some(Ordering::Equal)
        } else {
            Some(Ordering::Greater)
        }
    }
}

impl PartialOrd for Dragon {
    fn partial_cmp(&self, other: &Dragon) -> (r: Option<Ordering>) {
        let a: u8 = self.rank_exec();
        let b: u8 = other.rank_exec();
        if a < b {
            Some(Ordering::Less)
        } else if a == b {
            Some(Ordering::Equal)
        } else {
            Some(Ordering::Greater)
        }
    }
}

} // verus!
