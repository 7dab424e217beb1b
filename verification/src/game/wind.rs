//! The four winds.

use vstd::prelude::*;
use vstd::std_specs::cmp::PartialOrdSpecImpl;
use core::cmp::Ordering;

verus! {

/// One of the four winds, ordered `East < South < West < North`.
#[derive(Clone, Copy, Debug, PartialEq, Eq, Structural, Ord, Hash)]
pub enum Wind {
    East,
    South,
    West,
    North,
}

impl Wind {
    /// Position of the wind in the declared order.
    pub open spec fn rank(self) -> int {
        match self {
            Wind::East => 0,
            Wind::South => 1,
            Wind::West => 2,
            Wind::North => 3,
        }
    }

    /// The strict order on winds.
    pub open spec fn precedes(self, other: Wind) -> bool {
        self.rank() < other.rank()
    }

    /// The wind that follows `self` when winds are taken in a circle.
    pub open spec fn spec_next_dora(&self) -> Wind {
        match self {
            Wind::East => Wind::South,
            Wind::South => Wind::West,
            Wind::West => Wind::North,
            Wind::North => Wind::East,
        }
    }

    /// The wind after `self` in the declared order, if there is one.
    pub open spec fn spec_next(&self) -> Option<Wind> {
        match self {
            Wind::East => Some(Wind::South),
            Wind::South => Some(Wind::West),
            Wind::West => Some(Wind::North),
            Wind::North => None,
        }
    }

    fn rank_exec(&self) -> (r: u8)
        ensures
            r == self.rank(),
    {
        match self {
            Wind::East => 0,
            Wind::South => 1,
            Wind::West => 2,
            Wind::North => 3,
        }
    }

    /// The wind shown by a dora indicator of this wind.
    #[verifier::when_used_as_spec(spec_next_dora)]
    pub fn next_dora(&self) -> (r: Wind)
        ensures
            r == self.spec_next_dora(),
    {
        match self {
            Wind::East => Wind::South,
            Wind::South => Wind::West,
            Wind::West => Wind::North,
            Wind::North => Wind::East,
        }
    }

    /// The next wind of a round, `None` after `North`.
    #[verifier::when_used_as_spec(spec_next)]
    pub fn next(&self) -> (r: Option<Wind>)
        ensures
            r == self.spec_next(),
    {
        match self {
            Wind::East => Some(Wind::South),
            Wind::South => Some(Wind::West),
            Wind::West => Some(Wind::North),
            Wind::North => None,
        }
    }
}

impl PartialOrdSpecImpl for Wind {
    open spec fn obeys_partial_cmp_spec() -> bool {
        true
    }

    open spec fn partial_cmp_spec(&self, other: &Wind) -> Option<Ordering> {
        if self.precedes(*other) {
            Some(Ordering::Less)
        } else if *self == *other {
            Some(Ordering::Equal)
        } else {
            Some(Ordering::Greater)
        }
    }
}

impl PartialOrd for Wind {
    fn partial_cmp(&self, other: &Wind) -> (r: Option<Ordering>) {
        let a: u8 = self.rank_exec();
        let b: u8 = other.rank_exec();
        if a < b {
            Some(Ordering::Less)
        } else if a == b {
            Some(Ordering::Equal)
        } else {
            Some(Ordering::Greater)
        }
    }
}

} // verus!
