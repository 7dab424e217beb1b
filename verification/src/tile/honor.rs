//! Honor tile values: winds and dragons.

use vstd::prelude::*;
use vstd::std_specs::cmp::PartialOrdSpecImpl;
use core::cmp::Ordering;
use crate::game::wind::Wind;
use crate::tile::dragon::Dragon;

verus! {

/// A wind or a dragon. Every wind comes before every dragon.
#[derive(Clone, Copy, Debug, PartialEq, Eq, Structural, Ord, Hash)]
pub enum HonorTile {
    Wind(Wind),
    Dragon(Dragon),
}

impl HonorTile {
    /// The strict order on honors: winds first, then dragons, each in its own
    /// order.
    pub open spec fn precedes(self, other: HonorTile) -> bool {
        match (self, other) {
            (HonorTile::Wind(a), HonorTile::Wind(b)) => a.precedes(b),
            (HonorTile::Wind(_), HonorTile::Dragon(_)) => true,
            (HonorTile::Dragon(_), HonorTile::Wind(_)) => false,
            (HonorTile::Dragon(a), HonorTile::Dragon(b)) => a.precedes(b),
        }
    }

    /// The honor that follows `self` in the circle of its own kind.
    pub open spec fn spec_next_dora(&self) -> HonorTile {
        match self {
            HonorTile::Wind(wind) => HonorTile::Wind(wind.spec_next_dora()),
            HonorTile::Dragon(dragon) => HonorTile::Dragon(dragon.spec_next_dora()),
        }
    }

    /// The honor shown by a dora indicator of this honor.
    #[verifier::when_used_as_spec(spec_next_dora)]
    pub fn next_dora(&self) -> (r: HonorTile)
        ensures
            r == self.spec_next_dora(),
    {
        match self {
            HonorTile::Wind(wind) => HonorTile::Wind(wind.next_dora()),
            HonorTile::Dragon(dragon) => HonorTile::Dragon(dragon.next_dora()),
        }
    }
}

impl PartialOrdSpecImpl for HonorTile {
    open spec fn obeys_partial_cmp_spec() -> bool {
        true
    }

    open spec fn partial_cmp_spec(&self, other: &HonorTile) -> Option<Ordering> {
        if self.precedes(*other) {
            Some(Ordering::Less)
        } else if *self == *other {
            Some(Ordering::Equal)
        } else {
            Some(Ordering::Greater)
        }
    }
}

impl PartialOrd for HonorTile {
    fn partial_cmp(&self, other: &HonorTile) -> (r: Option<Ordering>) {
        match (self, other) {
            (HonorTile::Wind(a), HonorTile::Wind(b)) => a.partial_cmp(b),
            (HonorTile::Wind(_), HonorTile::Dragon(_)) => Some(Ordering::Less),
            (HonorTile::Dragon(_), HonorTile::Wind(_)) => Some(Ordering::Greater),
            (HonorTile::Dragon(a), HonorTile::Dragon(b)) => a.partial_cmp(b),
        }
    }
}

} // verus!
