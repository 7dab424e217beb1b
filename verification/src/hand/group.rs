//! Closed groups of a hand.

use vstd::prelude::*;
use crate::tile::Tile;

verus! {

/// A complete group of a hand, with its member tiles in the order in which
/// the group was built.
#[derive(Clone, Copy, Debug, PartialEq, Eq, Structural)]
pub enum Group {
    /// A triplet: three tiles of one value.
    Pon(Tile, Tile, Tile),
    /// A sequence: three tiles of one suit with consecutive numbers.
    Chii(Tile, Tile, Tile),
    /// Two tiles of one value.
    Pair(Tile, Tile),
    /// A quad: four tiles of one value.
    Kan(Tile, Tile, Tile, Tile),
}

impl Group {
    /// The member tiles, in construction order.
    pub open spec fn spec_tiles(&self) -> Seq<Tile> {
        match self {
            Group::Pair(x, y) => seq![*x, *y],
            Group::Pon(x, y, z) => seq![*x, *y, *z],
            Group::Chii(x, y, z) => seq![*x, *y, *z],
            Group::Kan(x, y, z, t) => seq![*x, *y, *z, *t],
        }
    }

    /// The members fit the shape that the variant names.
    pub open spec fn well_formed(&self) -> bool {
        match self {
            Group::Pair(x, y) => x.value() == y.value(),
            Group::Pon(x, y, z) => x.value() == y.value() && x.value() == z.value(),
            Group::Chii(x, y, z) => x.spec_followed_by(*y) && y.spec_followed_by(*z),
            Group::Kan(x, y, z, t) => x.value() == y.value() && x.value() == z.value() && x.value()
                == t.value(),
        }
    }

    /// The two to four member tiles, in construction order.
    pub fn tiles(&self) -> (r: Vec<&Tile>)
        ensures
            r@.len() == self.spec_tiles().len(),
            forall|i: int| 0 <= i < r@.len() ==> *r@[i] == #[trigger] self.spec_tiles()[i],
    {
        match self {
            Group::Pair(x, y) => vec![x, y],
            Group::Pon(x, y, z) => vec![x, y, z],
            Group::Chii(x, y, z) => vec![x, y, z],
            Group::Kan(x, y, z, t) => vec![x, y, z, t],
        }
    }
}

} // verus!
