//! Open groups.

use vstd::prelude::*;
use crate::game::wind::Wind;
use crate::hand::group::Group;
use crate::tile::Tile;

verus! {

/// An open group: a group one of whose tiles was taken from another
/// player's discards.
#[derive(Clone, Copy, Debug, PartialEq, Eq)]
pub struct Meld {
    group: Group,
    completing_tile: Tile,
    source: Wind,
}

impl Meld {
    /// The group that was opened.
    pub closed spec fn group(&self) -> Group {
        self.group
    }

    /// The tile that was taken from a discard.
    pub closed spec fn completing_tile(&self) -> Tile {
        self.completing_tile
    }

    /// The seat of the player who discarded the completing tile.
    pub closed spec fn source(&self) -> Wind {
        self.source
    }

    /// The open group `group`, completed by `completing_tile` from the
    /// discards of the player at `source`.
    pub fn new(group: Group, completing_tile: Tile, source: Wind) -> (m: Meld)
        ensures
            m.group() == group,
            m.completing_tile() == completing_tile,
            m.source() == source,
    {
        Meld { group, completing_tile, source }
    }

    /// The tiles of the group, in construction order.
    pub fn tiles(&self) -> (r: Vec<&Tile>)
        ensures
            r@.len() == self.group().spec_tiles().len(),
            forall|i: int| 0 <= i < r@.len() ==> *r@[i] == #[trigger] self.group().spec_tiles()[i],
    {
        self.group.tiles()
    }
}

} // verus!
