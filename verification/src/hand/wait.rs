//! Incomplete groups.

use vstd::prelude::*;
use crate::tile::Tile;
use crate::tile::tile_value::TileValue;

verus! {

/// A group that lacks one tile: the tiles held, and the values that would
/// complete it.
#[derive(Debug, PartialEq, Eq)]
pub struct Wait {
    tiles: Vec<Tile>,
    wait_symbols: Vec<TileValue>,
}

/// What a [`Wait`] holds, as sequences.
pub struct WaitView {
    pub tiles: Seq<Tile>,
    pub wait_symbols: Seq<TileValue>,
}

impl WaitView {
    /// The values that complete the group, without order.
    pub open spec fn completing_values(self) -> Set<TileValue> {
        self.wait_symbols.to_set()
    }

    /// One tile waiting for a second of its value.
    pub open spec fn is_pair_wait(self) -> bool {
        &&& self.tiles.len() == 1
        &&& self.wait_symbols == seq![self.tiles[0].value()]
    }

    /// Two tiles of one value waiting for a third.
    pub open spec fn is_pon_wait(self) -> bool {
        &&& self.tiles.len() == 2
        &&& self.tiles[0].value() == self.tiles[1].value()
        &&& self.wait_symbols == seq![self.tiles[0].value()]
    }

    /// Two consecutive tiles waiting on either end, as far as the numbers 1
    /// to 9 reach.
    pub open spec fn is_chii_side_wait(self) -> bool {
        &&& self.tiles.len() == 2
        &&& self.tiles[0].spec_followed_by(self.tiles[1])
        &&& self.wait_symbols == side_symbols(self.tiles[0], self.tiles[1])
    }

    /// Two tiles of one suit, two numbers apart, waiting for the number
    /// between them.
    pub open spec fn is_chii_middle_wait(self) -> bool {
        &&& self.tiles.len() == 2
        &&& self.tiles[0].spec_next() matches Some(between)
        &&& between.spec_followed_by(self.tiles[1].value())
        &&& self.wait_symbols == seq![between]
    }

    /// The wait is one of the four shapes that are one tile away from a
    /// group.
    pub open spec fn well_formed(self) -> bool {
        ||| self.is_pair_wait()
        ||| self.is_pon_wait()
        ||| self.is_chii_side_wait()
        ||| self.is_chii_middle_wait()
    }
}

/// The values that complete the run `low`, `high` at either end: the value
/// below `low` and the value above `high`, each only if it exists.
pub open spec fn side_symbols(low: Tile, high: Tile) -> Seq<TileValue> {
    let below = match low.spec_prev() {
        Some(p) => seq![p],
        None => Seq::<TileValue>::empty(),
    };
    let above = match high.spec_next() {
        Some(n) => seq![n],
        None => Seq::<TileValue>::empty(),
    };
    below + above
}

impl View for Wait {
    type V = WaitView;

    closed spec fn view(&self) -> WaitView {
        WaitView { tiles: self.tiles@, wait_symbols: self.wait_symbols@ }
    }
}

impl Wait {
    /// The incomplete group of `tiles` that any of `wait_symbols` completes.
    pub fn new(tiles: Vec<Tile>, wait_symbols: Vec<TileValue>) -> (w: Wait)
        ensures
            w@ == (WaitView { tiles: tiles@, wait_symbols: wait_symbols@ }),
    {
        Wait { tiles, wait_symbols }
    }

    /// The tiles held.
    pub fn tiles(&self) -> (r: &Vec<Tile>)
        ensures
            r@ == self@.tiles,
    {
        &self.tiles
    }

    /// The values that would complete the group.
    pub fn wait_symbols(&self) -> (r: &Vec<TileValue>)
        ensures
            r@ == self@.wait_symbols,
    {
        &self.wait_symbols
    }
}

impl Clone for Wait {
    fn clone(&self) -> (r: Wait)
        ensures
            r@ == self@,
    {
        Wait { tiles: self.tiles.clone(), wait_symbols: self.wait_symbols.clone() }
    }
}

/// A tile of `value` makes a group of the one or two `tiles`: a pair or a
/// triplet of their value, or a sequence with `value` below, between or
/// above the two.
pub open spec fn completes(tiles: Seq<Tile>, value: TileValue) -> bool {
    if tiles.len() == 1 {
        value == tiles[0].value()
    } else {
        &&& tiles.len() == 2
        &&& {
            ||| value == tiles[0].value() && value == tiles[1].value()
            ||| value.spec_followed_by(tiles[0].value()) && tiles[0].spec_followed_by(tiles[1])
            ||| tiles[0].value().spec_followed_by(value) && value.spec_followed_by(tiles[1].value())
            ||| tiles[0].spec_followed_by(tiles[1]) && tiles[1].value().spec_followed_by(value)
        }
    }
}

/// A well-formed wait of tiles with numbers from 1 to 9 holds one or two
/// tiles and is completed by one or two values, each of which makes a pair,
/// a triplet or a sequence of the tiles held.
pub proof fn lemma_well_formed_wait_is_one_tile_short(wait: WaitView)
    requires
        wait.well_formed(),
        forall|i: int| 0 <= i < wait.tiles.len() ==> (#[trigger] wait.tiles[i]).value().well_formed(),
    ensures
        1 <= wait.tiles.len() <= 2,
        1 <= wait.wait_symbols.len() <= 2,
        forall|i: int|
            0 <= i < wait.wait_symbols.len() ==> completes(wait.tiles, #[trigger] wait.wait_symbols[i]),
{
    assert(wait.tiles[0].value().well_formed());
    if wait.tiles.len() == 2 {
        assert(wait.tiles[1].value().well_formed());
    }
}

} // verus!
