//! Tiles and their values.

pub mod dragon;
pub mod honor;
pub mod suit;
pub mod tile_value;

use vstd::prelude::*;
use vstd::std_specs::cmp::PartialOrdSpecImpl;
use core::cmp::Ordering;
use crate::game::wind::Wind;
use crate::tile::dragon::Dragon;
use crate::tile::honor::HonorTile;
use crate::tile::suit::{InvalidTileValue, Suit};
use crate::tile::tile_value::TileValue;

verus! {

/// One physical tile: a value and the index, from 0 to 3, that tells apart
/// the four copies of that value. Tiles are ordered by value, then by index.
#[derive(Clone, Copy, Debug, PartialEq, Eq, Structural, Ord, Hash)]
pub struct Tile {
    pub(crate) value: TileValue,
    pub(crate) id: u8,
}

impl Tile {
    /// Every tile that exists at run time is one of the four copies of its
    /// value.
    #[verifier::type_invariant]
    pub open(crate) spec fn wf(self) -> bool {
        self.id <= 3
    }

    /// What is drawn on the tile.
    pub open(crate) spec fn spec_value(&self) -> TileValue {
        self.value
    }

    /// Which copy of its value the tile is.
    pub open(crate) spec fn spec_id(&self) -> u8 {
        self.id
    }

    /// The dora that this tile indicates.
    pub open spec fn spec_next_dora(&self) -> TileValue {
        self.spec_value().spec_next_dora()
    }

    /// The value one number higher, if the tile is suited and below 9.
    pub open spec fn spec_next(&self) -> Option<TileValue> {
        self.spec_value().spec_next()
    }

    /// The value one number lower, if the tile is suited and above 1.
    pub open spec fn spec_prev(&self) -> Option<TileValue> {
        self.spec_value().spec_prev()
    }

    /// The value of `other` directly follows the value of this tile.
    pub open spec fn spec_followed_by(&self, other: Tile) -> bool {
        self.spec_value().spec_followed_by(other.spec_value())
    }

    /// The number of a suited tile.
    pub open spec fn spec_number(&self) -> Option<u8> {
        self.spec_value().spec_number()
    }

    /// The strict order on tiles: by value, then by copy index.
    pub open spec fn precedes(self, other: Tile) -> bool {
        self.spec_value().precedes(other.spec_value()) || (self.spec_value() == other.spec_value()
            && self.spec_id() < other.spec_id())
    }

    /// The copy `id` of the tile with `value`.
    pub fn new(value: TileValue, id: u8) -> (t: Tile)
        requires
            id <= 3,
        ensures
            t.value() == value,
            t.id() == id,
    {
        Tile { value, id }
    }

    /// The copy `id` of the suited tile of `suit` with number `value`, or the
    /// number itself if it is not one of 1 to 9.
    pub fn new_suited(suit: Suit, value: u8, id: u8) -> (r: Result<Tile, InvalidTileValue>)
        requires
            id <= 3,
        ensures
            match r {
                Ok(tile) => {
                    &&& 1 <= value <= 9
                    &&& tile.id() == id
                    &&& tile.value() matches TileValue::Suited(s)
                    &&& s.suit() == suit
                    &&& s.value() == value
                },
                Err(e) => !(1 <= value <= 9) && e.value == value,
            },
    {
        match TileValue::new_suited(suit, value) {
            Ok(v) => Ok(Tile { value: v, id }),
            Err(e) => Err(e),
        }
    }

    /// The copy `id` of the tile of `wind`.
    pub fn new_wind(wind: Wind, id: u8) -> (t: Tile)
        requires
            id <= 3,
        ensures
            t.value() == TileValue::Honor(HonorTile::Wind(wind)),
            t.id() == id,
    {
        Tile { value: TileValue::new_wind(wind), id }
    }

    /// The copy `id` of the tile of `dragon`.
    pub fn new_dragon(dragon: Dragon, id: u8) -> (t: Tile)
        requires
            id <= 3,
        ensures
            t.value() == TileValue::Honor(HonorTile::Dragon(dragon)),
            t.id() == id,
    {
        Tile { value: TileValue::new_dragon(dragon), id }
    }

    /// What is drawn on the tile.
    #[verifier::when_used_as_spec(spec_value)]
    pub fn value(&self) -> (v: TileValue)
        ensures
            v == self.spec_value(),
    {
        self.value
    }

    /// Which copy of its value the tile is.
    #[verifier::when_used_as_spec(spec_id)]
    pub fn id(&self) -> (i: u8)
        ensures
            i == self.spec_id(),
            i <= 3,
    {
        proof {
            use_type_invariant(self);
        }
        self.id
    }

    /// The dora, if this tile is the dora indicator.
    #[verifier::when_used_as_spec(spec_next_dora)]
    pub fn next_dora(&self) -> (r: TileValue)
        ensures
            r == self.spec_next_dora(),
    {
        self.value.next_dora()
    }

    /// The value of the next tile of the suit, if there is one.
    #[verifier::when_used_as_spec(spec_next)]
    pub fn next(&self) -> (r: Option<TileValue>)
        ensures
            r == self.spec_next(),
    {
        self.value.next()
    }

    /// The value of the previous tile of the suit, if there is one.
    #[verifier::when_used_as_spec(spec_prev)]
    pub fn prev(&self) -> (r: Option<TileValue>)
        ensures
            r == self.spec_prev(),
    {
        self.value.prev()
    }

    /// Whether `other` is a tile just after this one.
    #[verifier::when_used_as_spec(spec_followed_by)]
    pub fn followed_by(&self, other: Tile) -> (b: bool)
        ensures
            b == self.spec_followed_by(other),
    {
        self.value.followed_by(other.value)
    }

    /// The number on a suited tile, `None` on an honor.
    #[verifier::when_used_as_spec(spec_number)]
    pub fn number(&self) -> (r: Option<u8>)
        ensures
            r == self.spec_number(),
    {
        self.value.number()
    }
}

impl PartialOrdSpecImpl for Tile {
    open spec fn obeys_partial_cmp_spec() -> bool {
        true
    }

    open spec fn partial_cmp_spec(&self, other: &Tile) -> Option<Ordering> {
        if self.precedes(*other) {
            Some(Ordering::Less)
        } else if *self == *other {
            Some(Ordering::Equal)
        } else {
            Some(Ordering::Greater)
        }
    }
}

impl PartialOrd for Tile {
    fn partial_cmp(&self, other: &Tile) -> (r: Option<Ordering>) {
        if self.value < other.value {
            Some(Ordering::Less)
        } else if self.value == other.value {
            if self.id < other.id {
                Some(Ordering::Less)
            } else if self.id == other.id {
                Some(Ordering::Equal)
            } else {
                Some(Ordering::Greater)
            }
        } else {
            Some(Ordering::Greater)
        }
    }
}

} // verus!
