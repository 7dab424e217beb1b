//! What is drawn on a tile.

use vstd::prelude::*;
use vstd::std_specs::cmp::PartialOrdSpecImpl;
use core::cmp::Ordering;
use crate::game::wind::Wind;
use crate::tile::dragon::Dragon;
use crate::tile::honor::HonorTile;
use crate::tile::suit::{
    lemma_next_dora_comes_back_after_nine, lemma_next_dora_is_the_next_number, InvalidTileValue, Suit,
    SuitedTile,
};

verus! {

/// The face of a tile: a suited number or an honor. Every suited value comes
/// before every honor.
#[derive(Clone, Copy, Debug, PartialEq, Eq, Structural, Ord, Hash)]
pub enum TileValue {
    Suited(SuitedTile),
    Honor(HonorTile),
}

impl TileValue {
    /// A suited value has a number from 1 to 9, as every value that exists
    /// at run time has.
    pub open spec fn well_formed(self) -> bool {
        self matches TileValue::Suited(suited) ==> suited.wf()
    }

    /// The strict order on tile values: suited values by suit and number,
    /// then the honors.
    pub open spec fn precedes(self, other: TileValue) -> bool {
        match (self, other) {
            (TileValue::Suited(a), TileValue::Suited(b)) => a.precedes(b),
            (TileValue::Suited(_), TileValue::Honor(_)) => true,
            (TileValue::Honor(_), TileValue::Suited(_)) => false,
            (TileValue::Honor(a), TileValue::Honor(b)) => a.precedes(b),
        }
    }

    /// The value shown by a dora indicator: the next number of the suit, 1
    /// after 9, or the next honor in the circle of its kind.
    pub open spec fn spec_next_dora(&self) -> TileValue {
        match self {
            TileValue::Suited(suited) => TileValue::Suited(suited.spec_next_dora()),
            TileValue::Honor(honor) => TileValue::Honor(honor.spec_next_dora()),
        }
    }

    /// The value one number higher in the same suit; honors have none.
    pub open spec fn spec_next(&self) -> Option<TileValue> {
        match self {
            TileValue::Suited(suited) => match suited.spec_next() {
                Some(n) => Some(TileValue::Suited(n)),
                None => None,
            },
            TileValue::Honor(_) => None,
        }
    }

    /// The value one number lower in the same suit; honors have none.
    pub open spec fn spec_prev(&self) -> Option<TileValue> {
        match self {
            TileValue::Suited(suited) => match suited.spec_prev() {
                Some(p) => Some(TileValue::Suited(p)),
                None => None,
            },
            TileValue::Honor(_) => None,
        }
    }

    /// Both values are suited, of one suit, and `other` is one number higher.
    pub open spec fn spec_followed_by(&self, other: TileValue) -> bool {
        match (self, other) {
            (TileValue::Suited(a), TileValue::Suited(b)) => a.spec_followed_by(b),
            _ => false,
        }
    }

    /// The number of a suited value.
    pub open spec fn spec_number(&self) -> Option<u8> {
        match self {
            TileValue::Suited(suited) => Some(suited.spec_value()),
            TileValue::Honor(_) => None,
        }
    }

    /// The value of a suited tile.
    pub fn from_suited(tile: SuitedTile) -> (r: TileValue)
        ensures
            r == TileValue::Suited(tile),
    {
        TileValue::Suited(tile)
    }

    /// The value of an honor tile.
    pub fn from_honor(tile: HonorTile) -> (r: TileValue)
        ensures
            r == TileValue::Honor(tile),
    {
        TileValue::Honor(tile)
    }

    /// The suited value of `suit` with number `value`, or the number itself
    /// if it is not one of 1 to 9.
    pub fn new_suited(suit: Suit, value: u8) -> (r: Result<TileValue, InvalidTileValue>)
        ensures
            match r {
                Ok(v) => {
                    &&& 1 <= value <= 9
                    &&& v matches TileValue::Suited(t)
                    &&& t.suit() == suit
                    &&& t.value() == value
                },
                Err(e) => !(1 <= value <= 9) && e.value == value,
            },
    {
        match SuitedTile::new(suit, value) {
            Ok(t) => Ok(TileValue::Suited(t)),
            Err(e) => Err(e),
        }
    }

    /// The value of the tiles of `dragon`.
    pub fn new_dragon(dragon: Dragon) -> (r: TileValue)
        ensures
            r == TileValue::Honor(HonorTile::Dragon(dragon)),
    {
        TileValue::Honor(HonorTile::Dragon(dragon))
    }

    /// The value of the tiles of `wind`.
    pub fn new_wind(wind: Wind) -> (r: TileValue)
        ensures
            r == TileValue::Honor(HonorTile::Wind(wind)),
    {
        TileValue::Honor(HonorTile::Wind(wind))
    }

    /// The dora that this value indicates.
    #[verifier::when_used_as_spec(spec_next_dora)]
    pub fn next_dora(&self) -> (r: TileValue)
        ensures
            r == self.spec_next_dora(),
    {
        match self {
            TileValue::Suited(suited) => TileValue::Suited(suited.next_dora()),
            TileValue::Honor(honor) => TileValue::Honor(honor.next_dora()),
        }
    }

    /// The next value of the suit, if there is one.
    #[verifier::when_used_as_spec(spec_next)]
    pub fn next(&self) -> (r: Option<TileValue>)
        ensures
            r == self.spec_next(),
    {
        match self {
            TileValue::Suited(suited) => match suited.next() {
                Some(n) => Some(TileValue::Suited(n)),
                None => None,
            },
            TileValue::Honor(_) => None,
        }
    }

    /// The previous value of the suit, if there is one.
    #[verifier::when_used_as_spec(spec_prev)]
    pub fn prev(&self) -> (r: Option<TileValue>)
        ensures
            r == self.spec_prev(),
    {
        match self {
            TileValue::Suited(suited) => match suited.prev() {
                Some(p) => Some(TileValue::Suited(p)),
                None => None,
            },
            TileValue::Honor(_) => None,
        }
    }

    /// Whether `other` directly follows this value in its suit.
    #[verifier::when_used_as_spec(spec_followed_by)]
    pub fn followed_by(&self, other: TileValue) -> (b: bool)
        ensures
            b == self.spec_followed_by(other),
    {
        match self {
            TileValue::Suited(a) => match other {
                TileValue::Suited(b) => a.followed_by(b),
                TileValue::Honor(_) => false,
            },
            TileValue::Honor(_) => false,
        }
    }

    /// The number of a suited value, `None` for an honor.
    #[verifier::when_used_as_spec(spec_number)]
    pub fn number(&self) -> (r: Option<u8>)
        ensures
            r == self.spec_number(),
    {
        match self {
            TileValue::Suited(suited) => Some(suited.value()),
            TileValue::Honor(_) => None,
        }
    }
}

impl PartialOrdSpecImpl for TileValue {
    open spec fn obeys_partial_cmp_spec() -> bool {
        true
    }

    open spec fn partial_cmp_spec(&self, other: &TileValue) -> Option<Ordering> {
        if self.precedes(*other) {
            Some(Ordering::Less)
        } else if *self == *other {
            Some(Ordering::Equal)
        } else {
            Some(Ordering::Greater)
        }
    }
}

impl PartialOrd for TileValue {
    fn partial_cmp(&self, other: &TileValue) -> (r: Option<Ordering>) {
        match (self, other) {
            (TileValue::Suited(a), TileValue::Suited(b)) => a.partial_cmp(b),
            (TileValue::Suited(_), TileValue::Honor(_)) => Some(Ordering::Less),
            (TileValue::Honor(_), TileValue::Suited(_)) => Some(Ordering::Greater),
            (TileValue::Honor(a), TileValue::Honor(b)) => a.partial_cmp(b),
        }
    }
}

/// The order on tile values is a strict total order: no value comes before
/// itself, the order is transitive, and of two different values exactly one
/// comes before the other.
pub proof fn lemma_precedes_is_a_strict_total_order(a: TileValue, b: TileValue, c: TileValue)
    ensures
        !a.precedes(a),
        a.precedes(b) && b.precedes(c) ==> a.precedes(c),
        a.precedes(b) || a == b || b.precedes(a),
        !(a.precedes(b) && b.precedes(a)),
{
}

/// A value that directly follows another comes right after it in the order:
/// it comes after it, and no value lies between the two.
pub proof fn lemma_followed_by_is_the_next_in_order(a: TileValue, b: TileValue, between: TileValue)
    requires
        a.spec_followed_by(b),
    ensures
        a.precedes(b),
        !(a.precedes(between) && between.precedes(b)),
{
}

/// Among values with numbers from 1 to 9, `b` directly follows `a` exactly
/// when `b` is the next value after `a`, and exactly when `a` is the
/// previous value before `b`.
pub proof fn lemma_followed_by_is_next_and_prev(a: TileValue, b: TileValue)
    requires
        a.well_formed(),
        b.well_formed(),
    ensures
        a.spec_followed_by(b) <==> a.spec_next() == Some(b),
        a.spec_followed_by(b) <==> b.spec_prev() == Some(a),
{
}

/// The dora indicators go in circles: nine steps lead back to a suited
/// value with a number from 1 to 9, four steps to a wind, three steps to a
/// dragon, and no single step leads to the value itself.
pub proof fn lemma_next_dora_goes_in_circles(value: TileValue)
    requires
        value.well_formed(),
    ensures
        match value {
            TileValue::Suited(_) => value.spec_next_dora().spec_next_dora().spec_next_dora()
                .spec_next_dora().spec_next_dora().spec_next_dora().spec_next_dora()
                .spec_next_dora().spec_next_dora() == value,
            TileValue::Honor(HonorTile::Wind(_)) => value.spec_next_dora().spec_next_dora()
                .spec_next_dora().spec_next_dora() == value,
            TileValue::Honor(HonorTile::Dragon(_)) => value.spec_next_dora().spec_next_dora()
                .spec_next_dora() == value,
        },
        value.spec_next_dora() != value,
{
    match value {
        TileValue::Suited(x) => {
            lemma_next_dora_comes_back_after_nine(x);
            lemma_next_dora_is_the_next_number(x);
        },
        TileValue::Honor(_) => {},
    }
}

} // verus!
