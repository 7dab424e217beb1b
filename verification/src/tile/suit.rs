//! Suits and suited tile values.

use vstd::prelude::*;
use vstd::std_specs::cmp::PartialOrdSpecImpl;
use vstd::string::StringExecFns;
use core::cmp::Ordering;

verus! {

/// One of the three suits, ordered `Man < Pin < Sou`.
#[derive(Clone, Copy, Debug, PartialEq, Eq, Structural, Ord, Hash)]
pub enum Suit {
    Man,
    Pin,
    Sou,
}

impl Suit {
    /// Position of the suit in the declared order.
    pub open spec fn rank(self) -> int {
        match self {
            Suit::Man => 0,
            Suit::Pin => 1,
            Suit::Sou => 2,
        }
    }

    /// The strict order on suits.
    pub open spec fn precedes(self, other: Suit) -> bool {
        self.rank() < other.rank()
    }

    /// The name of the suit as it is written.
    pub open spec fn spec_name(&self) -> Seq<char> {
        match self {
            Suit::Man => "Man"@,
            Suit::Pin => "Pin"@,
            Suit::Sou => "Sou"@,
        }
    }

    fn rank_exec(&self) -> (r: u8)
        ensures
            r == self.rank(),
    {
        match self {
            Suit::Man => 0,
            Suit::Pin => 1,
            Suit::Sou => 2,
        }
    }

    /// The name of the suit: `Man`, `Pin` or `Sou`.
    pub fn name(&self) -> (r: &'static str)
        ensures
            r@ == self.spec_name(),
    {
        match self {
            Suit::Man => "Man",
            Suit::Pin => "Pin",
            Suit::Sou => "Sou",
        }
    }
}

/// The digit that writes a number from 1 to 9.
pub open spec fn spec_digit(value: u8) -> Seq<char> {
    match value {
        1 => "1"@,
        2 => "2"@,
        3 => "3"@,
        4 => "4"@,
        5 => "5"@,
        6 => "6"@,
        7 => "7"@,
        8 => "8"@,
        9 => "9"@,
        _ => ""@,
    }
}

fn digit(value: u8) -> (r: &'static str)
    ensures
        r@ == spec_digit(value),
{
    match value {
        1 => "1",
        2 => "2",
        3 => "3",
        4 => "4",
        5 => "5",
        6 => "6",
        7 => "7",
        8 => "8",
        9 => "9",
        _ => "",
    }
}

impl PartialOrdSpecImpl for Suit {
    open spec fn obeys_partial_cmp_spec() -> bool {
        true
    }

    open spec fn partial_cmp_spec(&self, other: &Suit) -> Option<Ordering> {
        if self.precedes(*other) {
            Some(Ordering::Less)
        } else if *self == *other {
            Some(Ordering::Equal)
        } else {
            Some(Ordering::Greater)
        }
    }
}

impl PartialOrd for Suit {
    fn partial_cmp(&self, other: &Suit) -> (r: Option<Ordering>) {
        let a: u8 = self.rank_exec();
        let b: u8 = other.rank_exec();
        if a < b {
            Some(Ordering::Less)
        } else if a == b {
            Some(Ordering::Equal)
        } else {
            Some(Ordering::Greater)
        }
    }
}

/// A number outside `1..=9` that was offered as the number of a suited tile.
#[derive(Clone, Copy, Debug, PartialEq, Eq, Structural)]
pub struct InvalidTileValue {
    pub value: u8,
}

/// A suit together with a number from 1 to 9.
#[derive(Clone, Copy, Debug, PartialEq, Eq, Structural, Ord, Hash)]
pub struct SuitedTile {
    pub(crate) suit: Suit,
    pub(crate) value: u8,
}

impl SuitedTile {
    /// Every suited tile that exists at run time carries a number from 1 to 9.
    #[verifier::type_invariant]
    pub open(crate) spec fn wf(self) -> bool {
        1 <= self.value <= 9
    }

    /// The number of the tile.
    pub open(crate) spec fn spec_value(&self) -> u8 {
        self.value
    }

    /// The suit of the tile.
    pub open(crate) spec fn spec_suit(&self) -> Suit {
        self.suit
    }

    /// A tile is terminal when its number is 1 or 9.
    pub open(crate) spec fn spec_is_terminal(&self) -> bool {
        self.value == 1 || self.value == 9
    }

    /// A tile is simple when its number lies strictly between 1 and 9.
    pub open(crate) spec fn spec_is_simple(&self) -> bool {
        1 < self.value < 9
    }

    /// The tile shown by a dora indicator: the next number, 1 after 9.
    pub open(crate) spec fn spec_next_dora(&self) -> SuitedTile {
        SuitedTile { suit: self.suit, value: (self.value % 9 + 1) as u8 }
    }

    /// The tile one number higher, none above 9.
    pub open(crate) spec fn spec_next(&self) -> Option<SuitedTile> {
        if self.value >= 9 {
            None
        } else {
            Some(SuitedTile { suit: self.suit, value: (self.value + 1) as u8 })
        }
    }

    /// The tile one number lower, none below 1.
    pub open(crate) spec fn spec_prev(&self) -> Option<SuitedTile> {
        if self.value <= 1 {
            None
        } else {
            Some(SuitedTile { suit: self.suit, value: (self.value - 1) as u8 })
        }
    }

    /// `other` is the tile of the same suit whose number is one higher.
    pub open(crate) spec fn spec_followed_by(&self, other: SuitedTile) -> bool {
        self.suit == other.suit && other.value == self.value + 1
    }

    /// The tile as it is written: its number, a space, and the name of its
    /// suit.
    pub open(crate) spec fn spec_to_string(&self) -> Seq<char> {
        spec_digit(self.value) + " "@ + self.suit.spec_name()
    }

    /// The strict order on suited tiles: by suit, then by number.
    pub open(crate) spec fn precedes(self, other: SuitedTile) -> bool {
        self.suit.precedes(other.suit) || (self.suit == other.suit && self.value < other.value)
    }

    /// Makes the tile of `suit` with number `value`, or reports the number if
    /// it is not one of 1 to 9.
    pub fn new(suit: Suit, value: u8) -> (r: Result<SuitedTile, InvalidTileValue>)
        ensures
            match r {
                Ok(t) => 1 <= value <= 9 && t.suit() == suit && t.value() == value,
                Err(e) => !(1 <= value <= 9) && e.value == value,
            },
    {
        if value == 0 || value > 9 {
            Err(InvalidTileValue { value })
        } else {
            Ok(SuitedTile { suit, value })
        }
    }

    /// The number of the tile.
    #[verifier::when_used_as_spec(spec_value)]
    pub fn value(&self) -> (v: u8)
        ensures
            v == self.spec_value(),
            1 <= v <= 9,
    {
        proof {
            use_type_invariant(self);
        }
        self.value
    }

    /// The suit of the tile.
    #[verifier::when_used_as_spec(spec_suit)]
    pub fn suit(&self) -> (s: Suit)
        ensures
            s == self.spec_suit(),
    {
        self.suit
    }

    /// Whether the number lies in 1 to 9, which it always does.
    pub fn is_valid(&self) -> (b: bool)
        ensures
            b == self.wf(),
            b,
    {
        proof {
            use_type_invariant(self);
        }
        self.value >= 1 && self.value <= 9
    }

    /// Whether the tile is a 1 or a 9.
    #[verifier::when_used_as_spec(spec_is_terminal)]
    pub fn is_terminal(&self) -> (b: bool)
        ensures
            b == self.spec_is_terminal(),
            b <==> self.value() == 1 || self.value() == 9,
    {
        self.value == 1 || self.value == 9
    }

    /// Whether the tile is one of 2 to 8.
    #[verifier::when_used_as_spec(spec_is_simple)]
    pub fn is_simple(&self) -> (b: bool)
        ensures
            b == self.spec_is_simple(),
            b <==> 1 < self.value() < 9,
    {
        self.value > 1 && self.value < 9
    }

    /// The dora that this tile indicates: the next number of the suit, 1
    /// after 9.
    #[verifier::when_used_as_spec(spec_next_dora)]
    pub fn next_dora(&self) -> (r: SuitedTile)
        ensures
            r == self.spec_next_dora(),
            r.suit() == self.suit(),
            r.value() == self.value() % 9 + 1,
    {
        proof {
            use_type_invariant(self);
        }
        SuitedTile { suit: self.suit, value: (self.value % 9) + 1 }
    }

    /// The tile one number higher, `None` for a 9.
    #[verifier::when_used_as_spec(spec_next)]
    pub fn next(&self) -> (r: Option<SuitedTile>)
        ensures
            r == self.spec_next(),
            match r {
                Some(n) => self.value() < 9 && n.suit() == self.suit() && n.value() == self.value()
                    + 1,
                None => self.value() == 9,
            },
    {
        proof {
            use_type_invariant(self);
        }
        if self.value >= 9 {
            None
        } else {
            Some(SuitedTile { suit: self.suit, value: self.value + 1 })
        }
    }

    /// The tile one number lower, `None` for a 1.
    #[verifier::when_used_as_spec(spec_prev)]
    pub fn prev(&self) -> (r: Option<SuitedTile>)
        ensures
            r == self.spec_prev(),
            match r {
                Some(p) => self.value() > 1 && p.suit() == self.suit() && p.value() == self.value()
                    - 1,
                None => self.value() == 1,
            },
    {
        proof {
            use_type_invariant(self);
        }
        if self.value <= 1 {
            None
        } else {
            Some(SuitedTile { suit: self.suit, value: self.value - 1 })
        }
    }

    /// The tile in words, as in `3 Man`.
    pub fn to_string(&self) -> (r: String)
        ensures
            r@ == self.spec_to_string(),
    {
        String::from_str(digit(self.value)).concat(" ").concat(self.suit.name())
    }

    /// Whether `other` directly follows this tile in its suit.
    #[verifier::when_used_as_spec(spec_followed_by)]
    pub fn followed_by(&self, other: SuitedTile) -> (b: bool)
        ensures
            b == self.spec_followed_by(other),
            b <==> self.suit() == other.suit() && other.value() == self.value() + 1,
    {
        proof {
            use_type_invariant(self);
        }
        self.suit == other.suit && other.value == self.value + 1
    }
}

impl PartialOrdSpecImpl for SuitedTile {
    open spec fn obeys_partial_cmp_spec() -> bool {
        true
    }

    open spec fn partial_cmp_spec(&self, other: &SuitedTile) -> Option<Ordering> {
        if self.precedes(*other) {
            Some(Ordering::Less)
        } else if *self == *other {
            Some(Ordering::Equal)
        } else {
            Some(Ordering::Greater)
        }
    }
}

impl PartialOrd for SuitedTile {
    fn partial_cmp(&self, other: &SuitedTile) -> (r: Option<Ordering>) {
        if self.suit < other.suit {
            Some(Ordering::Less)
        } else if self.suit == other.suit {
            if self.value < other.value {
                Some(Ordering::Less)
            } else if self.value == other.value {
                Some(Ordering::Equal)
            } else {
                Some(Ordering::Greater)
            }
        } else {
            Some(Ordering::Greater)
        }
    }
}

/// A dora indicator with a number from 1 to 9 shows the tile of its suit
/// with the next number, and 1 after 9.
pub proof fn lemma_next_dora_is_the_next_number(tile: SuitedTile)
    requires
        tile.wf(),
    ensures
        tile.spec_next_dora().wf(),
        tile.spec_next_dora().suit() == tile.suit(),
        tile.spec_next_dora().value() == if tile.value() == 9 {
            1
        } else {
            tile.value() + 1
        },
{
}

/// Nine steps of the dora indicator lead back to the same suited tile.
pub proof fn lemma_next_dora_comes_back_after_nine(tile: SuitedTile)
    requires
        tile.wf(),
    ensures
        tile.spec_next_dora().spec_next_dora().spec_next_dora().spec_next_dora().spec_next_dora()
            .spec_next_dora().spec_next_dora().spec_next_dora().spec_next_dora() == tile,
{
    let t1 = tile.spec_next_dora();
    lemma_next_dora_is_the_next_number(tile);
    let t2 = t1.spec_next_dora();
    lemma_next_dora_is_the_next_number(t1);
    let t3 = t2.spec_next_dora();
    lemma_next_dora_is_the_next_number(t2);
    let t4 = t3.spec_next_dora();
    lemma_next_dora_is_the_next_number(t3);
    let t5 = t4.spec_next_dora();
    lemma_next_dora_is_the_next_number(t4);
    let t6 = t5.spec_next_dora();
    lemma_next_dora_is_the_next_number(t5);
    let t7 = t6.spec_next_dora();
    lemma_next_dora_is_the_next_number(t6);
    let t8 = t7.spec_next_dora();
    lemma_next_dora_is_the_next_number(t7);
    let t9 = t8.spec_next_dora();
    lemma_next_dora_is_the_next_number(t8);
    assert(t9.value() == tile.value());
    assert(t9.suit() == tile.suit());
}

} // verus!
