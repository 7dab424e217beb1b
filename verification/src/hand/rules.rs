//! The rules by which tiles leave a hand for an arrangement, and the search
//! that they make up, as mathematics.

use vstd::prelude::*;
use crate::hand::group::Group;
use crate::hand::wait::{side_symbols, WaitView};
use crate::tile::Tile;
use crate::tile::tile_value::TileValue;

verus! {

/// What a [`HandArrangement`] holds, as mathematical values.
pub struct HandArrangementView {
    pub groups: Seq<Group>,
    pub wait: Option<WaitView>,
}

/// The outcome of trying one rule: the arrangement that the rule leads to
/// and the tiles that it leaves.
pub type Step = Option<(HandArrangementView, Seq<Tile>)>;

/// The index just past the tiles of value `value` that stand at `from` and
/// after it: the least index from `from` on that is past the end or holds
/// another value.
pub open spec fn end_of_run(tiles: Seq<Tile>, from: int, value: TileValue) -> int
    decreases tiles.len() - from,
{
    if 0 <= from < tiles.len() && tiles[from].value() == value {
        end_of_run(tiles, from + 1, value)
    } else {
        from
    }
}

/// The index just past the tiles that come before `value` in the order of
/// tile values and stand at `from` and after it.
pub open spec fn end_of_lower(tiles: Seq<Tile>, from: int, value: TileValue) -> int
    decreases tiles.len() - from,
{
    if 0 <= from < tiles.len() && tiles[from].value().precedes(value) {
        end_of_lower(tiles, from + 1, value)
    } else {
        from
    }
}

/// The tiles stand in ascending order of their values: no tile has a value
/// that comes before the value of a tile to its left.
pub open spec fn is_ascending(tiles: Seq<Tile>) -> bool {
    forall|i: int, j: int|
        0 <= i <= j < tiles.len() ==> !(#[trigger] tiles[j]).value().precedes(
            (#[trigger] tiles[i]).value(),
        )
}

/// All member tiles of `groups`, group after group.
pub open spec fn group_tiles(groups: Seq<Group>) -> Seq<Tile>
    decreases groups.len(),
{
    if groups.len() == 0 {
        Seq::<Tile>::empty()
    } else {
        group_tiles(groups.drop_last()) + groups.last().spec_tiles()
    }
}

impl HandArrangementView {
    /// The arrangement that holds nothing yet.
    pub open spec fn empty() -> HandArrangementView {
        HandArrangementView { groups: Seq::<Group>::empty(), wait: None }
    }

    /// Some group of the arrangement is a pair.
    pub open spec fn has_pair(self) -> bool {
        exists|i: int| 0 <= i < self.groups.len() && self.groups[i] is Pair
    }

    /// No two groups of the arrangement are pairs.
    pub open spec fn at_most_one_pair(self) -> bool {
        forall|i: int, j: int|
            0 <= i < self.groups.len() && 0 <= j < self.groups.len() && self.groups[i] is Pair
                && self.groups[j] is Pair ==> i == j
    }

    /// Every group has the shape that its variant names, the wait, if there
    /// is one, has one of the four waiting shapes, and at most one group is a
    /// pair.
    pub open spec fn well_formed(self) -> bool {
        &&& forall|i: int| 0 <= i < self.groups.len() ==> (#[trigger] self.groups[i]).well_formed()
        &&& self.wait matches Some(w) ==> w.well_formed()
        &&& self.at_most_one_pair()
    }

    /// The tiles of the arrangement: those of its groups, then those of its
    /// wait.
    pub open spec fn tiles(self) -> Seq<Tile> {
        group_tiles(self.groups) + match self.wait {
            Some(w) => w.tiles,
            None => Seq::<Tile>::empty(),
        }
    }

    /// Some group of the arrangement is a quad.
    pub open spec fn has_quad(self) -> bool {
        exists|i: int| 0 <= i < self.groups.len() && self.groups[i] is Kan
    }

    /// This arrangement is a complete one for the hand that consists of the
    /// arrangement `start` and the loose tiles `tiles`: it has a wait, which
    /// is that of `start` if `start` had one; its tiles are, each as often
    /// as it occurs, the tiles of `start` together with `tiles`; it is well
    /// formed if `start` was; and it has no quad if `start` had none.
    pub open spec fn arranges(self, start: HandArrangementView, tiles: Seq<Tile>) -> bool {
        &&& self.wait is Some
        &&& start.wait is Some ==> self.wait == start.wait
        &&& self.tiles().to_multiset() == start.tiles().to_multiset().add(tiles.to_multiset())
        &&& start.well_formed() ==> self.well_formed()
        &&& !start.has_quad() ==> !self.has_quad()
    }

    /// The arrangement with one more group at the end.
    pub open spec fn with_group(self, group: Group) -> HandArrangementView {
        HandArrangementView { groups: self.groups.push(group), wait: self.wait }
    }

    /// The arrangement with `wait` as its wait.
    pub open spec fn with_wait(self, wait: WaitView) -> HandArrangementView {
        HandArrangementView { groups: self.groups, wait: Some(wait) }
    }

    /// The triplet rule: the first three tiles have one value.
    pub open spec fn extract_pon(self, tiles: Seq<Tile>) -> Step {
        if tiles.len() >= 3 && tiles[0].value() == tiles[1].value() && tiles[0].value()
            == tiles[2].value() {
            Some((self.with_group(Group::Pon(tiles[0], tiles[1], tiles[2])), tiles.skip(3)))
        } else {
            None
        }
    }

    /// The pair rule: the arrangement has no pair yet, and the first two
    /// tiles have one value.
    pub open spec fn extract_pair(self, tiles: Seq<Tile>) -> Step {
        if tiles.len() >= 2 && !self.has_pair() && tiles[0].value() == tiles[1].value() {
            Some((self.with_group(Group::Pair(tiles[0], tiles[1])), tiles.skip(2)))
        } else {
            None
        }
    }

    /// The sequence rule. The second member is the first tile after those
    /// that repeat the value of the first tile, the third member the first
    /// tile after it that does not repeat its value; each must directly
    /// follow the member before it.
    pub open spec fn extract_chii(self, tiles: Seq<Tile>) -> Step {
        if tiles.len() == 0 {
            None
        } else {
            let j = end_of_run(tiles, 1, tiles[0].value());
            if j < tiles.len() && tiles[0].spec_followed_by(tiles[j]) {
                let k = end_of_run(tiles, j + 1, tiles[j].value());
                if k < tiles.len() && tiles[j].spec_followed_by(tiles[k]) {
                    Some(
                        (
                            self.with_group(Group::Chii(tiles[0], tiles[j], tiles[k])),
                            tiles.remove(k).remove(j).remove(0),
                        ),
                    )
                } else {
                    None
                }
            } else {
                None
            }
        }
    }

    /// The triplet wait: the first two tiles have one value, and a third of
    /// that value completes them.
    pub open spec fn extract_pon_wait(self, tiles: Seq<Tile>) -> Step {
        if tiles.len() >= 2 && tiles[0].value() == tiles[1].value() {
            Some(
                (
                    self.with_wait(
                        WaitView {
                            tiles: seq![tiles[0], tiles[1]],
                            wait_symbols: seq![tiles[0].value()],
                        },
                    ),
                    tiles.skip(2),
                ),
            )
        } else {
            None
        }
    }

    /// The side wait: the second tile directly follows the first, and the
    /// values at either end of the two complete them.
    pub open spec fn extract_chii_side_wait(self, tiles: Seq<Tile>) -> Step {
        if tiles.len() >= 2 && tiles[0].spec_followed_by(tiles[1]) {
            Some(
                (
                    self.with_wait(
                        WaitView {
                            tiles: seq![tiles[0], tiles[1]],
                            wait_symbols: side_symbols(tiles[0], tiles[1]),
                        },
                    ),
                    tiles.skip(2),
                ),
            )
        } else {
            None
        }
    }

    /// The middle wait: the first tile after those below the value two
    /// numbers above the first tile has exactly that value, and the value
    /// between the two completes them.
    pub open spec fn extract_chii_middle_wait(self, tiles: Seq<Tile>) -> Step {
        if tiles.len() == 0 {
            None
        } else {
            match tiles[0].spec_next() {
                Some(between) => match between.spec_next() {
                    Some(third) => {
                        let i = end_of_lower(tiles, 1, third);
                        if i < tiles.len() && tiles[i].value() == third {
                            Some(
                                (
                                    self.with_wait(
                                        WaitView {
                                            tiles: seq![tiles[0], tiles[i]],
                                            wait_symbols: seq![between],
                                        },
                                    ),
                                    tiles.remove(i).remove(0),
                                ),
                            )
                        } else {
                            None
                        }
                    },
                    None => None,
                },
                None => None,
            }
        }
    }

    /// The pair wait: the arrangement has no pair, and the first tile alone
    /// waits for a second of its value.
    pub open spec fn extract_pair_wait(self, tiles: Seq<Tile>) -> Step {
        if tiles.len() >= 1 && !self.has_pair() {
            Some(
                (
                    self.with_wait(
                        WaitView { tiles: seq![tiles[0]], wait_symbols: seq![tiles[0].value()] },
                    ),
                    tiles.skip(1),
                ),
            )
        } else {
            None
        }
    }
}

impl HandArrangementView {
    /// Every arrangement with a wait that the rules reach from this
    /// arrangement by using up `tiles`. With no tile left the arrangement
    /// itself is the one result if it has a wait, and there is none if it has
    /// not. Otherwise the results of the rules follow one another in the
    /// order triplet, pair, sequence, and then, while the arrangement has no
    /// wait, triplet wait, side wait, middle wait, pair wait. Nothing is
    /// left out where two rules reach the same arrangement.
    pub open spec fn consume(self, tiles: Seq<Tile>) -> Seq<HandArrangementView>
        decreases tiles.len(), 1int,
        via Self::consume_terminates
    {
        if tiles.len() == 0 {
            if self.wait is Some {
                seq![self]
            } else {
                Seq::<HandArrangementView>::empty()
            }
        } else {
            let with_groups = explore(self.extract_pon(tiles)) + explore(self.extract_pair(tiles))
                + explore(self.extract_chii(tiles));
            if self.wait is None {
                with_groups + explore(self.extract_pon_wait(tiles)) + explore(
                    self.extract_chii_side_wait(tiles),
                ) + explore(self.extract_chii_middle_wait(tiles)) + explore(
                    self.extract_pair_wait(tiles),
                )
            } else {
                with_groups
            }
        }
    }

    #[via_fn]
    proof fn consume_terminates(self, tiles: Seq<Tile>) {
        lemma_rules_shorten(self, tiles);
    }
}

/// The number of tiles that a step leaves, counted from one, and zero for
/// no step: what the search after a step is bounded by.
pub open spec fn step_size(step: Step) -> nat {
    match step {
        Some((_, rest)) => rest.len() + 1,
        None => 0,
    }
}

/// The results of the search after one rule: those of the arrangement that
/// the rule led to, on the tiles that it left, and none where the rule did
/// not apply.
pub open spec fn explore(step: Step) -> Seq<HandArrangementView>
    decreases step_size(step), 0int,
{
    match step {
        Some((arrangement, rest)) => arrangement.consume(rest),
        None => Seq::<HandArrangementView>::empty(),
    }
}

/// Every arrangement that waits for one tile and is reached from the empty
/// arrangement by using up `tiles`.
pub open spec fn spec_find_waits(tiles: Seq<Tile>) -> Seq<HandArrangementView> {
    HandArrangementView::empty().consume(tiles)
}

/// A step leaves `taken` tiles fewer than the `tiles` that its rule was
/// given.
pub open spec fn shortens_by(step: Step, tiles: Seq<Tile>, taken: int) -> bool {
    step matches Some((_, rest)) ==> rest.len() == tiles.len() - taken
}

/// Every rule that applies takes one to three tiles out of those that it
/// was given.
pub proof fn lemma_rules_shorten(arrangement: HandArrangementView, tiles: Seq<Tile>)
    ensures
        shortens_by(arrangement.extract_pon(tiles), tiles, 3),
        shortens_by(arrangement.extract_pair(tiles), tiles, 2),
        shortens_by(arrangement.extract_chii(tiles), tiles, 3),
        shortens_by(arrangement.extract_pon_wait(tiles), tiles, 2),
        shortens_by(arrangement.extract_chii_side_wait(tiles), tiles, 2),
        shortens_by(arrangement.extract_chii_middle_wait(tiles), tiles, 2),
        shortens_by(arrangement.extract_pair_wait(tiles), tiles, 1),
{
    if tiles.len() > 0 {
        lemma_end_of_run(tiles, 1, tiles[0].value());
        let j = end_of_run(tiles, 1, tiles[0].value());
        if j < tiles.len() {
            lemma_end_of_run(tiles, j + 1, tiles[j].value());
        }
        if let Some(between) = tiles[0].spec_next() {
            if let Some(third) = between.spec_next() {
                lemma_end_of_lower(tiles, 1, third);
            }
        }
    }
}

/// `end_of_run` stops within the tiles, passes only tiles of `value`, and
/// stops at a tile of another value if it stops at a tile at all.
pub proof fn lemma_end_of_run(tiles: Seq<Tile>, from: int, value: TileValue)
    requires
        0 <= from <= tiles.len(),
    ensures
        from <= end_of_run(tiles, from, value) <= tiles.len(),
        forall|i: int| from <= i < end_of_run(tiles, from, value) ==> (#[trigger] tiles[i]).value() == value,
        end_of_run(tiles, from, value) < tiles.len() ==> tiles[end_of_run(tiles, from, value)].value()
            != value,
    decreases tiles.len() - from,
{
    if from < tiles.len() && tiles[from].value() == value {
        lemma_end_of_run(tiles, from + 1, value);
    }
}

/// `end_of_lower` stops within the tiles, passes only tiles below `value`,
/// and stops at a tile that is not below `value` if it stops at a tile at
/// all.
pub proof fn lemma_end_of_lower(tiles: Seq<Tile>, from: int, value: TileValue)
    requires
        0 <= from <= tiles.len(),
    ensures
        from <= end_of_lower(tiles, from, value) <= tiles.len(),
        forall|i: int|
            from <= i < end_of_lower(tiles, from, value) ==> (#[trigger] tiles[i]).value().precedes(
                value,
            ),
        end_of_lower(tiles, from, value) < tiles.len() ==> !tiles[end_of_lower(
            tiles,
            from,
            value,
        )].value().precedes(value),
    decreases tiles.len() - from,
{
    if from < tiles.len() && tiles[from].value().precedes(value) {
        lemma_end_of_lower(tiles, from + 1, value);
    }
}

} // verus!
