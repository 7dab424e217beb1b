//! Arrangements of a concealed hand, and the search for the arrangements
//! that wait for one tile.

use vstd::prelude::*;
use crate::hand::group::Group;
use crate::hand::laws::{lemma_consume_arranges, lemma_find_waits_arranges};
use crate::hand::rules::{
    end_of_lower, end_of_run, explore, lemma_end_of_lower, lemma_end_of_run, spec_find_waits,
    step_size, HandArrangementView, Step,
};
use crate::hand::wait::{side_symbols, Wait};
use crate::tile::Tile;
use crate::tile::tile_value::TileValue;

verus! {

/// Groups that have been set aside from a hand, and the incomplete group
/// that the hand waits on, once one has been chosen.
#[derive(Debug, PartialEq, Eq)]
pub struct HandArrangement {
    pub groups: Vec<Group>,
    pub wait: Option<Wait>,
}

impl View for HandArrangement {
    type V = HandArrangementView;

    open spec fn view(&self) -> HandArrangementView {
        HandArrangementView {
            groups: self.groups@,
            wait: match self.wait {
                Some(w) => Some(w@),
                None => None,
            },
        }
    }
}

impl DeepView for HandArrangement {
    type V = HandArrangementView;

    open spec fn deep_view(&self) -> HandArrangementView {
        self@
    }
}

/// The outcome of a rule as the executable functions return it, taken to
/// mathematical values.
pub open spec fn step_view(step: Option<(HandArrangement, Vec<Tile>)>) -> Step {
    match step {
        Some((arrangement, rest)) => Some((arrangement@, rest@)),
        None => None,
    }
}

impl Clone for HandArrangement {
    fn clone(&self) -> (r: HandArrangement)
        ensures
            r@ == self@,
    {
        HandArrangement { groups: self.groups.clone(), wait: self.wait.clone() }
    }
}

impl HandArrangement {
    /// The arrangement that holds no group and no wait.
    pub fn empty() -> (r: HandArrangement)
        ensures
            r@ == HandArrangementView::empty(),
    {
        HandArrangement { groups: Vec::new(), wait: None }
    }

    /// The groups set aside so far, in the order in which they were taken.
    pub fn groups(&self) -> (r: &Vec<Group>)
        ensures
            r@ == self@.groups,
    {
        &self.groups
    }

    /// The incomplete group that the hand waits on, if one has been chosen.
    pub fn wait(&self) -> (r: &Option<Wait>)
        ensures
            *r == self.wait,
    {
        &self.wait
    }

    /// Whether one of the groups is a pair.
    pub fn has_pair(&self) -> (b: bool)
        ensures
            b == self@.has_pair(),
    {
        let mut i: usize = 0;
        while i < self.groups.len()
            invariant
                i <= self.groups.len(),
                forall|j: int| 0 <= j < i ==> !(self.groups@[j] is Pair),
            decreases self.groups.len() - i,
        {
            if let Group::Pair(_, _) = self.groups[i] {
                return true;
            }
            i += 1;
        }
        false
    }

    /// The arrangement with `group` added after the groups of this one.
    fn with_group(&self, group: Group) -> (r: HandArrangement)
        ensures
            r@ == self@.with_group(group),
    {
        let mut groups = self.groups.clone();
        groups.push(group);
        HandArrangement { groups, wait: self.wait.clone() }
    }

    /// The arrangement with the groups of this one and `wait` as its wait.
    fn with_wait(&self, wait: Wait) -> (r: HandArrangement)
        ensures
            r@ == self@.with_wait(wait@),
    {
        HandArrangement { groups: self.groups.clone(), wait: Some(wait) }
    }

    /// The arrangements that wait for one tile and that the rules reach from
    /// this arrangement by using up `hidden_tiles`, in the order in which the
    /// rules find them. The rules look for the members of a group from the
    /// first tile onwards, so they find every group only in tiles that stand
    /// in ascending order.
    pub fn consume(&self, hidden_tiles: &Vec<Tile>) -> (arrangements: Vec<HandArrangement>)
        ensures
            arrangements.deep_view() == self@.consume(hidden_tiles@),
            forall|i: int|
                0 <= i < arrangements.len() ==> (#[trigger] arrangements[i])@.arranges(
                    self@,
                    hidden_tiles@,
                ),
        decreases hidden_tiles.len(), 1int,
    {
        let mut arrangements: Vec<HandArrangement> = Vec::new();
        let ghost start = self@;
        let ghost tiles = hidden_tiles@;
        if hidden_tiles.is_empty() {
            if self.wait.is_some() {
                arrangements.push(self.clone());
            }
            proof {
                assert(arrangements.deep_view() =~= start.consume(tiles));
                lemma_found_arrange(arrangements, start, tiles);
            }
            return arrangements;
        }
        assert(arrangements.deep_view() =~= Seq::<HandArrangementView>::empty());
        assert(Seq::<HandArrangementView>::empty() + explore(start.extract_pon(tiles)) =~= explore(
            start.extract_pon(tiles),
        ));
        self.extract(hidden_tiles, &mut arrangements, HandArrangement::extract_pon);
        self.extract(hidden_tiles, &mut arrangements, HandArrangement::extract_pair);
        self.extract(hidden_tiles, &mut arrangements, HandArrangement::extract_chii);
        if self.wait.is_none() {
            self.extract(hidden_tiles, &mut arrangements, HandArrangement::extract_pon_wait);
            self.extract(hidden_tiles, &mut arrangements, HandArrangement::extract_chii_side_wait);
            self.extract(hidden_tiles, &mut arrangements, HandArrangement::extract_chii_middle_wait);
            self.extract(hidden_tiles, &mut arrangements, HandArrangement::extract_pair_wait);
        }
        proof {
            lemma_found_arrange(arrangements, start, tiles);
        }
        arrangements
    }

    /// Tries one rule on `hidden_tiles` and, where it applies, adds to
    /// `arrangements` what the search finds after it.
    fn extract<F>(
        &self,
        hidden_tiles: &Vec<Tile>,
        arrangements: &mut Vec<HandArrangement>,
        function: F,
    ) where F: Fn(&HandArrangement, &Vec<Tile>) -> Option<(HandArrangement, Vec<Tile>)>
        requires
            call_requires(function, (self, hidden_tiles)),
            forall|step: Option<(HandArrangement, Vec<Tile>)>|
                call_ensures(function, (self, hidden_tiles), step) ==> step_size(step_view(step))
                    <= hidden_tiles.len(),
        ensures
            exists|step: Option<(HandArrangement, Vec<Tile>)>|
                call_ensures(function, (self, hidden_tiles), step)
                    && final(arrangements).deep_view() == old(arrangements).deep_view() + explore(
                    step_view(step),
                ),
        decreases hidden_tiles.len(), 0int,
    {
        let step = function(self, hidden_tiles);
        if let Some((new_arrangement, remaining_tiles)) = step {
            let mut found = new_arrangement.consume(&remaining_tiles);
            let ghost before = arrangements.deep_view();
            let ghost after = found.deep_view();
            arrangements.append(&mut found);
            assert(arrangements.deep_view() =~= before + after);
        } else {
            assert(arrangements.deep_view() =~= arrangements.deep_view() + explore(step_view(step)));
        }
    }

    /// Sets aside the first three tiles as a triplet, if they have one value.
    pub fn extract_pon(&self, hidden_tiles: &Vec<Tile>) -> (r: Option<(HandArrangement, Vec<Tile>)>)
        ensures
            step_view(r) == self@.extract_pon(hidden_tiles@),
            r matches Some((_, rest)) ==> rest.len() == hidden_tiles.len() - 3,
    {
        if hidden_tiles.len() < 3 {
            return None;
        }
        let mut rest = hidden_tiles.clone();
        let first = rest.remove(0);
        let second = rest.remove(0);
        let third = rest.remove(0);
        if first.value() == second.value() && first.value() == third.value() {
            assert(rest@ =~= hidden_tiles@.skip(3));
            Some((self.with_group(Group::Pon(first, second, third)), rest))
        } else {
            None
        }
    }

    /// Sets aside the first two tiles as the pair of the hand, if they have
    /// one value and the arrangement has no pair yet.
    pub fn extract_pair(&self, hidden_tiles: &Vec<Tile>) -> (r: Option<(HandArrangement, Vec<Tile>)>)
        ensures
            step_view(r) == self@.extract_pair(hidden_tiles@),
            r matches Some((_, rest)) ==> rest.len() == hidden_tiles.len() - 2,
            self@.has_pair() ==> r is None,
    {
        if hidden_tiles.len() < 2 {
            return None;
        }
        if self.has_pair() {
            return None;
        }
        let mut rest = hidden_tiles.clone();
        let first = rest.remove(0);
        let second = rest.remove(0);
        if first.value() == second.value() {
            assert(rest@ =~= hidden_tiles@.skip(2));
            Some((self.with_group(Group::Pair(first, second)), rest))
        } else {
            None
        }
    }

    /// Sets aside a sequence that starts with the first tile: its second
    /// member is the first tile after those of the same value as the first,
    /// its third member the first tile after those of the same value as the
    /// second.
    pub fn extract_chii(&self, hidden_tiles: &Vec<Tile>) -> (r: Option<(HandArrangement, Vec<Tile>)>)
        ensures
            step_view(r) == self@.extract_chii(hidden_tiles@),
            r matches Some((_, rest)) ==> rest.len() == hidden_tiles.len() - 3,
    {
        if hidden_tiles.len() < 3 {
            proof {
                if hidden_tiles.len() > 0 {
                    lemma_end_of_run(hidden_tiles@, 1, hidden_tiles@[0].value());
                    let j = end_of_run(hidden_tiles@, 1, hidden_tiles@[0].value());
                    if j < hidden_tiles.len() {
                        lemma_end_of_run(hidden_tiles@, j + 1, hidden_tiles@[j].value());
                    }
                }
            }
            return None;
        }
        let first = hidden_tiles[0];
        let j = skip_run(hidden_tiles, 1, first.value());
        if j >= hidden_tiles.len() {
            return None;
        }
        let second = hidden_tiles[j];
        if !first.followed_by(second) {
            return None;
        }
        let k = skip_run(hidden_tiles, j + 1, second.value());
        if k >= hidden_tiles.len() {
            return None;
        }
        let third = hidden_tiles[k];
        if !second.followed_by(third) {
            return None;
        }
        let mut rest = hidden_tiles.clone();
        rest.remove(k);
        rest.remove(j);
        rest.remove(0);
        Some((self.with_group(Group::Chii(first, second, third)), rest))
    }

    /// Takes the first two tiles as a wait for a third of their value, if
    /// they have one value.
    pub fn extract_pon_wait(&self, hidden_tiles: &Vec<Tile>) -> (r: Option<
        (HandArrangement, Vec<Tile>),
    >)
        ensures
            step_view(r) == self@.extract_pon_wait(hidden_tiles@),
            r matches Some((_, rest)) ==> rest.len() == hidden_tiles.len() - 2,
    {
        if hidden_tiles.len() < 2 {
            return None;
        }
        let mut rest = hidden_tiles.clone();
        let first = rest.remove(0);
        let second = rest.remove(0);
        if first.value() == second.value() {
            assert(rest@ =~= hidden_tiles@.skip(2));
            let held = vec![first, second];
            let symbols = vec![first.value()];
            assert(held@ =~= seq![first, second]);
            assert(symbols@ =~= seq![first.value()]);
            Some((self.with_wait(Wait::new(held, symbols)), rest))
        } else {
            None
        }
    }

    /// Takes the first tile alone as a wait for its pair, if the arrangement
    /// has no pair.
    pub fn extract_pair_wait(&self, hidden_tiles: &Vec<Tile>) -> (r: Option<
        (HandArrangement, Vec<Tile>),
    >)
        ensures
            step_view(r) == self@.extract_pair_wait(hidden_tiles@),
            r matches Some((_, rest)) ==> rest.len() == hidden_tiles.len() - 1,
            self@.has_pair() ==> r is None,
    {
        if hidden_tiles.len() < 1 {
            return None;
        }
        if self.has_pair() {
            return None;
        }
        let mut rest = hidden_tiles.clone();
        let tile = rest.remove(0);
        assert(rest@ =~= hidden_tiles@.skip(1));
        let held = vec![tile];
        let symbols = vec![tile.value()];
        assert(held@ =~= seq![tile]);
        assert(symbols@ =~= seq![tile.value()]);
        Some((self.with_wait(Wait::new(held, symbols)), rest))
    }

    /// Takes the first two tiles as a wait on either end, if the second
    /// directly follows the first.
    pub fn extract_chii_side_wait(&self, hidden_tiles: &Vec<Tile>) -> (r: Option<
        (HandArrangement, Vec<Tile>),
    >)
        ensures
            step_view(r) == self@.extract_chii_side_wait(hidden_tiles@),
            r matches Some((_, rest)) ==> rest.len() == hidden_tiles.len() - 2,
    {
        if hidden_tiles.len() < 2 {
            return None;
        }
        let mut rest = hidden_tiles.clone();
        let first = rest.remove(0);
        let second = rest.remove(0);
        if first.followed_by(second) {
            assert(rest@ =~= hidden_tiles@.skip(2));
            let mut symbols: Vec<TileValue> = Vec::new();
            if let Some(below) = first.prev() {
                symbols.push(below);
            }
            if let Some(above) = second.next() {
                symbols.push(above);
            }
            let held = vec![first, second];
            assert(held@ =~= seq![first, second]);
            assert(symbols@ =~= side_symbols(first, second));
            Some((self.with_wait(Wait::new(held, symbols)), rest))
        } else {
            None
        }
    }

    /// Takes the first tile and a tile two numbers above it as a wait for
    /// the number between them. The tile taken is the first that is not
    /// below that value; the rule fails if it has another value.
    pub fn extract_chii_middle_wait(&self, hidden_tiles: &Vec<Tile>) -> (r: Option<
        (HandArrangement, Vec<Tile>),
    >)
        ensures
            step_view(r) == self@.extract_chii_middle_wait(hidden_tiles@),
            r matches Some((_, rest)) ==> rest.len() == hidden_tiles.len() - 2,
    {
        if hidden_tiles.len() < 2 {
            proof {
                if hidden_tiles.len() > 0 {
                    if let Some(between) = hidden_tiles@[0].spec_next() {
                        if let Some(third) = between.spec_next() {
                            lemma_end_of_lower(hidden_tiles@, 1, third);
                        }
                    }
                }
            }
            return None;
        }
        let first = hidden_tiles[0];
        let between = match first.next() {
            Some(v) => v,
            None => {
                return None;
            },
        };
        let third_symbol = match between.next() {
            Some(v) => v,
            None => {
                return None;
            },
        };
        let i = skip_lower(hidden_tiles, 1, third_symbol);
        if i >= hidden_tiles.len() {
            return None;
        }
        let third = hidden_tiles[i];
        if third.value() == third_symbol {
            let mut rest = hidden_tiles.clone();
            rest.remove(i);
            rest.remove(0);
            let held = vec![first, third];
            let symbols = vec![between];
            assert(held@ =~= seq![first, third]);
            assert(symbols@ =~= seq![between]);
            Some((self.with_wait(Wait::new(held, symbols)), rest))
        } else {
            None
        }
    }
}

/// The index of the first tile at `from` or after it whose value is not
/// `value`, or the number of tiles if there is none.
fn skip_run(tiles: &Vec<Tile>, from: usize, value: TileValue) -> (i: usize)
    requires
        from <= tiles.len(),
    ensures
        i == end_of_run(tiles@, from as int, value),
        from <= i <= tiles.len(),
{
    let mut i: usize = from;
    while i < tiles.len() && tiles[i].value() == value
        invariant
            from <= i <= tiles.len(),
            end_of_run(tiles@, i as int, value) == end_of_run(tiles@, from as int, value),
        decreases tiles.len() - i,
    {
        i += 1;
    }
    i
}

/// The index of the first tile at `from` or after it whose value does not
/// come before `value`, or the number of tiles if there is none.
fn skip_lower(tiles: &Vec<Tile>, from: usize, value: TileValue) -> (i: usize)
    requires
        from <= tiles.len(),
    ensures
        i == end_of_lower(tiles@, from as int, value),
        from <= i <= tiles.len(),
{
    let mut i: usize = from;
    while i < tiles.len() && tiles[i].value() < value
        invariant
            from <= i <= tiles.len(),
            end_of_lower(tiles@, i as int, value) == end_of_lower(tiles@, from as int, value),
        decreases tiles.len() - i,
    {
        i += 1;
    }
    i
}

/// What the laws of the search say of its results, said of the
/// arrangements that the executable search hands out.
proof fn lemma_found_arrange(
    arrangements: Vec<HandArrangement>,
    start: HandArrangementView,
    tiles: Seq<Tile>,
)
    requires
        arrangements.deep_view() == start.consume(tiles),
    ensures
        forall|i: int|
            0 <= i < arrangements.len() ==> (#[trigger] arrangements[i])@.arranges(start, tiles),
{
    lemma_consume_arranges(start, tiles);
    assert forall|i: int| 0 <= i < arrangements.len() implies (#[trigger] arrangements[i])@.arranges(
        start,
        tiles,
    ) by {
        assert(arrangements.deep_view()[i] == arrangements[i]@);
    }
}

/// Every way to part `sorted_tiles` into groups and one wait: the
/// arrangements that the rules reach from the empty arrangement, in the
/// order in which the rules find them. The caller hands the tiles over in
/// ascending order of their values; tiles of one value may come in any
/// order.
pub fn find_waits(sorted_tiles: &Vec<Tile>) -> (arrangements: Vec<HandArrangement>)
    ensures
        arrangements.deep_view() == spec_find_waits(sorted_tiles@),
        forall|i: int|
            0 <= i < arrangements.len() ==> {
                let found = (#[trigger] arrangements[i])@;
                &&& found.wait is Some
                &&& found.tiles().to_multiset() == sorted_tiles@.to_multiset()
                &&& found.well_formed()
                &&& found.at_most_one_pair()
                &&& !found.has_quad()
            },
{
    let arrangements = HandArrangement::empty().consume(sorted_tiles);
    proof {
        lemma_find_waits_arranges(sorted_tiles@);
        assert forall|i: int| 0 <= i < arrangements.len() implies (#[trigger] arrangements[i])@
            == spec_find_waits(sorted_tiles@)[i] by {
            assert(arrangements.deep_view()[i] == arrangements[i]@);
        }
    }
    arrangements
}

} // verus!
