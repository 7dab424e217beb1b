//! What holds of every arrangement that the search returns.

use vstd::prelude::*;
use vstd::multiset::Multiset;
use vstd::seq_lib::lemma_multiset_commutative;
use crate::hand::group::Group;
use crate::hand::rules::{
    end_of_lower, end_of_run, explore, group_tiles, lemma_end_of_lower, lemma_end_of_run,
    is_ascending, lemma_rules_shorten, spec_find_waits, HandArrangementView, Step,
};
use crate::hand::wait::WaitView;
use crate::tile::tile_value::{
    lemma_followed_by_is_the_next_in_order, lemma_precedes_is_a_strict_total_order,
};
use crate::tile::Tile;

verus! {

/// A rule's step keeps the hand: it leaves fewer tiles than it was given,
/// keeps a wait that was there, moves tiles from the loose ones into the
/// arrangement without losing or adding any, keeps the arrangement well
/// formed, and brings in no quad.
pub open spec fn step_keeps(start: HandArrangementView, tiles: Seq<Tile>, step: Step) -> bool {
    step matches Some((next, rest)) ==> {
        &&& rest.len() < tiles.len()
        &&& start.wait is Some ==> next.wait == start.wait
        &&& next.tiles().to_multiset().add(rest.to_multiset()) == start.tiles().to_multiset().add(
            tiles.to_multiset(),
        )
        &&& start.well_formed() ==> next.well_formed()
        &&& !start.has_quad() ==> !next.has_quad()
    }
}

/// Tiles put between two runs of tiles add their own occurrences and change
/// no others.
proof fn lemma_tiles_between(base: Seq<Tile>, more: Seq<Tile>, tail: Seq<Tile>)
    ensures
        ((base + more) + tail).to_multiset() == (base + tail).to_multiset().add(more.to_multiset()),
{
    lemma_multiset_commutative(base + more, tail);
    lemma_multiset_commutative(base, more);
    lemma_multiset_commutative(base, tail);
    assert(((base + more) + tail).to_multiset() =~= (base + tail).to_multiset().add(
        more.to_multiset(),
    ));
}

/// The tiles are those of their first `n` together with the others.
proof fn lemma_front_taken(tiles: Seq<Tile>, n: int)
    requires
        0 <= n <= tiles.len(),
    ensures
        tiles.to_multiset() == tiles.skip(n).to_multiset().add(tiles.take(n).to_multiset()),
{
    assert(tiles =~= tiles.take(n) + tiles.skip(n));
    lemma_multiset_commutative(tiles.take(n), tiles.skip(n));
    assert(tiles.to_multiset() =~= tiles.skip(n).to_multiset().add(tiles.take(n).to_multiset()));
}

/// The tiles are those left when one is taken out, together with that one.
proof fn lemma_one_taken(tiles: Seq<Tile>, i: int)
    requires
        0 <= i < tiles.len(),
    ensures
        tiles.to_multiset() == tiles.remove(i).to_multiset().add(seq![tiles[i]].to_multiset()),
{
    let before = tiles.subrange(0, i);
    let after = tiles.subrange(i + 1, tiles.len() as int);
    assert(tiles =~= (before + seq![tiles[i]]) + after);
    assert(tiles.remove(i) =~= before + after);
    lemma_tiles_between(before, seq![tiles[i]], after);
}

/// A new group adds its tiles to those of the arrangement.
proof fn lemma_group_added(start: HandArrangementView, group: Group)
    ensures
        start.with_group(group).tiles().to_multiset() == start.tiles().to_multiset().add(
            group.spec_tiles().to_multiset(),
        ),
{
    let held = match start.wait {
        Some(w) => w.tiles,
        None => Seq::<Tile>::empty(),
    };
    assert(start.groups.push(group).drop_last() =~= start.groups);
    assert(group_tiles(start.groups.push(group)) == group_tiles(start.groups) + group.spec_tiles());
    lemma_tiles_between(group_tiles(start.groups), group.spec_tiles(), held);
}

/// A wait given to an arrangement that had none adds its tiles to those of
/// the arrangement.
proof fn lemma_wait_added(start: HandArrangementView, wait: WaitView)
    requires
        start.wait is None,
    ensures
        start.with_wait(wait).tiles().to_multiset() == start.tiles().to_multiset().add(
            wait.tiles.to_multiset(),
        ),
{
    let base = group_tiles(start.groups);
    let none = Seq::<Tile>::empty();
    assert(start.with_wait(wait).tiles() =~= (base + wait.tiles) + none);
    lemma_tiles_between(base, wait.tiles, none);
}

/// Three tiles in a row are those three tiles.
proof fn lemma_three_tiles(x: Tile, y: Tile, z: Tile)
    ensures
        seq![x, y, z].to_multiset() == seq![x].to_multiset().add(seq![y].to_multiset()).add(
            seq![z].to_multiset(),
        ),
{
    assert(seq![x, y, z] =~= (seq![x] + seq![y]) + seq![z]);
    lemma_multiset_commutative(seq![x] + seq![y], seq![z]);
    lemma_multiset_commutative(seq![x], seq![y]);
}

/// Two tiles in a row are those two tiles.
proof fn lemma_two_tiles(x: Tile, y: Tile)
    ensures
        seq![x, y].to_multiset() == seq![x].to_multiset().add(seq![y].to_multiset()),
{
    assert(seq![x, y] =~= seq![x] + seq![y]);
    lemma_multiset_commutative(seq![x], seq![y]);
}

/// Tiles that leave the loose tiles and enter the arrangement change
/// nothing in what the two hold together.
proof fn lemma_tiles_moved(
    start: HandArrangementView,
    tiles: Seq<Tile>,
    next: HandArrangementView,
    rest: Seq<Tile>,
    moved: Multiset<Tile>,
)
    requires
        next.tiles().to_multiset() == start.tiles().to_multiset().add(moved),
        tiles.to_multiset() == rest.to_multiset().add(moved),
    ensures
        next.tiles().to_multiset().add(rest.to_multiset()) == start.tiles().to_multiset().add(
            tiles.to_multiset(),
        ),
{
    assert(next.tiles().to_multiset().add(rest.to_multiset()) =~= start.tiles().to_multiset().add(
        tiles.to_multiset(),
    ));
}

/// A group that is no pair leaves the number of pairs as it was.
proof fn lemma_pairs_kept(start: HandArrangementView, group: Group)
    requires
        !(group is Pair) || !start.has_pair(),
        start.at_most_one_pair(),
    ensures
        start.with_group(group).at_most_one_pair(),
{
    let next = start.with_group(group);
    assert forall|i: int, j: int|
        0 <= i < next.groups.len() && 0 <= j < next.groups.len() && next.groups[i] is Pair
            && next.groups[j] is Pair implies i == j by {
        if i < start.groups.len() {
            assert(start.groups[i] is Pair);
        }
        if j < start.groups.len() {
            assert(start.groups[j] is Pair);
        }
    }
}

/// A group that is no quad brings no quad into the arrangement.
proof fn lemma_quads_kept(start: HandArrangementView, group: Group)
    requires
        !(group is Kan),
        !start.has_quad(),
    ensures
        !start.with_group(group).has_quad(),
{
    let next = start.with_group(group);
    assert forall|i: int| 0 <= i < next.groups.len() implies !(next.groups[i] is Kan) by {
        if i < start.groups.len() {
            assert(start.groups[i] == next.groups[i]);
        }
    }
}

/// A well-formed group that is neither a quad nor a second pair keeps the
/// wait, the form and the absence of quads of an arrangement.
proof fn lemma_group_keeps(start: HandArrangementView, group: Group)
    requires
        group.well_formed(),
        !(group is Kan),
        !(group is Pair) || !start.has_pair(),
    ensures
        start.with_group(group).wait == start.wait,
        start.well_formed() ==> start.with_group(group).well_formed(),
        !start.has_quad() ==> !start.with_group(group).has_quad(),
{
    let next = start.with_group(group);
    if !start.has_quad() {
        lemma_quads_kept(start, group);
    }
    if start.well_formed() {
        lemma_pairs_kept(start, group);
        assert forall|i: int| 0 <= i < next.groups.len() implies (#[trigger] next.groups[i]).well_formed() by {
            if i < start.groups.len() {
                assert(next.groups[i] == start.groups[i]);
            }
        }
    }
}

/// A well-formed wait keeps the form and the absence of quads of an
/// arrangement.
proof fn lemma_wait_keeps(start: HandArrangementView, wait: WaitView)
    requires
        wait.well_formed(),
    ensures
        start.well_formed() ==> start.with_wait(wait).well_formed(),
        !start.has_quad() ==> !start.with_wait(wait).has_quad(),
{
    let next = start.with_wait(wait);
    if start.well_formed() {
        assert forall|i: int, j: int|
            0 <= i < next.groups.len() && 0 <= j < next.groups.len() && next.groups[i] is Pair
                && next.groups[j] is Pair implies i == j by {
            assert(start.groups[i] is Pair && start.groups[j] is Pair);
        }
    }
}

/// The three rules that set a group aside keep the hand.
pub proof fn lemma_group_rules_keep(start: HandArrangementView, tiles: Seq<Tile>)
    ensures
        step_keeps(start, tiles, start.extract_pon(tiles)),
        step_keeps(start, tiles, start.extract_pair(tiles)),
        step_keeps(start, tiles, start.extract_chii(tiles)),
{
    lemma_rules_shorten(start, tiles);
    if let Some((next, rest)) = start.extract_pon(tiles) {
        let group = Group::Pon(tiles[0], tiles[1], tiles[2]);
        lemma_group_added(start, group);
        lemma_front_taken(tiles, 3);
        assert(tiles.take(3) =~= group.spec_tiles());
        lemma_tiles_moved(start, tiles, next, rest, group.spec_tiles().to_multiset());
        lemma_group_keeps(start, group);
    }
    if let Some((next, rest)) = start.extract_pair(tiles) {
        let group = Group::Pair(tiles[0], tiles[1]);
        lemma_group_added(start, group);
        lemma_front_taken(tiles, 2);
        assert(tiles.take(2) =~= group.spec_tiles());
        lemma_tiles_moved(start, tiles, next, rest, group.spec_tiles().to_multiset());
        lemma_group_keeps(start, group);
    }
    if let Some((next, rest)) = start.extract_chii(tiles) {
        lemma_end_of_run(tiles, 1, tiles[0].value());
        let j = end_of_run(tiles, 1, tiles[0].value());
        lemma_end_of_run(tiles, j + 1, tiles[j].value());
        let k = end_of_run(tiles, j + 1, tiles[j].value());
        let group = Group::Chii(tiles[0], tiles[j], tiles[k]);
        lemma_group_added(start, group);
        lemma_three_tiles(tiles[0], tiles[j], tiles[k]);
        let without_third = tiles.remove(k);
        let without_second = without_third.remove(j);
        lemma_one_taken(tiles, k);
        lemma_one_taken(without_third, j);
        lemma_one_taken(without_second, 0);
        assert(without_third[j] == tiles[j]);
        assert(without_second[0] == tiles[0]);
        assert(tiles.to_multiset() =~= rest.to_multiset().add(group.spec_tiles().to_multiset()));
        lemma_tiles_moved(start, tiles, next, rest, group.spec_tiles().to_multiset());
        lemma_group_keeps(start, group);
    }
}

/// The four rules that choose the wait keep the hand, for an arrangement
/// that has no wait yet.
pub proof fn lemma_wait_rules_keep(start: HandArrangementView, tiles: Seq<Tile>)
    requires
        start.wait is None,
    ensures
        step_keeps(start, tiles, start.extract_pon_wait(tiles)),
        step_keeps(start, tiles, start.extract_chii_side_wait(tiles)),
        step_keeps(start, tiles, start.extract_chii_middle_wait(tiles)),
        step_keeps(start, tiles, start.extract_pair_wait(tiles)),
{
    lemma_rules_shorten(start, tiles);
    if let Some((next, rest)) = start.extract_pon_wait(tiles) {
        let wait = next.wait->0;
        lemma_wait_added(start, wait);
        lemma_front_taken(tiles, 2);
        assert(tiles.take(2) =~= wait.tiles);
        lemma_tiles_moved(start, tiles, next, rest, wait.tiles.to_multiset());
        assert(wait.is_pon_wait());
        lemma_wait_keeps(start, wait);
    }
    if let Some((next, rest)) = start.extract_chii_side_wait(tiles) {
        let wait = next.wait->0;
        lemma_wait_added(start, wait);
        lemma_front_taken(tiles, 2);
        assert(tiles.take(2) =~= wait.tiles);
        lemma_tiles_moved(start, tiles, next, rest, wait.tiles.to_multiset());
        assert(wait.is_chii_side_wait());
        lemma_wait_keeps(start, wait);
    }
    if let Some((next, rest)) = start.extract_chii_middle_wait(tiles) {
        let wait = next.wait->0;
        let between = tiles[0].spec_next()->0;
        let third = between.spec_next()->0;
        lemma_end_of_lower(tiles, 1, third);
        let i = end_of_lower(tiles, 1, third);
        lemma_wait_added(start, wait);
        lemma_two_tiles(tiles[0], tiles[i]);
        let without_third = tiles.remove(i);
        lemma_one_taken(tiles, i);
        lemma_one_taken(without_third, 0);
        assert(without_third[0] == tiles[0]);
        assert(tiles.to_multiset() =~= rest.to_multiset().add(wait.tiles.to_multiset()));
        lemma_tiles_moved(start, tiles, next, rest, wait.tiles.to_multiset());
        assert(wait.is_chii_middle_wait());
        lemma_wait_keeps(start, wait);
    }
    if let Some((next, rest)) = start.extract_pair_wait(tiles) {
        let wait = next.wait->0;
        lemma_wait_added(start, wait);
        lemma_front_taken(tiles, 1);
        assert(tiles.take(1) =~= wait.tiles);
        lemma_tiles_moved(start, tiles, next, rest, wait.tiles.to_multiset());
        assert(wait.is_pair_wait());
        lemma_wait_keeps(start, wait);
    }
}

/// All of `found` are complete arrangements of the hand of `start` and
/// `tiles`.
pub open spec fn all_arrange(
    found: Seq<HandArrangementView>,
    start: HandArrangementView,
    tiles: Seq<Tile>,
) -> bool {
    forall|i: int| 0 <= i < found.len() ==> (#[trigger] found[i]).arranges(start, tiles)
}

/// What holds of all of two runs of results holds of all of them in a row.
proof fn lemma_all_arrange_joined(
    first: Seq<HandArrangementView>,
    second: Seq<HandArrangementView>,
    start: HandArrangementView,
    tiles: Seq<Tile>,
)
    requires
        all_arrange(first, start, tiles),
        all_arrange(second, start, tiles),
    ensures
        all_arrange(first + second, start, tiles),
{
    assert forall|i: int| 0 <= i < (first + second).len() implies (#[trigger] (first + second)[i]).arranges(
        start,
        tiles,
    ) by {
        if i < first.len() {
            assert((first + second)[i] == first[i]);
        } else {
            assert((first + second)[i] == second[i - first.len()]);
        }
    }
}

/// Every result of the search after a step that keeps the hand is a
/// complete arrangement of the hand before the step.
proof fn lemma_explore_arranges(start: HandArrangementView, tiles: Seq<Tile>, step: Step)
    requires
        step_keeps(start, tiles, step),
    ensures
        all_arrange(explore(step), start, tiles),
    decreases tiles.len(), 0int,
{
    if let Some((next, rest)) = step {
        lemma_consume_arranges(next, rest);
        assert(explore(step) == next.consume(rest));
        assert forall|i: int| 0 <= i < explore(step).len() implies (#[trigger] explore(
            step,
        )[i]).arranges(start, tiles) by {
            let result = explore(step)[i];
            assert(result.arranges(next, rest));
            assert(result.tiles().to_multiset() =~= start.tiles().to_multiset().add(
                tiles.to_multiset(),
            ));
        }
    }
}

/// Every arrangement that the search returns is a complete arrangement of
/// the hand that it started from: it has a wait, it holds the tiles of the
/// arrangement it started from and the loose tiles, each as often as it was
/// there, and it is well formed, with at most one pair, if the search
/// started from a well-formed arrangement.
pub proof fn lemma_consume_arranges(start: HandArrangementView, tiles: Seq<Tile>)
    ensures
        all_arrange(start.consume(tiles), start, tiles),
    decreases tiles.len(), 1int,
{
    if tiles.len() == 0 {
        assert(tiles.to_multiset().len() == 0) by {
            vstd::seq_lib::to_multiset_len(tiles);
        }
        assert(start.tiles().to_multiset() =~= start.tiles().to_multiset().add(tiles.to_multiset()));
    } else {
        let pon = explore(start.extract_pon(tiles));
        let pair = explore(start.extract_pair(tiles));
        let chii = explore(start.extract_chii(tiles));
        lemma_group_rules_keep(start, tiles);
        lemma_explore_arranges(start, tiles, start.extract_pon(tiles));
        lemma_explore_arranges(start, tiles, start.extract_pair(tiles));
        lemma_explore_arranges(start, tiles, start.extract_chii(tiles));
        lemma_all_arrange_joined(pon, pair, start, tiles);
        lemma_all_arrange_joined(pon + pair, chii, start, tiles);
        if start.wait is None {
            let pon_wait = explore(start.extract_pon_wait(tiles));
            let side_wait = explore(start.extract_chii_side_wait(tiles));
            let middle_wait = explore(start.extract_chii_middle_wait(tiles));
            let pair_wait = explore(start.extract_pair_wait(tiles));
            lemma_wait_rules_keep(start, tiles);
            lemma_explore_arranges(start, tiles, start.extract_pon_wait(tiles));
            lemma_explore_arranges(start, tiles, start.extract_chii_side_wait(tiles));
            lemma_explore_arranges(start, tiles, start.extract_chii_middle_wait(tiles));
            lemma_explore_arranges(start, tiles, start.extract_pair_wait(tiles));
            let with_groups = pon + pair + chii;
            lemma_all_arrange_joined(with_groups, pon_wait, start, tiles);
            lemma_all_arrange_joined(with_groups + pon_wait, side_wait, start, tiles);
            lemma_all_arrange_joined(with_groups + pon_wait + side_wait, middle_wait, start, tiles);
            lemma_all_arrange_joined(
                with_groups + pon_wait + side_wait + middle_wait,
                pair_wait,
                start,
                tiles,
            );
        }
    }
}

/// Every arrangement found for a hand has exactly the tiles of the hand,
/// each as often as the hand has it, exactly one wait, well-formed groups
/// with at most one pair among them, and no quad.
pub proof fn lemma_find_waits_arranges(tiles: Seq<Tile>)
    ensures
        forall|i: int|
            0 <= i < spec_find_waits(tiles).len() ==> {
                let found = #[trigger] spec_find_waits(tiles)[i];
                &&& found.wait is Some
                &&& found.tiles().to_multiset() == tiles.to_multiset()
                &&& found.well_formed()
                &&& found.at_most_one_pair()
                &&& !found.has_quad()
            },
{
    let start = HandArrangementView::empty();
    lemma_consume_arranges(start, tiles);
    assert(start.tiles() =~= Seq::<Tile>::empty());
    assert(start.tiles().to_multiset().len() == 0) by {
        vstd::seq_lib::to_multiset_len(start.tiles());
    }
    assert(start.tiles().to_multiset().add(tiles.to_multiset()) =~= tiles.to_multiset());
}

/// The step of a rule leads to an arrangement with a pair.
pub open spec fn leads_to_pair(step: Step) -> bool {
    step matches Some((next, _)) ==> next.has_pair()
}

/// The pair of a hand is taken once: an arrangement that has a pair accepts
/// neither the pair rule nor the pair wait, whatever the tiles, and every
/// other rule leads to an arrangement that has a pair again.
pub proof fn lemma_pair_is_taken_once(start: HandArrangementView, tiles: Seq<Tile>)
    requires
        start.has_pair(),
    ensures
        start.extract_pair(tiles) is None,
        start.extract_pair_wait(tiles) is None,
        leads_to_pair(start.extract_pon(tiles)),
        leads_to_pair(start.extract_chii(tiles)),
        leads_to_pair(start.extract_pon_wait(tiles)),
        leads_to_pair(start.extract_chii_side_wait(tiles)),
        leads_to_pair(start.extract_chii_middle_wait(tiles)),
{
    let i = choose|i: int| 0 <= i < start.groups.len() && start.groups[i] is Pair;
    if let Some((next, _)) = start.extract_pon(tiles) {
        assert(next.groups[i] is Pair);
    }
    if let Some((next, _)) = start.extract_chii(tiles) {
        assert(next.groups[i] is Pair);
    }
    if let Some((next, _)) = start.extract_pon_wait(tiles) {
        assert(next.groups[i] is Pair);
    }
    if let Some((next, _)) = start.extract_chii_side_wait(tiles) {
        assert(next.groups[i] is Pair);
    }
    if let Some((next, _)) = start.extract_chii_middle_wait(tiles) {
        assert(next.groups[i] is Pair);
    }
}

/// In an ascending hand the tiles of one value stand side by side: a tile
/// between two tiles of one value has that value too.
pub proof fn lemma_ascending_values_are_contiguous(tiles: Seq<Tile>, low: int, mid: int, high: int)
    requires
        is_ascending(tiles),
        0 <= low <= mid <= high < tiles.len(),
        tiles[low].value() == tiles[high].value(),
    ensures
        tiles[mid].value() == tiles[low].value(),
{
    lemma_precedes_is_a_strict_total_order(
        tiles[low].value(),
        tiles[mid].value(),
        tiles[high].value(),
    );
}

/// In an ascending hand the triplet rule applies exactly when two more
/// tiles have the value of the first tile, wherever they stand.
pub proof fn lemma_pon_finds_every_triplet(start: HandArrangementView, tiles: Seq<Tile>)
    requires
        is_ascending(tiles),
    ensures
        start.extract_pon(tiles) is Some <==> exists|i: int, j: int|
            0 < i < j < tiles.len() && (#[trigger] tiles[i]).value() == tiles[0].value()
                && (#[trigger] tiles[j]).value() == tiles[0].value(),
{
    if start.extract_pon(tiles) is Some {
        assert(tiles[1].value() == tiles[0].value() && tiles[2].value() == tiles[0].value());
    }
    if exists|i: int, j: int|
        0 < i < j < tiles.len() && (#[trigger] tiles[i]).value() == tiles[0].value()
            && (#[trigger] tiles[j]).value() == tiles[0].value() {
        let (i, j) = choose|i: int, j: int|
            0 < i < j < tiles.len() && (#[trigger] tiles[i]).value() == tiles[0].value()
                && (#[trigger] tiles[j]).value() == tiles[0].value();
        lemma_ascending_values_are_contiguous(tiles, 0, 1, j);
        lemma_ascending_values_are_contiguous(tiles, 0, 2, j);
    }
}

/// In an ascending hand the pair rule and the triplet wait apply exactly
/// when another tile has the value of the first tile, wherever it stands;
/// the pair rule only while the arrangement has no pair.
pub proof fn lemma_pair_finds_every_pair(start: HandArrangementView, tiles: Seq<Tile>)
    requires
        is_ascending(tiles),
    ensures
        start.extract_pon_wait(tiles) is Some <==> exists|i: int|
            0 < i < tiles.len() && (#[trigger] tiles[i]).value() == tiles[0].value(),
        start.extract_pair(tiles) is Some <==> !start.has_pair() && exists|i: int|
            0 < i < tiles.len() && (#[trigger] tiles[i]).value() == tiles[0].value(),
{
    if start.extract_pon_wait(tiles) is Some {
        assert(tiles[1].value() == tiles[0].value());
    }
    if exists|i: int| 0 < i < tiles.len() && (#[trigger] tiles[i]).value() == tiles[0].value() {
        let i = choose|i: int|
            0 < i < tiles.len() && (#[trigger] tiles[i]).value() == tiles[0].value();
        lemma_ascending_values_are_contiguous(tiles, 0, 1, i);
    }
}

/// In an ascending hand the sequence rule applies exactly when the hand
/// holds, wherever they stand, a tile that directly follows the first tile
/// and a tile that directly follows that one.
pub proof fn lemma_chii_finds_every_run(start: HandArrangementView, tiles: Seq<Tile>)
    requires
        is_ascending(tiles),
    ensures
        start.extract_chii(tiles) is Some <==> exists|j: int, k: int|
            0 < j < tiles.len() && 0 < k < tiles.len() && tiles[0].spec_followed_by(
                #[trigger] tiles[j],
            ) && tiles[j].spec_followed_by(#[trigger] tiles[k]),
{
    if tiles.len() > 0 {
        let first = tiles[0].value();
        lemma_end_of_run(tiles, 1, first);
        let j0 = end_of_run(tiles, 1, first);
        if start.extract_chii(tiles) is Some {
            lemma_end_of_run(tiles, j0 + 1, tiles[j0].value());
            let k0 = end_of_run(tiles, j0 + 1, tiles[j0].value());
            assert(tiles[0].spec_followed_by(tiles[j0]) && tiles[j0].spec_followed_by(tiles[k0]));
        }
        if exists|j: int, k: int|
            0 < j < tiles.len() && 0 < k < tiles.len() && tiles[0].spec_followed_by(
                #[trigger] tiles[j],
            ) && tiles[j].spec_followed_by(#[trigger] tiles[k]) {
            let (j, k) = choose|j: int, k: int|
                0 < j < tiles.len() && 0 < k < tiles.len() && tiles[0].spec_followed_by(
                    #[trigger] tiles[j],
                ) && tiles[j].spec_followed_by(#[trigger] tiles[k]);
            let second = tiles[j].value();
            let third = tiles[k].value();
            lemma_followed_by_is_the_next_in_order(first, second, first);
            assert(j0 <= j) by {
                if j < j0 {
                    assert(tiles[j].value() == first);
                }
            }
            let at_j0 = tiles[j0].value();
            assert(!tiles[j0].value().precedes(tiles[0].value()));
            assert(!tiles[j].value().precedes(tiles[j0].value()));
            lemma_followed_by_is_the_next_in_order(first, second, at_j0);
            lemma_precedes_is_a_strict_total_order(first, at_j0, second);
            assert(at_j0 == second);

            lemma_end_of_run(tiles, j0 + 1, second);
            let k0 = end_of_run(tiles, j0 + 1, second);
            lemma_followed_by_is_the_next_in_order(second, third, second);
            assert(j0 < k) by {
                if k <= j0 {
                    assert(!tiles[j0].value().precedes(tiles[k].value()));
                }
            }
            assert(k0 <= k) by {
                if k < k0 {
                    assert(tiles[k].value() == second);
                }
            }
            let at_k0 = tiles[k0].value();
            assert(!tiles[k0].value().precedes(tiles[j0].value()));
            assert(!tiles[k].value().precedes(tiles[k0].value()));
            lemma_followed_by_is_the_next_in_order(second, third, at_k0);
            lemma_precedes_is_a_strict_total_order(second, at_k0, third);
            assert(at_k0 == third);
            assert(tiles[0].spec_followed_by(tiles[j0]));
            assert(tiles[j0].spec_followed_by(tiles[k0]));
        }
    }
}

/// The value of `high` is two numbers above that of `low` in its suit.
pub open spec fn is_two_above(low: Tile, high: Tile) -> bool {
    low.spec_next() matches Some(between) && between.spec_next() == Some(high.value())
}

/// In an ascending hand the middle wait applies exactly when the hand
/// holds, wherever it stands, a tile two numbers above the first tile.
pub proof fn lemma_middle_wait_finds_every_gap(start: HandArrangementView, tiles: Seq<Tile>)
    requires
        is_ascending(tiles),
    ensures
        start.extract_chii_middle_wait(tiles) is Some <==> tiles.len() > 0 && exists|i: int|
            0 < i < tiles.len() && is_two_above(tiles[0], #[trigger] tiles[i]),
{
    if tiles.len() > 0 {
        if let Some(between) = tiles[0].spec_next() {
            if let Some(third) = between.spec_next() {
                lemma_end_of_lower(tiles, 1, third);
                let i0 = end_of_lower(tiles, 1, third);
                if start.extract_chii_middle_wait(tiles) is Some {
                    assert(is_two_above(tiles[0], tiles[i0]));
                }
                if exists|i: int| 0 < i < tiles.len() && is_two_above(tiles[0], #[trigger] tiles[i]) {
                    let i = choose|i: int|
                        0 < i < tiles.len() && is_two_above(tiles[0], #[trigger] tiles[i]);
                    assert(tiles[i].value() == third);
                    lemma_precedes_is_a_strict_total_order(third, third, third);
                    assert(i0 <= i) by {
                        if i < i0 {
                            assert(tiles[i].value().precedes(third));
                        }
                    }
                    assert(!tiles[i].value().precedes(tiles[i0].value()));
                    lemma_precedes_is_a_strict_total_order(third, tiles[i0].value(), third);
                    assert(tiles[i0].value() == third);
                }
            }
        }
    }
}

} // verus!
