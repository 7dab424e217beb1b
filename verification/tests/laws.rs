use riichi::game::wind::Wind;
use riichi::hand::group::Group;
use riichi::hand::hand_arrangement::{find_waits, HandArrangement};
use riichi::tile::dragon::Dragon;
use riichi::tile::suit::Suit;
use riichi::tile::tile_value::TileValue;
use riichi::tile::Tile;

fn tile(suit: Suit, value: u8, id: u8) -> Tile {
    Tile::new_suited(suit, value, id).unwrap()
}

fn hands() -> Vec<Vec<Tile>> {
    let m = |v, id| tile(Suit::Man, v, id);
    let p = |v, id| tile(Suit::Pin, v, id);
    let s = |v, id| tile(Suit::Sou, v, id);
    let w = |id| Tile::new_dragon(Dragon::White, id);
    let e = |id| Tile::new_wind(Wind::East, id);
    vec![
        vec![],
        vec![w(0)],
        vec![w(0), w(1)],
        vec![m(1, 0), m(2, 0)],
        vec![m(1, 0), m(1, 1), m(2, 0), m(3, 0)],
        vec![m(3, 0), m(3, 1), m(3, 2), w(0), w(1)],
        vec![m(3, 0), m(4, 0), m(4, 1), m(4, 2), m(5, 0), w(0), w(1)],
        vec![m(1, 0), m(1, 1), m(1, 2), m(2, 0), m(3, 0), m(4, 0), m(5, 0), m(6, 0), m(7, 0), m(8, 0),
            m(9, 0), m(9, 1), m(9, 2)],
        vec![m(2, 0), m(3, 0), m(4, 0), p(2, 0), p(3, 0), p(4, 0), s(2, 0), s(3, 0), s(4, 0), e(0),
            e(1), w(0), w(1)],
        vec![m(3, 0), m(4, 0), p(4, 0), p(5, 0), p(5, 1), p(5, 2), p(6, 0), p(6, 1), p(7, 0), p(8, 0),
            s(3, 0), s(4, 0), s(5, 0)],
        vec![m(1, 0), m(9, 0), p(1, 0), p(9, 0), s(1, 0), s(9, 0), e(0), w(0)],
    ]
}

fn tiles_of(arrangement: &HandArrangement) -> Vec<Tile> {
    let mut tiles = Vec::new();
    for group in arrangement.groups().iter() {
        for member in group.tiles() {
            tiles.push(*member);
        }
    }
    if let Some(wait) = arrangement.wait() {
        tiles.extend(wait.tiles().iter().copied());
    }
    tiles
}

fn group_fits_its_shape(group: &Group) -> bool {
    match group {
        Group::Pair(x, y) => x.value() == y.value(),
        Group::Pon(x, y, z) => x.value() == y.value() && y.value() == z.value(),
        Group::Chii(x, y, z) => x.followed_by(*y) && y.followed_by(*z),
        Group::Kan(..) => false,
    }
}

#[test]
fn every_result_holds_exactly_the_tiles_of_the_hand() {
    for hand in hands() {
        for arrangement in find_waits(&hand) {
            let mut held = tiles_of(&arrangement);
            held.sort();
            let mut given = hand.clone();
            given.sort();
            assert_eq!(held, given);
        }
    }
}

#[test]
fn every_result_has_one_wait_and_at_most_one_pair() {
    for hand in hands() {
        for arrangement in find_waits(&hand) {
            let wait = arrangement.wait().as_ref().unwrap();
            assert!(wait.tiles().len() == 1 || wait.tiles().len() == 2);
            assert!(wait.wait_symbols().len() == 1 || wait.wait_symbols().len() == 2);
            let pairs =
                arrangement.groups().iter().filter(|g| matches!(g, Group::Pair(..))).count();
            assert!(pairs <= 1);
        }
    }
}

#[test]
fn every_group_of_a_result_fits_its_shape() {
    for hand in hands() {
        for arrangement in find_waits(&hand) {
            for group in arrangement.groups().iter() {
                assert!(group_fits_its_shape(group));
            }
        }
    }
}

#[test]
fn every_wait_is_completed_by_its_values() {
    for hand in hands() {
        for arrangement in find_waits(&hand) {
            let wait = arrangement.wait().as_ref().unwrap();
            let held: Vec<TileValue> = wait.tiles().iter().map(|t| t.value()).collect();
            for value in wait.wait_symbols().iter() {
                let mut all = held.clone();
                all.push(*value);
                all.sort();
                let same = all.iter().all(|v| *v == all[0]);
                let run = all.len() == 3 && all[0].followed_by(all[1]) && all[1].followed_by(all[2]);
                assert!(same && all.len() >= 2 || run);
            }
        }
    }
}

#[test]
fn the_same_hand_gives_the_same_results() {
    for hand in hands() {
        assert_eq!(find_waits(&hand), find_waits(&hand));
        assert_eq!(find_waits(&hand), HandArrangement::empty().consume(&hand));
    }
}

#[test]
fn results_that_are_alike_are_all_kept() {
    let m = |v, id| tile(Suit::Man, v, id);
    let hand = vec![m(1, 0), m(1, 1), m(2, 0), m(3, 0)];
    let found = find_waits(&hand);
    assert_eq!(found.len(), 3);
    assert_eq!(found[0].groups, vec![Group::Pair(m(1, 0), m(1, 1))]);
    assert_eq!(found[1].groups, vec![Group::Chii(m(1, 0), m(2, 0), m(3, 0))]);
    assert_eq!(found[1].wait.as_ref().unwrap().tiles(), &vec![m(1, 1)]);
    assert_eq!(found[2].groups, vec![Group::Chii(m(1, 1), m(2, 0), m(3, 0))]);
    assert_eq!(found[2].wait.as_ref().unwrap().tiles(), &vec![m(1, 0)]);
}

#[test]
fn tanki_wait() {
    let white = Tile::new_dragon(Dragon::White, 0);
    let found = find_waits(&vec![white]);
    assert_eq!(found.len(), 1);
    assert!(found[0].groups().is_empty());
    let wait = found[0].wait().as_ref().unwrap();
    assert_eq!(wait.tiles(), &vec![white]);
    assert_eq!(wait.wait_symbols(), &vec![TileValue::new_dragon(Dragon::White)]);
}

#[test]
fn triplet_wait() {
    let first = Tile::new_dragon(Dragon::White, 0);
    let second = Tile::new_dragon(Dragon::White, 1);
    let found = find_waits(&vec![first, second]);
    assert_eq!(found.len(), 1);
    assert!(found[0].groups().is_empty());
    let wait = found[0].wait().as_ref().unwrap();
    assert_eq!(wait.tiles(), &vec![first, second]);
    assert_eq!(wait.wait_symbols(), &vec![TileValue::new_dragon(Dragon::White)]);
}

#[test]
fn nine_gates_waits_in_many_ways() {
    let hand = hands()[7].clone();
    let found = find_waits(&hand);
    assert!(!found.is_empty());
    let mut waited: Vec<TileValue> = Vec::new();
    for arrangement in found.iter() {
        for value in arrangement.wait().as_ref().unwrap().wait_symbols().iter() {
            if !waited.contains(value) {
                waited.push(*value);
            }
        }
    }
    waited.sort();
    let all: Vec<TileValue> =
        (1..=9).map(|v| TileValue::new_suited(Suit::Man, v).unwrap()).collect();
    assert_eq!(waited, all);
}

#[test]
fn a_hand_without_a_shape_gives_nothing() {
    assert_eq!(find_waits(&hands()[10]).len(), 0);
    assert_eq!(find_waits(&vec![]).len(), 0);
}
