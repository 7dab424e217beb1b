use riichi::game::wind::Wind;
use riichi::tile::dragon::Dragon;
use riichi::tile::honor::HonorTile;
use riichi::tile::suit::{InvalidTileValue, Suit, SuitedTile};
use riichi::tile::tile_value::TileValue;
use riichi::tile::Tile;

fn suited(suit: Suit, value: u8) -> TileValue {
    TileValue::new_suited(suit, value).unwrap()
}

fn every_value() -> Vec<TileValue> {
    let mut values = Vec::new();
    for suit in [Suit::Man, Suit::Pin, Suit::Sou] {
        for value in 1..=9 {
            values.push(suited(suit, value));
        }
    }
    for wind in [Wind::East, Wind::South, Wind::West, Wind::North] {
        values.push(TileValue::new_wind(wind));
    }
    for dragon in [Dragon::White, Dragon::Red, Dragon::Green] {
        values.push(TileValue::new_dragon(dragon));
    }
    values
}

#[test]
fn suited_tile_accepts_one_to_nine_only() {
    for value in 0..=255u8 {
        let made = SuitedTile::new(Suit::Pin, value);
        if (1..=9).contains(&value) {
            let tile = made.unwrap();
            assert_eq!(tile.value(), value);
            assert_eq!(tile.suit(), Suit::Pin);
            assert!(tile.is_valid());
        } else {
            assert_eq!(made, Err(InvalidTileValue { value }));
        }
    }
}

#[test]
fn every_suited_constructor_reports_the_rejected_number() {
    assert_eq!(SuitedTile::new(Suit::Man, 10), Err(InvalidTileValue { value: 10 }));
    assert_eq!(TileValue::new_suited(Suit::Sou, 0), Err(InvalidTileValue { value: 0 }));
    assert_eq!(Tile::new_suited(Suit::Pin, 200, 1), Err(InvalidTileValue { value: 200 }));
    let nine = Tile::new_suited(Suit::Pin, 9, 3).unwrap();
    assert_eq!(nine.number(), Some(9));
    assert_eq!(nine.id(), 3);
    assert_eq!(nine.value(), suited(Suit::Pin, 9));
}

#[test]
fn terminal_and_simple_split_the_numbers() {
    for value in 1..=9u8 {
        let tile = SuitedTile::new(Suit::Sou, value).unwrap();
        assert_eq!(tile.is_terminal(), value == 1 || value == 9);
        assert_eq!(tile.is_simple(), !tile.is_terminal());
    }
}

#[test]
fn next_and_prev_stop_at_the_ends() {
    for suit in [Suit::Man, Suit::Pin, Suit::Sou] {
        for value in 1..=9u8 {
            let tile = SuitedTile::new(suit, value).unwrap();
            let next = tile.next();
            let prev = tile.prev();
            if value == 9 {
                assert_eq!(next, None);
            } else {
                assert_eq!(next, Some(SuitedTile::new(suit, value + 1).unwrap()));
                assert_eq!(next.unwrap().prev(), Some(tile));
            }
            if value == 1 {
                assert_eq!(prev, None);
            } else {
                assert_eq!(prev, Some(SuitedTile::new(suit, value - 1).unwrap()));
                assert_eq!(prev.unwrap().next(), Some(tile));
            }
            assert_eq!(TileValue::from_suited(tile).next(), next.map(TileValue::Suited));
            assert_eq!(TileValue::from_suited(tile).prev(), prev.map(TileValue::Suited));
        }
    }
}

#[test]
fn honors_have_no_neighbours_and_no_number() {
    for wind in [Wind::East, Wind::South, Wind::West, Wind::North] {
        let tile = Tile::new_wind(wind, 0);
        assert_eq!(tile.value(), TileValue::from_honor(HonorTile::Wind(wind)));
        assert_eq!(tile.next(), None);
        assert_eq!(tile.prev(), None);
        assert_eq!(tile.number(), None);
    }
    for dragon in [Dragon::White, Dragon::Red, Dragon::Green] {
        let tile = Tile::new_dragon(dragon, 2);
        assert_eq!(tile.value(), TileValue::from_honor(HonorTile::Dragon(dragon)));
        assert_eq!(tile.next(), None);
        assert_eq!(tile.prev(), None);
        assert_eq!(tile.number(), None);
        assert_eq!(tile.id(), 2);
    }
}

#[test]
fn next_dora_of_suited_values() {
    assert_eq!(suited(Suit::Man, 3).next_dora(), suited(Suit::Man, 4));
    assert_eq!(suited(Suit::Sou, 9).next_dora(), suited(Suit::Sou, 1));
    for suit in [Suit::Man, Suit::Pin, Suit::Sou] {
        for value in 1..=9u8 {
            let expected = if value == 9 { 1 } else { value + 1 };
            assert_eq!(suited(suit, value).next_dora(), suited(suit, expected));
            assert_eq!(Tile::new_suited(suit, value, 1).unwrap().next_dora(), suited(suit, expected));
        }
    }
}

#[test]
fn next_dora_of_honors_goes_in_circles() {
    assert_eq!(Dragon::White.next_dora(), Dragon::Red);
    assert_eq!(Dragon::Red.next_dora(), Dragon::Green);
    assert_eq!(Dragon::Green.next_dora(), Dragon::White);
    assert_eq!(Wind::East.next_dora(), Wind::South);
    assert_eq!(Wind::South.next_dora(), Wind::West);
    assert_eq!(Wind::West.next_dora(), Wind::North);
    assert_eq!(Wind::North.next_dora(), Wind::East);
    assert_eq!(
        TileValue::new_dragon(Dragon::White).next_dora(),
        TileValue::new_dragon(Dragon::Red)
    );
    assert_eq!(TileValue::new_wind(Wind::South).next_dora(), TileValue::new_wind(Wind::West));
    assert_eq!(TileValue::new_wind(Wind::North).next_dora(), TileValue::new_wind(Wind::East));
    assert_eq!(
        HonorTile::Dragon(Dragon::Green).next_dora(),
        HonorTile::Dragon(Dragon::White)
    );
    assert_eq!(Tile::new_wind(Wind::West, 0).next_dora(), TileValue::new_wind(Wind::North));
}

#[test]
fn wind_next_ends_at_north() {
    assert_eq!(Wind::East.next(), Some(Wind::South));
    assert_eq!(Wind::South.next(), Some(Wind::West));
    assert_eq!(Wind::West.next(), Some(Wind::North));
    assert_eq!(Wind::North.next(), None);
}

#[test]
fn followed_by_needs_one_suit_and_the_next_number() {
    assert!(suited(Suit::Man, 3).followed_by(suited(Suit::Man, 4)));
    assert!(!suited(Suit::Pin, 9).followed_by(suited(Suit::Pin, 1)));
    assert!(!suited(Suit::Pin, 9).followed_by(suited(Suit::Sou, 1)));
    assert!(!suited(Suit::Man, 4).followed_by(suited(Suit::Man, 3)));
    assert!(!suited(Suit::Man, 3).followed_by(suited(Suit::Man, 3)));
    assert!(!suited(Suit::Man, 3).followed_by(suited(Suit::Man, 5)));
    assert!(!suited(Suit::Man, 3).followed_by(suited(Suit::Pin, 4)));
    assert!(!suited(Suit::Man, 3).followed_by(TileValue::new_wind(Wind::East)));
    assert!(!TileValue::new_wind(Wind::East).followed_by(TileValue::new_wind(Wind::South)));
    assert!(!TileValue::new_dragon(Dragon::White).followed_by(suited(Suit::Man, 1)));
    let three = Tile::new_suited(Suit::Man, 3, 0).unwrap();
    let four = Tile::new_suited(Suit::Man, 4, 2).unwrap();
    assert!(three.followed_by(four));
    assert!(!four.followed_by(three));
    for a in every_value() {
        for b in every_value() {
            assert_eq!(a.followed_by(b), a.next() == Some(b));
        }
    }
}

#[test]
fn values_are_ordered_as_declared() {
    assert!(Suit::Man < Suit::Pin && Suit::Pin < Suit::Sou);
    assert!(Wind::East < Wind::South && Wind::South < Wind::West && Wind::West < Wind::North);
    assert!(Dragon::White < Dragon::Red && Dragon::Red < Dragon::Green);
    assert!(HonorTile::Wind(Wind::North) < HonorTile::Dragon(Dragon::White));
    assert!(suited(Suit::Sou, 9) < TileValue::new_wind(Wind::East));
    assert!(suited(Suit::Man, 9) < suited(Suit::Pin, 1));
    assert!(suited(Suit::Pin, 4) < suited(Suit::Pin, 5));
    let values = every_value();
    assert_eq!(values.len(), 34);
    for (i, a) in values.iter().enumerate() {
        for (j, b) in values.iter().enumerate() {
            assert_eq!(a < b, i < j);
            assert_eq!(a == b, i == j);
            assert_eq!(a > b, i > j);
            assert_eq!(a <= b, i <= j);
            assert_eq!(a.partial_cmp(b), Some(i.cmp(&j)));
            assert_eq!(a.cmp(b), i.cmp(&j));
        }
    }
}

#[test]
fn tiles_are_ordered_by_value_then_copy() {
    let mut tiles = Vec::new();
    for value in every_value() {
        for id in 0..4u8 {
            tiles.push(Tile::new(value, id));
        }
    }
    assert_eq!(tiles.len(), 136);
    for (i, a) in tiles.iter().enumerate() {
        for (j, b) in tiles.iter().enumerate() {
            assert_eq!(a.partial_cmp(b), Some(i.cmp(&j)));
            assert_eq!(a.cmp(b), i.cmp(&j));
            assert_eq!(a < b, i < j);
        }
    }
    let mut shuffled: Vec<Tile> = tiles.iter().rev().copied().collect();
    shuffled.sort();
    assert_eq!(shuffled, tiles);
}

#[test]
fn suited_tiles_are_written_with_number_and_suit() {
    assert_eq!(SuitedTile::new(Suit::Pin, 1).unwrap().to_string(), "1 Pin");
    assert_eq!(SuitedTile::new(Suit::Man, 9).unwrap().to_string(), "9 Man");
    assert_eq!(Suit::Sou.name(), "Sou");
}
