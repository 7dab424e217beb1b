use riichi::game::wind::Wind::{East, North, South, West};
use riichi::tile::dragon::Dragon::{Red, White};
use riichi::tile::suit::Suit::{Man, Sou};
use riichi::tile::tile_value::TileValue;

#[test]
fn tile_value_test_next_dora() {
    assert_eq!(
        TileValue::new_suited(Man, 4).unwrap(),
        TileValue::new_suited(Man, 3).unwrap().next_dora()
    );
    assert_eq!(TileValue::new_dragon(Red), TileValue::new_dragon(White).next_dora());
    assert_eq!(TileValue::new_wind(West), TileValue::new_wind(South).next_dora());

    assert_eq!(
        TileValue::new_suited(Sou, 1).unwrap(),
        TileValue::new_suited(Sou, 9).unwrap().next_dora()
    );
    assert_eq!(TileValue::new_wind(East), TileValue::new_wind(North).next_dora())
}
