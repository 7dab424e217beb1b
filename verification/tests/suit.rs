use riichi::tile::suit::Suit::{Man, Pin, Sou};
use riichi::tile::suit::{InvalidTileValue, SuitedTile};

#[test]
fn test_valid_tile() {
    let four_pin = SuitedTile::new(Pin, 4).unwrap();
    assert!(four_pin.is_valid());
}

#[test]
fn test_invalid_tile() {
    let not_valid = SuitedTile::new(Man, 12);
    assert!(!not_valid.is_ok_and(|tile| tile.is_valid()));
    assert_eq!(not_valid, Err(InvalidTileValue { value: 12 }));
    let not_valid_neither = SuitedTile::new(Sou, 0);
    assert!(!not_valid_neither.is_ok_and(|tile| tile.is_valid()));
    assert_eq!(not_valid_neither, Err(InvalidTileValue { value: 0 }));
}

#[test]
fn test_suit_display() {
    let three_man = SuitedTile::new(Man, 3).unwrap();
    assert_eq!("3 Man", three_man.to_string());

    let eight_sou = SuitedTile::new(Sou, 8).unwrap();
    assert_eq!("8 Sou", eight_sou.to_string());
}

#[test]
fn test_suit_order() {
    let three_man = SuitedTile::new(Man, 3).unwrap();
    let four_man = SuitedTile::new(Man, 4).unwrap();
    let two_pin = SuitedTile::new(Pin, 2).unwrap();
    let eight_sou = SuitedTile::new(Sou, 8).unwrap();
    assert!(three_man < four_man);
    assert!(four_man > three_man);
    assert!(four_man < two_pin);
    assert!(eight_sou > two_pin);
}

#[test]
fn test_next() {
    let three_man = SuitedTile::new(Man, 3).unwrap();
    let four_man = SuitedTile::new(Man, 4).unwrap();

    let nine_pin = SuitedTile::new(Pin, 9).unwrap();

    assert_eq!(four_man, three_man.next().unwrap());
    assert_eq!(None, nine_pin.next());
}

#[test]
fn test_followed_by() {
    let three_man = SuitedTile::new(Man, 3).unwrap();
    let four_man = SuitedTile::new(Man, 4).unwrap();

    let one_pin = SuitedTile::new(Pin, 1).unwrap();
    let nine_pin = SuitedTile::new(Pin, 9).unwrap();
    let one_sou = SuitedTile::new(Sou, 1).unwrap();

    assert!(three_man.followed_by(four_man));
    assert!(!nine_pin.followed_by(one_pin));
    assert!(!nine_pin.followed_by(one_sou));
}

#[test]
fn suit_test_next_dora() {
    let three_man = SuitedTile::new(Man, 3).unwrap();
    let four_man = SuitedTile::new(Man, 4).unwrap();

    let one_pin = SuitedTile::new(Pin, 1).unwrap();
    let nine_pin = SuitedTile::new(Pin, 9).unwrap();

    assert_eq!(four_man, three_man.next_dora());
    assert_eq!(one_pin, nine_pin.next_dora());
}
