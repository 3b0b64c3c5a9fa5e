use monopoly_core::board::{Board, Tile};
use monopoly_core::dice::DiceRoll;

#[test]
fn dice_roll_faces_are_one_to_six() {
    for _ in 0..200 {
        let r = DiceRoll::roll();
        assert!((1..=6).contains(&r.die1));
        assert!((1..=6).contains(&r.die2));
        assert!((2..=12).contains(&r.total()));
    }
}

#[test]
fn dice_total_and_doubles() {
    let r = DiceRoll { die1: 3, die2: 4 };
    assert_eq!(r.total(), 7);
    assert!(!r.is_doubles());
    assert!(DiceRoll { die1: 5, die2: 5 }.is_doubles());
}

#[test]
fn normalize_position_wraps_around() {
    let board = Board { tiles: (0..40).map(|_| Tile::FreeParking).collect() };
    assert_eq!(board.tile_count(), 40);
    assert_eq!(board.normalize_position(0), 0);
    assert_eq!(board.normalize_position(39), 39);
    assert_eq!(board.normalize_position(40), 0);
    assert_eq!(board.normalize_position(45), 5);
}
