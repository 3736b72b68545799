use tic_tac_toe::{Move, OutOfBoundsError};

#[test]
fn moves_on_the_board_are_accepted() {
    for x in 0u8..3 {
        for y in 0u8..3 {
            let made = Move::new(x, y).unwrap();
            assert_eq!(made.x(), x);
            assert_eq!(made.y(), y);
        }
    }
}

#[test]
fn coordinate_three_is_out_of_bounds() {
    assert_eq!(Move::new(3, 0), Err(OutOfBoundsError::Column));
    assert_eq!(Move::new(0, 3), Err(OutOfBoundsError::Row));
    assert_eq!(Move::new(3, 3), Err(OutOfBoundsError::Both));
}

#[test]
fn every_pair_of_coordinates_is_judged() {
    for x in 0u8..=255 {
        for y in 0u8..=255 {
            let expected = match (x < 3, y < 3) {
                (true, true) => None,
                (false, true) => Some(OutOfBoundsError::Column),
                (true, false) => Some(OutOfBoundsError::Row),
                (false, false) => Some(OutOfBoundsError::Both),
            };
            match Move::new(x, y) {
                Ok(made) => {
                    assert_eq!(expected, None);
                    assert_eq!((made.x(), made.y()), (x, y));
                }
                Err(e) => assert_eq!(expected, Some(e)),
            }
        }
    }
}

#[test]
fn largest_coordinates_are_out_of_bounds() {
    assert_eq!(Move::new(255, 2), Err(OutOfBoundsError::Column));
    assert_eq!(Move::new(2, 255), Err(OutOfBoundsError::Row));
    assert_eq!(Move::new(255, 255), Err(OutOfBoundsError::Both));
}

#[test]
fn out_of_bounds_messages_name_the_coordinate() {
    assert_eq!(OutOfBoundsError::Column.message(), "Move is outside of the board: column");
    assert_eq!(OutOfBoundsError::Row.message(), "Move is outside of the board: row");
    assert_eq!(
        OutOfBoundsError::Both.message(),
        "Move is outside of the board: column and row"
    );
}

#[test]
fn equal_moves_compare_equal() {
    assert_eq!(Move::new(1, 2), Move::new(1, 2));
    assert_ne!(Move::new(1, 2), Move::new(2, 1));
}
