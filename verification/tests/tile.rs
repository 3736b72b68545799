use tic_tac_toe::Tile;

#[test]
fn default_tile_is_empty() {
    assert_eq!(Tile::default(), Tile::Empty);
}

#[test]
fn labels_are_single_characters() {
    assert_eq!(Tile::X.label(), "X");
    assert_eq!(Tile::O.label(), "O");
    assert_eq!(Tile::Empty.label(), " ");
}

#[test]
fn tile_to_string_is_its_label() {
    assert_eq!(Tile::X.to_string(), "X");
    assert_eq!(Tile::O.to_string(), "O");
    assert_eq!(Tile::Empty.to_string(), " ");
}

#[test]
fn opponent_swaps_the_players() {
    assert_eq!(Tile::X.opponent(), Tile::O);
    assert_eq!(Tile::O.opponent(), Tile::X);
    assert_eq!(Tile::X.opponent().opponent(), Tile::X);
}

#[test]
fn tiles_compare_by_value() {
    assert_eq!(Tile::X, Tile::X);
    assert_ne!(Tile::X, Tile::O);
    assert_ne!(Tile::O, Tile::Empty);
    let copy = Tile::O;
    let same = copy;
    assert_eq!(copy, same);
}
