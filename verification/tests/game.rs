use tic_tac_toe::{
    announcement, take_turn, Board, CellOccupiedError, Game, GameStatus, Move, OutOfBoundsError,
    ParseError, Progress, Tile, TurnError,
};

fn at(x: u8, y: u8) -> Move {
    Move::new(x, y).unwrap()
}

/// Plays `lines` one after the other and hands back what the last one led to.
fn play_all(lines: &[&str]) -> Progress {
    let mut game = Game::new();
    for (i, line) in lines.iter().enumerate() {
        match game.play(line).unwrap() {
            Progress::Continues(next) => game = next,
            Progress::Finished(board, end) => {
                assert_eq!(i + 1, lines.len());
                return Progress::Finished(board, end);
            }
        }
    }
    Progress::Continues(game)
}

#[test]
fn new_game_starts_with_x_on_an_empty_board() {
    let game = Game::new();
    assert_eq!(game.player(), Tile::X);
    assert_eq!(game.board().to_string(), Board::new().to_string());
    assert_eq!(game.board().check_victory(), GameStatus::InProgress);
}

#[test]
fn turn_goes_to_the_other_player_after_a_move() {
    let game = Game::new();
    let next = match game.play("1,1").unwrap() {
        Progress::Continues(next) => next,
        Progress::Finished(..) => panic!("one move ends no game"),
    };
    assert_eq!(next.player(), Tile::O);
    assert_eq!(next.board().tile(at(1, 1)), Tile::X);
    let third = match next.play("0,0").unwrap() {
        Progress::Continues(third) => third,
        Progress::Finished(..) => panic!("two moves end no game"),
    };
    assert_eq!(third.player(), Tile::X);
    assert_eq!(third.board().tile(at(0, 0)), Tile::O);
    assert_eq!(third.board().tile(at(1, 1)), Tile::X);
}

#[test]
fn line_names_the_row_before_the_column() {
    let next = match Game::new().play("0,2\n").unwrap() {
        Progress::Continues(next) => next,
        Progress::Finished(..) => panic!("one move ends no game"),
    };
    assert_eq!(next.board().tile(at(2, 0)), Tile::X);
    assert_eq!(next.board().tile(at(0, 2)), Tile::Empty);
    assert_eq!(
        next.board().to_string(),
        "   |   | X\n---|---|---\n   |   |  \n---|---|---\n   |   |  "
    );
}

#[test]
fn three_in_the_top_row_win_for_x() {
    match play_all(&["0,0", "1,0", "0,1", "1,1", "0,2"]) {
        Progress::Finished(board, end) => {
            assert_eq!(end, GameStatus::Victor(Tile::X));
            assert_eq!(board.check_victory(), GameStatus::Victor(Tile::X));
            assert_eq!(
                board.to_string(),
                " X | X | X\n---|---|---\n O | O |  \n---|---|---\n   |   |  "
            );
        }
        Progress::Continues(_) => panic!("the game is won"),
    }
}

#[test]
fn diagonal_wins_for_o() {
    match play_all(&["0,1", "0,0", "0,2", "1,1", "1,0", "2,2"]) {
        Progress::Finished(board, end) => {
            assert_eq!(end, GameStatus::Victor(Tile::O));
            assert_eq!(board.tile(at(0, 0)), Tile::O);
            assert_eq!(board.tile(at(1, 1)), Tile::O);
            assert_eq!(board.tile(at(2, 2)), Tile::O);
        }
        Progress::Continues(_) => panic!("the game is won"),
    }
}

#[test]
fn nine_moves_without_a_line_are_a_draw() {
    let lines = ["0,0", "0,1", "0,2", "1,1", "1,0", "1,2", "2,1", "2,0", "2,2"];
    match play_all(&lines[..8]) {
        Progress::Continues(game) => assert_eq!(game.player(), Tile::X),
        Progress::Finished(..) => panic!("a cell is still empty"),
    }
    match play_all(&lines) {
        Progress::Finished(board, end) => {
            assert_eq!(end, GameStatus::Draw);
            assert_eq!(
                board.to_string(),
                " X | O | X\n---|---|---\n X | O | O\n---|---|---\n O | X | X"
            );
        }
        Progress::Continues(_) => panic!("the board is full"),
    }
}

#[test]
fn refused_line_leaves_the_game_as_it_was() {
    let game = match play_all(&["1,1"]) {
        Progress::Continues(game) => game,
        Progress::Finished(..) => panic!("one move ends no game"),
    };
    let text = game.board().to_string();
    for line in ["", "1", "a,b", "1,1", "3,0", "0,3", "7,7", "1,2,3", "256,1", "1;2"] {
        assert!(game.play(line).is_err(), "line {:?}", line);
        assert_eq!(game.player(), Tile::O);
        assert_eq!(game.board().to_string(), text);
    }
    match game.play("0,0").unwrap() {
        Progress::Continues(next) => assert_eq!(next.player(), Tile::X),
        Progress::Finished(..) => panic!("two moves end no game"),
    }
}

#[test]
fn each_kind_of_refusal_is_told_apart() {
    let game = match play_all(&["1,1"]) {
        Progress::Continues(game) => game,
        Progress::Finished(..) => panic!("one move ends no game"),
    };
    assert_eq!(game.play("11").err(), Some(TurnError::Parse(ParseError::FieldCount)));
    assert_eq!(game.play("1,").err(), Some(TurnError::Parse(ParseError::EmptyField)));
    assert_eq!(game.play("1,x").err(), Some(TurnError::Parse(ParseError::InvalidDigit)));
    assert_eq!(game.play("1,256").err(), Some(TurnError::Parse(ParseError::TooLarge)));
    assert_eq!(game.play("3,1").err(), Some(TurnError::OutOfBounds(OutOfBoundsError::Row)));
    assert_eq!(game.play("1,3").err(), Some(TurnError::OutOfBounds(OutOfBoundsError::Column)));
    assert_eq!(game.play("3,3").err(), Some(TurnError::OutOfBounds(OutOfBoundsError::Both)));
    assert_eq!(game.play("255,0").err(), Some(TurnError::OutOfBounds(OutOfBoundsError::Row)));
    assert_eq!(game.play("1,1").err(), Some(TurnError::CellOccupied(CellOccupiedError)));
}

#[test]
fn parse_error_comes_before_bounds_and_bounds_before_occupancy() {
    let game = match play_all(&["1,1"]) {
        Progress::Continues(game) => game,
        Progress::Finished(..) => panic!("one move ends no game"),
    };
    assert_eq!(game.play("9,x").err(), Some(TurnError::Parse(ParseError::InvalidDigit)));
    assert_eq!(game.play("1,9").err(), Some(TurnError::OutOfBounds(OutOfBoundsError::Column)));
}

#[test]
fn take_turn_makes_the_move_of_any_player() {
    let board = Board::new();
    let after = take_turn(&board, Tile::O, "2,1").unwrap();
    assert_eq!(after.tile(at(1, 2)), Tile::O);
    assert_eq!(board.tile(at(1, 2)), Tile::Empty);
    assert_eq!(
        take_turn(&after, Tile::X, "2,1").err(),
        Some(TurnError::CellOccupied(CellOccupiedError))
    );
    assert_eq!(
        take_turn(&after, Tile::X, "2;1").err(),
        Some(TurnError::Parse(ParseError::FieldCount))
    );
    assert_eq!(
        take_turn(&after, Tile::X, "2,5").err(),
        Some(TurnError::OutOfBounds(OutOfBoundsError::Column))
    );
}

#[test]
fn announcements_are_worded() {
    assert_eq!(announcement(GameStatus::Victor(Tile::X), Tile::O), "X wins");
    assert_eq!(announcement(GameStatus::Victor(Tile::O), Tile::X), "O wins");
    assert_eq!(announcement(GameStatus::Draw, Tile::X), "Nobody wins!");
    assert_eq!(announcement(GameStatus::InProgress, Tile::X), "Current turn: X");
    assert_eq!(announcement(GameStatus::InProgress, Tile::O), "Current turn: O");
}

#[test]
fn turn_messages_are_those_of_their_cause() {
    assert_eq!(
        TurnError::Parse(ParseError::InvalidDigit).message(),
        ParseError::InvalidDigit.message()
    );
    assert_eq!(
        TurnError::OutOfBounds(OutOfBoundsError::Row).message(),
        "Move is outside of the board: row"
    );
    assert_eq!(
        TurnError::CellOccupied(CellOccupiedError).message(),
        "You can't make a move where someone has already played a move"
    );
}

/// Plays every game that can follow `game` and counts how they end:
/// won by `X`, won by `O`, drawn.
fn count_games(game: &Game, moves: u32, ends: &mut [u64; 3]) {
    let mover = game.player();
    for row in 0u8..3 {
        for column in 0u8..3 {
            let line = format!("{},{}", row, column);
            let free = game.board().tile(at(column, row)) == Tile::Empty;
            match game.play(&line) {
                Err(e) => {
                    assert!(!free);
                    assert_eq!(e, TurnError::CellOccupied(CellOccupiedError));
                }
                Ok(Progress::Continues(next)) => {
                    assert!(free);
                    assert!(moves + 1 < 9);
                    assert_eq!(next.player(), mover.opponent());
                    assert_eq!(next.board().tile(at(column, row)), mover);
                    assert_eq!(next.board().check_victory(), GameStatus::InProgress);
                    count_games(&next, moves + 1, ends);
                }
                Ok(Progress::Finished(board, end)) => {
                    assert!(free);
                    assert_eq!(board.tile(at(column, row)), mover);
                    assert_eq!(board.check_victory(), end);
                    match end {
                        GameStatus::Victor(winner) => {
                            assert_eq!(winner, mover);
                            assert!(moves + 1 >= 5);
                            ends[if winner == Tile::X { 0 } else { 1 }] += 1;
                        }
                        GameStatus::Draw => {
                            assert_eq!(moves + 1, 9);
                            ends[2] += 1;
                        }
                        GameStatus::InProgress => panic!("a finished game is not in progress"),
                    }
                }
            }
        }
    }
}

#[test]
fn every_game_ends_within_nine_moves() {
    let mut ends = [0u64; 3];
    count_games(&Game::new(), 0, &mut ends);
    assert_eq!(ends, [131184, 77904, 46080]);
}
