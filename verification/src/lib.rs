//! A two-player tic-tac-toe game: the marks, the board, the moves and the
//! rules that decide when a game is won, drawn or still running.
//!
//! A cell of the 3 by 3 board is named by its column `x` and its row `y`, both
//! counted from 0; row 0 is the top row of the rendered board and column 0
//! its left column. A player enters a move as the row and then the column,
//! with a comma between them.

pub mod board;
pub mod game;
pub mod input;
pub mod moves;
pub mod rules;
pub mod tile;

pub use board::{Board, CellOccupiedError};
pub use game::{announcement, take_turn, Game, Progress, TurnError};
pub use input::{parse_coordinates, ParseError};
pub use moves::{Move, OutOfBoundsError};
pub use rules::GameStatus;
pub use tile::Tile;
