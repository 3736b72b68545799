//! A game in play: whose turn it is, what a line of input does to the board,
//! and when the game is over.

use vstd::prelude::*;
use crate::board::{Board, CellOccupiedError};
use crate::input::{coordinates, parse_coordinates, ParseError};
use crate::moves::{Move, OutOfBoundsError};
use crate::rules::{
    empty_grid, filled, lemma_empty_grid_in_progress, lemma_move_fills_one_cell,
    lemma_only_mover_wins, lemma_victor_fills_line, lemma_victor_iff, place, status, tile_at,
    wins, GameStatus, Grid,
};
use crate::tile::Tile;

verus! {

/// Why a turn was refused. The board stays as it was, and the same player
/// is asked again.
#[derive(Debug, Clone, Copy, PartialEq, Eq, Structural)]
pub enum TurnError {
    /// The line of input holds no two coordinates.
    Parse(ParseError),
    /// A coordinate lies off the board.
    OutOfBounds(OutOfBoundsError),
    /// The cell already holds a mark.
    CellOccupied(CellOccupiedError),
}

impl TurnError {
    /// The words in which the error is reported to a player.
    pub open spec fn text(self) -> Seq<char> {
        match self {
            TurnError::Parse(e) => e.text(),
            TurnError::OutOfBounds(e) => e.text(),
            TurnError::CellOccupied(e) => e.text(),
        }
    }

    /// Reports the error in words.
    pub fn message(&self) -> (message: String)
        ensures
            message@ == self.text(),
    {
        match self {
            TurnError::Parse(e) => e.message(),
            TurnError::OutOfBounds(e) => e.message(),
            TurnError::CellOccupied(e) => e.message(),
        }
    }
}

/// What is said after a move: who has won, that nobody has, or that it is
/// the turn of `next`.
pub open spec fn announcement_text(status: GameStatus, next: Tile) -> Seq<char> {
    match status {
        GameStatus::Victor(winner) => seq![winner.symbol()] + " wins"@,
        GameStatus::Draw => "Nobody wins!"@,
        GameStatus::InProgress => "Current turn: "@ + seq![next.symbol()],
    }
}

/// The words that follow the board after a move that led to `status`, where
/// `next` is the player to move if the game goes on.
pub fn announcement(status: GameStatus, next: Tile) -> (words: String)
    ensures
        words@ == announcement_text(status, next),
{
    match status {
        GameStatus::Victor(winner) => winner.to_string().concat(" wins"),
        GameStatus::Draw => "Nobody wins!".to_owned(),
        GameStatus::InProgress => "Current turn: ".to_owned().concat(next.label()),
    }
}

/// What the line `line`, entered by `player`, makes of the grid `g`: the grid
/// with the player's mark in the cell that the line names, or the reason why
/// the line is refused. The line holds the row first and then the column.
pub open spec fn turn(g: Grid, player: Tile, line: Seq<char>) -> Result<Grid, TurnError> {
    match coordinates(line) {
        Err(e) => Err(TurnError::Parse(e)),
        Ok((row, column)) => match Move::bounds_error(column, row) {
            Some(e) => Err(TurnError::OutOfBounds(e)),
            None => if tile_at(g, column as int, row as int) != Tile::Empty {
                Err(TurnError::CellOccupied(CellOccupiedError))
            } else {
                Ok(place(g, column as int, row as int, player))
            },
        },
    }
}

/// Reads a move from `line` and makes it on `board` for `player`.
pub fn take_turn(board: &Board, player: Tile, line: &str) -> (res: Result<Board, TurnError>)
    ensures
        res matches Ok(next) ==> turn(board@, player, line@) == Ok::<Grid, TurnError>(next@),
        res matches Err(e) ==> turn(board@, player, line@) == Err::<Grid, TurnError>(e),
{
    let (row, column) = match parse_coordinates(line) {
        Ok(pair) => pair,
        Err(e) => return Err(TurnError::Parse(e)),
    };
    let chosen = match Move::new(column, row) {
        Ok(chosen) => chosen,
        Err(e) => return Err(TurnError::OutOfBounds(e)),
    };
    match board.insert_move(chosen, player) {
        Ok(next) => Ok(next),
        Err(e) => Err(TurnError::CellOccupied(e)),
    }
}

/// A game that is still running: its board and the player who moves next.
#[derive(Debug, Clone, Copy)]
pub struct Game {
    board: Board,
    player: Tile,
}

/// Where a game stands after a move.
#[derive(Debug, Clone, Copy)]
pub enum Progress {
    /// The game goes on, with the other player to move.
    Continues(Game),
    /// The game is over: the final board, and whether it was won or drawn.
    Finished(Board, GameStatus),
}

impl Game {
    /// The grid of the game's board.
    pub closed spec fn grid(&self) -> Grid {
        self.board@
    }

    /// The player who moves next.
    pub closed spec fn mover(&self) -> Tile {
        self.player
    }

    /// A running game is neither won nor drawn, and it is always the turn of
    /// one of the two players.
    #[verifier::type_invariant]
    pub open spec fn wf(&self) -> bool {
        &&& self.mover().is_player()
        &&& status(self.grid()) == GameStatus::InProgress
    }

    /// A new game: an empty board, and `X` moves first.
    pub fn new() -> (game: Game)
        ensures
            game.grid() == empty_grid(),
            game.mover() == Tile::X,
            game.wf(),
    {
        proof {
            lemma_empty_grid_in_progress();
        }
        Game { board: Board::new(), player: Tile::X }
    }

    /// The board of the game.
    pub fn board(&self) -> (board: Board)
        ensures
            board@ == self.grid(),
    {
        self.board
    }

    /// The player who moves next.
    pub fn player(&self) -> (player: Tile)
        ensures
            player == self.mover(),
            player.is_player(),
    {
        proof {
            use_type_invariant(self);
        }
        self.player
    }

    /// Plays one turn: reads the move of the player whose turn it is from
    /// `line` and makes it. A refused line leaves the game as it is. After a
    /// move the game is finished if the board is won or full, and else goes
    /// on with the other player. Only the player who has just moved can have
    /// won, and each move fills one cell more.
    pub fn play(&self, line: &str) -> (res: Result<Progress, TurnError>)
        ensures
            res matches Err(e) ==> turn(self.grid(), self.mover(), line@) == Err::<Grid, TurnError>(e),
            res matches Ok(Progress::Continues(next)) ==> ({
                &&& turn(self.grid(), self.mover(), line@) == Ok::<Grid, TurnError>(next.grid())
                &&& status(next.grid()) == GameStatus::InProgress
                &&& next.mover() == self.mover().other()
                &&& next.wf()
                &&& filled(next.grid()) == filled(self.grid()) + 1
            }),
            res matches Ok(Progress::Finished(board, end)) ==> ({
                &&& turn(self.grid(), self.mover(), line@) == Ok::<Grid, TurnError>(board@)
                &&& end == status(board@)
                &&& end == GameStatus::Victor(self.mover()) || end == GameStatus::Draw
                &&& forall|m: Tile| wins(board@, m) <==> end == GameStatus::Victor(m)
                &&& filled(board@) == filled(self.grid()) + 1
            }),
    {
        proof {
            use_type_invariant(self);
        }
        let board = take_turn(&self.board, self.player, line)?;
        proof {
            let (row, column) = coordinates(line@).unwrap();
            self.board.lemma_view_is_grid();
            lemma_victor_fills_line(self.grid());
            lemma_only_mover_wins(self.grid(), column as int, row as int, self.player);
            lemma_move_fills_one_cell(self.grid(), column as int, row as int, self.player);
            assert forall|m: Tile| wins(board@, m) <==> status(board@) == GameStatus::Victor(m) by {
                lemma_victor_iff(board@, m);
            }
        }
        match board.check_victory() {
            GameStatus::InProgress => Ok(
                Progress::Continues(Game { board, player: self.player.opponent() }),
            ),
            end => Ok(Progress::Finished(board, end)),
        }
    }
}

} // verus!
