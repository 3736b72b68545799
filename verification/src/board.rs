//! The board: a 3 by 3 grid of tiles, the moves made on it and the state of the
//! game that it shows.

use vstd::prelude::*;
use crate::moves::Move;
use crate::rules::{
    empty_grid, first_won, has_empty, has_winner, is_grid, lemma_draw_iff, lemma_in_progress_iff,
    lemma_place, lemma_sole_winner_is_victor, lemma_status_of_first_won,
    lemma_status_without_winner, lemma_victor_fills_line, line_won, place, status, tile_at, wins,
    GameStatus, Grid,
};
use crate::tile::Tile;

verus! {

/// Why a move was refused: its cell already holds a mark.
#[derive(Debug, Clone, Copy, PartialEq, Eq, Structural)]
pub struct CellOccupiedError;

impl CellOccupiedError {
    /// The words in which the error is reported to a player.
    pub open spec fn text(self) -> Seq<char> {
        "You can't make a move where someone has already played a move"@
    }

    /// Reports the error in words.
    pub fn message(&self) -> (message: String)
        ensures
            message@ == self.text(),
    {
        "You can't make a move where someone has already played a move".to_owned()
    }
}

/// A 3 by 3 board. Every cell holds a tile at all times; `board[x][y]` is the
/// cell in column `x`, row `y`.
#[derive(Debug, Clone, Copy)]
pub struct Board {
    board: [[Tile; 3]; 3],
}

impl View for Board {
    type V = Grid;

    /// The board as a grid of three columns of three cells.
    closed spec fn view(&self) -> Grid {
        Seq::new(3, |x: int| self.board[x]@)
    }
}

/// The text of row `y` of a rendered grid: each cell after a space, the cells
/// parted by a bar.
pub open spec fn row_text(g: Grid, y: int) -> Seq<char> {
    seq![
        ' ',
        tile_at(g, 0, y).symbol(),
        ' ',
        '|',
        ' ',
        tile_at(g, 1, y).symbol(),
        ' ',
        '|',
        ' ',
        tile_at(g, 2, y).symbol(),
    ]
}

/// The line of dashes between two rows of a rendered grid, with the line
/// breaks around it.
pub open spec fn divider_text() -> Seq<char> {
    seq!['\n', '-', '-', '-', '|', '-', '-', '-', '|', '-', '-', '-', '\n']
}

/// The text of a rendered grid: its three rows from top to bottom, with a
/// divider between one row and the next.
pub open spec fn rendering(g: Grid) -> Seq<char> {
    row_text(g, 0) + divider_text() + row_text(g, 1) + divider_text() + row_text(g, 2)
}

impl Board {
    /// The view of a board is always a full 3 by 3 grid.
    pub proof fn lemma_view_is_grid(&self)
        ensures
            is_grid(self@),
    {
    }

    /// The board on which nobody has played: all nine cells are empty.
    pub fn new() -> (board: Board)
        ensures
            board@ == empty_grid(),
    {
        let board = Board { board: [[Tile::Empty; 3], [Tile::Empty; 3], [Tile::Empty; 3]] };
        assert(board@ =~~= empty_grid());
        board
    }

    /// The tile in the cell that `at` names.
    pub fn tile(&self, at: Move) -> (tile: Tile)
        ensures
            tile == tile_at(self@, at@.0, at@.1),
    {
        self.board[at.x() as usize][at.y() as usize]
    }

    /// Puts `fill_with` into the cell that `mutate_with` names, if that cell
    /// is empty, and refuses the move if the cell holds a mark. The result
    /// is a new board that differs from `self` in that one cell only;
    /// `self` stays as it is. (To fill a cell with `Tile::Empty` is allowed
    /// and changes nothing.)
    pub fn insert_move(&self, mutate_with: Move, fill_with: Tile) -> (res: Result<Board, CellOccupiedError>)
        ensures
            res is Ok <==> tile_at(self@, mutate_with@.0, mutate_with@.1) == Tile::Empty,
            res matches Ok(board) ==> board@ == place(
                self@,
                mutate_with@.0,
                mutate_with@.1,
                fill_with,
            ),
            res matches Ok(board) ==> tile_at(board@, mutate_with@.0, mutate_with@.1) == fill_with,
            res matches Ok(board) ==> forall|x: int, y: int|
                0 <= x < 3 && 0 <= y < 3 && (x, y) != mutate_with@ ==> #[trigger] tile_at(
                    board@,
                    x,
                    y,
                ) == tile_at(self@, x, y),
    {
        let x = mutate_with.x() as usize;
        let y = mutate_with.y() as usize;
        match self.board[x][y] {
            Tile::Empty => {
                let mut new_board = self.board;
                new_board[x][y] = fill_with;
                let board = Board { board: new_board };
                proof {
                    assert(board@ =~~= place(self@, x as int, y as int, fill_with));
                    lemma_place(self@, x as int, y as int, fill_with);
                }
                Ok(board)
            },
            _ => Err(CellOccupiedError),
        }
    }

    /// How the game on this board stands. The rows are examined from top to
    /// bottom, then the columns from left to right, then the two diagonals;
    /// the first line that holds three equal marks names the victor. Without
    /// such a line the game is in progress while a cell is empty, and drawn
    /// when the board is full.
    #[verifier::loop_isolation(false)]
    pub fn check_victory(&self) -> (res: GameStatus)
        ensures
            res == status(self@),
            res == GameStatus::InProgress <==> has_empty(self@) && !has_winner(self@),
            res == GameStatus::Draw <==> !has_empty(self@) && !has_winner(self@),
            res is Victor <==> has_winner(self@),
            res != GameStatus::Victor(Tile::Empty),
            forall|m: Tile| res == GameStatus::Victor(m) ==> wins(self@, m),
            forall|m: Tile|
                wins(self@, m) && !wins(self@, m.other()) ==> res == GameStatus::Victor(m),
    {
        proof {
            lemma_in_progress_iff(self@);
            lemma_draw_iff(self@);
            lemma_victor_fills_line(self@);
            assert forall|m: Tile| wins(self@, m) && !wins(self@, m.other()) implies status(self@)
                == GameStatus::Victor(m) by {
                lemma_sole_winner_is_victor(self@, m);
            }
        }
        for r in 0..3usize
            invariant
                forall|j: int| 0 <= j < r ==> !line_won(self@, j),
        {
            if self.board[0][r] != Tile::Empty && self.board[0][r] == self.board[1][r]
                && self.board[1][r] == self.board[2][r] {
                proof {
                    assert(first_won(self@, r as int));
                    lemma_status_of_first_won(self@, r as int);
                }
                return GameStatus::Victor(self.board[0][r]);
            }
        }
        for c in 0..3usize
            invariant
                forall|j: int| 0 <= j < 3 + c ==> !line_won(self@, j),
        {
            if self.board[c][0] != Tile::Empty && self.board[c][0] == self.board[c][1]
                && self.board[c][1] == self.board[c][2] {
                proof {
                    assert(first_won(self@, 3 + c as int));
                    lemma_status_of_first_won(self@, 3 + c as int);
                }
                return GameStatus::Victor(self.board[c][0]);
            }
        }
        if self.board[0][0] != Tile::Empty && self.board[0][0] == self.board[1][1]
            && self.board[1][1] == self.board[2][2] {
            proof {
                assert(first_won(self@, 6));
                lemma_status_of_first_won(self@, 6);
            }
            return GameStatus::Victor(self.board[0][0]);
        }
        if self.board[0][2] != Tile::Empty && self.board[0][2] == self.board[1][1]
            && self.board[1][1] == self.board[2][0] {
            proof {
                assert(first_won(self@, 7));
                lemma_status_of_first_won(self@, 7);
            }
            return GameStatus::Victor(self.board[0][2]);
        }
        proof {
            lemma_status_without_winner(self@);
        }
        for y in 0..3usize
            invariant
                forall|i: int, j: int|
                    0 <= i < 3 && 0 <= j < y ==> #[trigger] tile_at(self@, i, j) != Tile::Empty,
        {
            for x in 0..3usize
                invariant
                    forall|i: int| 0 <= i < x ==> #[trigger] tile_at(self@, i, y as int) != Tile::Empty,
            {
                if self.board[x][y] == Tile::Empty {
                    assert(tile_at(self@, x as int, y as int) == Tile::Empty);
                    return GameStatus::InProgress;
                }
            }
        }
        GameStatus::Draw
    }

    /// Appends the text of row `y` to `text`.
    fn append_row(&self, text: &mut String, y: usize)
        requires
            y < 3,
        ensures
            final(text)@ == old(text)@ + row_text(self@, y as int),
    {
        proof {
            reveal_strlit(" ");
            reveal_strlit(" | ");
        }
        text.append(" ");
        text.append(self.board[0][y].label());
        text.append(" | ");
        text.append(self.board[1][y].label());
        text.append(" | ");
        text.append(self.board[2][y].label());
        assert(final(text)@ =~= old(text)@ + row_text(self@, y as int));
    }

    /// The board as text, one line for each row and a line of dashes between
    /// two rows.
    pub fn to_string(&self) -> (text: String)
        ensures
            text@ == rendering(self@),
    {
        proof {
            reveal_strlit("\n---|---|---\n");
        }
        let mut text = String::new();
        self.append_row(&mut text, 0);
        text.append("\n---|---|---\n");
        self.append_row(&mut text, 1);
        text.append("\n---|---|---\n");
        self.append_row(&mut text, 2);
        assert(text@ =~= rendering(self@));
        text
    }
}

} // verus!
