//! Moves: validated coordinates of one cell of the board.

use vstd::prelude::*;

verus! {

/// Whether `cell`, a (column, row) pair, lies on the 3 by 3 board.
pub open spec fn on_board(cell: (int, int)) -> bool {
    0 <= cell.0 < 3 && 0 <= cell.1 < 3
}

/// Why a pair of coordinates is no move: which of them lies off the board.
#[derive(Debug, Clone, Copy, PartialEq, Eq, Structural)]
pub enum OutOfBoundsError {
    /// The column is 3 or more, the row is fine.
    Column,
    /// The row is 3 or more, the column is fine.
    Row,
    /// Neither coordinate is below 3.
    Both,
}

impl OutOfBoundsError {
    /// The words in which the error is reported to a player.
    pub open spec fn text(self) -> Seq<char> {
        match self {
            OutOfBoundsError::Column => "Move is outside of the board: column"@,
            OutOfBoundsError::Row => "Move is outside of the board: row"@,
            OutOfBoundsError::Both => "Move is outside of the board: column and row"@,
        }
    }

    /// Reports the error in words.
    pub fn message(&self) -> (message: String)
        ensures
            message@ == self.text(),
    {
        match self {
            OutOfBoundsError::Column => "Move is outside of the board: column".to_owned(),
            OutOfBoundsError::Row => "Move is outside of the board: row".to_owned(),
            OutOfBoundsError::Both => "Move is outside of the board: column and row".to_owned(),
        }
    }
}

/// The cell that a player picks: a column `x` and a row `y`, both below 3.
#[derive(Debug, Clone, Copy, PartialEq, Eq, Structural)]
pub struct Move(u8, u8);

impl View for Move {
    type V = (int, int);

    /// The move as a (column, row) pair.
    closed spec fn view(&self) -> (int, int) {
        (self.0 as int, self.1 as int)
    }
}

impl Move {
    /// Every move lies on the board.
    #[verifier::type_invariant]
    pub open spec fn wf(&self) -> bool {
        on_board(self@)
    }

    /// The error that `new` reports for `x` and `y`, if one of them is off the board.
    pub open spec fn bounds_error(x: u8, y: u8) -> Option<OutOfBoundsError> {
        if x >= 3 && y >= 3 {
            Some(OutOfBoundsError::Both)
        } else if x >= 3 {
            Some(OutOfBoundsError::Column)
        } else if y >= 3 {
            Some(OutOfBoundsError::Row)
        } else {
            None
        }
    }

    /// Makes the move to column `x`, row `y`, or says which coordinate is off the board.
    pub fn new(x: u8, y: u8) -> (res: Result<Move, OutOfBoundsError>)
        ensures
            res is Ok <==> x < 3 && y < 3,
            res matches Ok(m) ==> m@ == (x as int, y as int) && m.wf(),
            res matches Err(e) ==> Move::bounds_error(x, y) == Some(e),
    {
        if x >= 3 {
            if y >= 3 {
                Err(OutOfBoundsError::Both)
            } else {
                Err(OutOfBoundsError::Column)
            }
        } else if y >= 3 {
            Err(OutOfBoundsError::Row)
        } else {
            Ok(Move(x, y))
        }
    }

    /// The column of the move.
    pub fn x(&self) -> (x: u8)
        ensures
            x == self@.0,
            x < 3,
    {
        proof {
            use_type_invariant(self);
        }
        self.0
    }

    /// The row of the move.
    pub fn y(&self) -> (y: u8)
        ensures
            y == self@.1,
            y < 3,
    {
        proof {
            use_type_invariant(self);
        }
        self.1
    }
}

} // verus!
