//! The marks that a cell of the board can hold.

use vstd::prelude::*;

verus! {

/// What a cell holds: the mark of one of the two players, or nothing yet.
#[derive(Debug, Clone, Copy, PartialEq, Eq, Structural)]
pub enum Tile {
    X,
    O,
    Empty,
}

impl Default for Tile {
    /// A cell starts out empty.
    fn default() -> (tile: Tile)
        ensures
            tile == Tile::Empty,
    {
        Tile::Empty
    }
}

impl Tile {
    /// Whether this is the mark of a player rather than an empty cell.
    pub open spec fn is_player(self) -> bool {
        self != Tile::Empty
    }

    /// The character that stands for this tile on a rendered board.
    pub open spec fn symbol(self) -> char {
        match self {
            Tile::X => 'X',
            Tile::O => 'O',
            Tile::Empty => ' ',
        }
    }

    /// The player who moves after `self`.
    pub open spec fn other(self) -> Tile {
        match self {
            Tile::X => Tile::O,
            Tile::O => Tile::X,
            Tile::Empty => Tile::Empty,
        }
    }

    /// Hands the turn to the other player.
    pub fn opponent(self) -> (next: Tile)
        requires
            self.is_player(),
        ensures
            next == self.other(),
            next.is_player(),
            next != self,
    {
        match self {
            Tile::X => Tile::O,
            _ => Tile::X,
        }
    }

    /// The one-character label of the tile: a space for an empty cell.
    pub fn label(&self) -> (text: &'static str)
        ensures
            text@ == seq![self.symbol()],
    {
        proof {
            reveal_strlit("X");
            reveal_strlit("O");
            reveal_strlit(" ");
        }
        match self {
            Tile::X => "X",
            Tile::O => "O",
            Tile::Empty => " ",
        }
    }

    /// The tile as text: its label in a string of its own.
    pub fn to_string(&self) -> (text: String)
        ensures
            text@ == seq![self.symbol()],
    {
        self.label().to_owned()
    }
}

} // verus!
