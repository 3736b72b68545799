//! The rules of the game, stated on the mathematical model of the board: a
//! grid of three columns of three cells, each cell named by its column and
//! its row.

use vstd::prelude::*;
use crate::tile::Tile;

verus! {

/// How a game stands: won by the player whose mark fills a line, drawn, or
/// still running.
#[derive(Debug, Clone, Copy, PartialEq, Eq, Structural)]
pub enum GameStatus {
    Victor(Tile),
    Draw,
    InProgress,
}

/// The model of a board: `g[x][y]` is the cell in column `x`, row `y`.
pub type Grid = Seq<Seq<Tile>>;

/// A grid has three columns of three cells each.
pub open spec fn is_grid(g: Grid) -> bool {
    &&& g.len() == 3
    &&& forall|x: int| 0 <= x < 3 ==> (#[trigger] g[x]).len() == 3
}

/// The cell of `g` in column `x`, row `y`.
pub open spec fn tile_at(g: Grid, x: int, y: int) -> Tile {
    g[x][y]
}

/// The grid on which nobody has played.
pub open spec fn empty_grid() -> Grid {
    Seq::new(3, |x: int| Seq::new(3, |y: int| Tile::Empty))
}

/// The grid `g` with `mark` in column `x`, row `y`, and every other cell as it was.
pub open spec fn place(g: Grid, x: int, y: int, mark: Tile) -> Grid {
    g.update(x, g[x].update(y, mark))
}

/// One if the cell in column `x`, row `y` holds a mark, zero if it is empty.
pub open spec fn occupied(g: Grid, x: int, y: int) -> nat {
    if tile_at(g, x, y) != Tile::Empty {
        1
    } else {
        0
    }
}

/// The number of cells of `g` that hold a mark.
pub open spec fn filled(g: Grid) -> nat {
    occupied(g, 0, 0) + occupied(g, 1, 0) + occupied(g, 2, 0) + occupied(g, 0, 1) + occupied(
        g,
        1,
        1,
    ) + occupied(g, 2, 1) + occupied(g, 0, 2) + occupied(g, 1, 2) + occupied(g, 2, 2)
}

/// The `i`-th cell of line `k`, as a (column, row) pair. The eight lines are
/// numbered in the order in which a board is examined: 0 to 2 are the rows
/// from top to bottom, 3 to 5 the columns from left to right, 6 is the
/// diagonal from the top left corner and 7 the one from the bottom left.
pub open spec fn line_cell(k: int, i: int) -> (int, int) {
    if k < 3 {
        (i, k)
    } else if k < 6 {
        (k - 3, i)
    } else if k == 6 {
        (i, i)
    } else {
        (i, 2 - i)
    }
}

/// The tile in the `i`-th cell of line `k`.
pub open spec fn line_tile(g: Grid, k: int, i: int) -> Tile {
    tile_at(g, line_cell(k, i).0, line_cell(k, i).1)
}

/// Line `k` is filled by the player `m`.
pub open spec fn line_won_by(g: Grid, k: int, m: Tile) -> bool {
    &&& 0 <= k < 8
    &&& m != Tile::Empty
    &&& line_tile(g, k, 0) == m
    &&& line_tile(g, k, 1) == m
    &&& line_tile(g, k, 2) == m
}

/// Line `k` holds three equal marks of a player.
pub open spec fn line_won(g: Grid, k: int) -> bool {
    line_won_by(g, k, line_tile(g, k, 0))
}

/// The player `m` fills some row, column or diagonal.
pub open spec fn wins(g: Grid, m: Tile) -> bool {
    exists|k: int| line_won_by(g, k, m)
}

/// Some line holds three equal marks of a player.
pub open spec fn has_winner(g: Grid) -> bool {
    exists|k: int| line_won(g, k)
}

/// Line `k` is won and no line examined before it is.
pub open spec fn first_won(g: Grid, k: int) -> bool {
    &&& line_won(g, k)
    &&& forall|j: int| 0 <= j < k ==> !line_won(g, j)
}

/// Some cell is still empty.
pub open spec fn has_empty(g: Grid) -> bool {
    exists|x: int, y: int| 0 <= x < 3 && 0 <= y < 3 && #[trigger] tile_at(g, x, y) == Tile::Empty
}

/// How the game on `g` stands. The first won line, in the order of
/// `line_cell`, names the victor; without a won line the game runs on while
/// a cell is empty and is drawn once the grid is full.
pub open spec fn status(g: Grid) -> GameStatus {
    if has_winner(g) {
        GameStatus::Victor(line_tile(g, choose|k: int| first_won(g, k), 0))
    } else if has_empty(g) {
        GameStatus::InProgress
    } else {
        GameStatus::Draw
    }
}

/// Placing a mark keeps the grid a grid, puts the mark into the chosen cell
/// and leaves every other cell as it was.
pub proof fn lemma_place(g: Grid, x: int, y: int, mark: Tile)
    requires
        is_grid(g),
        0 <= x < 3,
        0 <= y < 3,
    ensures
        is_grid(place(g, x, y, mark)),
        tile_at(place(g, x, y, mark), x, y) == mark,
        forall|i: int, j: int|
            0 <= i < 3 && 0 <= j < 3 && (i != x || j != y) ==> #[trigger] tile_at(
                place(g, x, y, mark),
                i,
                j,
            ) == tile_at(g, i, j),
{
}

/// A grid holds at most nine marks, and exactly nine when no cell is empty.
pub proof fn lemma_filled_bounds(g: Grid)
    ensures
        filled(g) <= 9,
        filled(g) == 9 <==> !has_empty(g),
{
    if has_empty(g) {
        let (x, y) = choose|x: int, y: int|
            0 <= x < 3 && 0 <= y < 3 && #[trigger] tile_at(g, x, y) == Tile::Empty;
        assert(occupied(g, x, y) == 0);
    } else {
        assert forall|x: int, y: int| 0 <= x < 3 && 0 <= y < 3 implies #[trigger] occupied(g, x, y)
            == 1 by {
            assert(tile_at(g, x, y) != Tile::Empty);
        }
    }
}

/// A player's mark placed into an empty cell fills exactly one cell more:
/// each move turns one cell from empty to filled and touches no other.
pub proof fn lemma_move_fills_one_cell(g: Grid, x: int, y: int, mark: Tile)
    requires
        is_grid(g),
        0 <= x < 3,
        0 <= y < 3,
        tile_at(g, x, y) == Tile::Empty,
        mark.is_player(),
    ensures
        filled(place(g, x, y, mark)) == filled(g) + 1,
        forall|i: int, j: int|
            0 <= i < 3 && 0 <= j < 3 ==> (#[trigger] tile_at(place(g, x, y, mark), i, j)
                != tile_at(g, i, j) <==> i == x && j == y),
{
    lemma_place(g, x, y, mark);
    let after = place(g, x, y, mark);
    assert forall|i: int, j: int| 0 <= i < 3 && 0 <= j < 3 implies #[trigger] occupied(
        after,
        i,
        j,
    ) == occupied(g, i, j) + if i == x && j == y {
        1nat
    } else {
        0nat
    } by {
        if i != x || j != y {
            assert(tile_at(after, i, j) == tile_at(g, i, j));
        }
    }
}

/// Among the won lines of a grid there is a first one.
pub proof fn lemma_first_won_exists(g: Grid)
    requires
        has_winner(g),
    ensures
        exists|k: int| first_won(g, k),
{
    let w = choose|k: int| line_won(g, k);
    if line_won(g, 0) {
        assert(first_won(g, 0));
    } else if line_won(g, 1) {
        assert(first_won(g, 1));
    } else if line_won(g, 2) {
        assert(first_won(g, 2));
    } else if line_won(g, 3) {
        assert(first_won(g, 3));
    } else if line_won(g, 4) {
        assert(first_won(g, 4));
    } else if line_won(g, 5) {
        assert(first_won(g, 5));
    } else if line_won(g, 6) {
        assert(first_won(g, 6));
    } else {
        assert(line_won(g, w));
        assert(first_won(g, 7));
    }
}

/// A grid whose first won line is `k` is won by the player on that line.
pub proof fn lemma_status_of_first_won(g: Grid, k: int)
    requires
        first_won(g, k),
    ensures
        status(g) == GameStatus::Victor(line_tile(g, k, 0)),
        line_won_by(g, k, line_tile(g, k, 0)),
{
    assert(line_won(g, k));
    let c = choose|k: int| first_won(g, k);
    assert(first_won(g, c));
    if c < k {
        assert(!line_won(g, c));
    } else if k < c {
        assert(!line_won(g, k));
    }
}

/// A grid without a won line is in progress while a cell is empty, and
/// drawn when none is.
pub proof fn lemma_status_without_winner(g: Grid)
    requires
        forall|k: int| 0 <= k < 8 ==> !line_won(g, k),
    ensures
        has_empty(g) ==> status(g) == GameStatus::InProgress,
        !has_empty(g) ==> status(g) == GameStatus::Draw,
{
    if has_winner(g) {
        let w = choose|k: int| line_won(g, k);
        assert(line_won(g, w));
    }
}

/// A game is in progress exactly when a cell is empty and no line holds
/// three equal marks of a player.
pub proof fn lemma_in_progress_iff(g: Grid)
    ensures
        status(g) == GameStatus::InProgress <==> has_empty(g) && !has_winner(g),
{
}

/// A game is drawn exactly when no cell is empty and no line holds three
/// equal marks of a player.
pub proof fn lemma_draw_iff(g: Grid)
    ensures
        status(g) == GameStatus::Draw <==> !has_empty(g) && !has_winner(g),
{
}

/// A game has a victor exactly when some line holds three equal marks of a
/// player, and the victor fills a line.
pub proof fn lemma_victor_fills_line(g: Grid)
    ensures
        status(g) is Victor <==> has_winner(g),
        forall|m: Tile| status(g) == GameStatus::Victor(m) ==> wins(g, m),
{
    if has_winner(g) {
        lemma_first_won_exists(g);
        let k = choose|k: int| first_won(g, k);
        lemma_status_of_first_won(g, k);
    }
}

/// Where at most one of the two players fills a line, the victor is `m`
/// exactly when `m` fills a row, a column or a diagonal.
pub proof fn lemma_victor_iff(g: Grid, m: Tile)
    requires
        !(wins(g, Tile::X) && wins(g, Tile::O)),
    ensures
        status(g) == GameStatus::Victor(m) <==> wins(g, m),
{
    lemma_victor_fills_line(g);
    if wins(g, m) {
        let k = choose|k: int| line_won_by(g, k, m);
        assert(line_won(g, k));
        lemma_first_won_exists(g);
        let f = choose|k: int| first_won(g, k);
        lemma_status_of_first_won(g, f);
    }
}

/// A player who fills a line while the other player fills none is the victor.
pub proof fn lemma_sole_winner_is_victor(g: Grid, m: Tile)
    requires
        wins(g, m),
        !wins(g, m.other()),
    ensures
        status(g) == GameStatus::Victor(m),
{
    lemma_victor_iff(g, m);
}

/// On the empty grid the game is in progress.
pub proof fn lemma_empty_grid_in_progress()
    ensures
        is_grid(empty_grid()),
        status(empty_grid()) == GameStatus::InProgress,
{
    let g = empty_grid();
    assert(tile_at(g, 0, 0) == Tile::Empty);
    assert forall|k: int| 0 <= k < 8 implies !line_won(g, k) by {
        assert(line_tile(g, k, 0) == Tile::Empty);
    }
    lemma_status_without_winner(g);
}

/// A mark placed on a grid without a won line is the only mark that can
/// fill a line afterwards: whoever wins, wins by the move just made.
pub proof fn lemma_only_mover_wins(g: Grid, x: int, y: int, mark: Tile)
    requires
        is_grid(g),
        0 <= x < 3,
        0 <= y < 3,
        !has_winner(g),
    ensures
        forall|k: int, m: Tile| line_won_by(place(g, x, y, mark), k, m) ==> m == mark,
        forall|m: Tile| wins(place(g, x, y, mark), m) ==> m == mark,
        status(place(g, x, y, mark)) is Victor ==> status(place(g, x, y, mark))
            == GameStatus::Victor(mark),
{
    let after = place(g, x, y, mark);
    lemma_place(g, x, y, mark);
    assert forall|k: int, m: Tile| line_won_by(after, k, m) implies m == mark by {
        if m != mark {
            assert(line_tile(after, k, 0) == line_tile(g, k, 0));
            assert(line_tile(after, k, 1) == line_tile(g, k, 1));
            assert(line_tile(after, k, 2) == line_tile(g, k, 2));
            assert(line_won(g, k));
        }
    }
    lemma_victor_fills_line(after);
    if let GameStatus::Victor(m) = status(after) {
        assert(wins(after, m));
    }
}

} // verus!
