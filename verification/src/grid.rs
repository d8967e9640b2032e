//! The board as a mathematical grid: its shape, its lines of four, and where
//! a dropped piece lands.

use vstd::prelude::*;
use crate::item::GameItem;

verus! {

/// Rows of the grid, the wall row at the bottom included.
pub const ROWS: usize = 5;

/// Columns of the grid, the wall columns at both sides included.
pub const COLS: usize = 6;

/// Side of the square field that pieces are played on.
pub const FIELD: usize = 4;

/// Number of lines of four on the field: four rows, four columns, two diagonals.
pub const LINES: usize = 10;

/// The grid's cells, row by row from the top.
pub type Grid = Seq<Seq<GameItem>>;

/// Whether `(r, c)` is a cell of the grid.
pub open spec fn in_grid(r: int, c: int) -> bool {
    0 <= r < ROWS && 0 <= c < COLS
}

/// Whether `(r, c)` is a cell of the playing field: rows 0 to 3, columns 1 to 4.
pub open spec fn playable(r: int, c: int) -> bool {
    0 <= r < FIELD && 1 <= c <= FIELD
}

/// Whether `c` is a column that a piece can be dropped into.
pub open spec fn playable_column(c: int) -> bool {
    1 <= c <= FIELD
}

/// Whether the grid has five rows of six cells.
pub open spec fn shaped(g: Grid) -> bool {
    &&& g.len() == ROWS
    &&& forall|r: int| 0 <= r < ROWS ==> (#[trigger] g[r]).len() == COLS
}

/// Whether the grid is a board: of the right shape, with a wall in every
/// border cell and in no playable cell.
pub open spec fn is_board(g: Grid) -> bool {
    &&& shaped(g)
    &&& forall|r: int, c: int|
        in_grid(r, c) ==> ((#[trigger] g[r][c]) == GameItem::Wall <==> !playable(r, c))
}

/// The board before any move: walls around an empty field.
pub open spec fn empty_board() -> Grid {
    Seq::new(
        ROWS as nat,
        |r: int|
            Seq::new(
                COLS as nat,
                |c: int|
                    if playable(r, c) {
                        GameItem::Empty
                    } else {
                        GameItem::Wall
                    },
            ),
    )
}

/// The grid with `item` in cell `(r, c)` and every other cell as before.
pub open spec fn with_cell(g: Grid, r: int, c: int, item: GameItem) -> Grid {
    g.update(r, g[r].update(c, item))
}

/// The `i`-th cell of line `k`, as (row, column). Lines 0 to 3 are the rows
/// from the top, lines 4 to 7 the columns from the left, line 8 the diagonal
/// from the top left, line 9 the diagonal from the top right.
pub open spec fn line_cell(k: int, i: int) -> (int, int) {
    if k < 4 {
        (k, i + 1)
    } else if k < 8 {
        (i, k - 3)
    } else if k == 8 {
        (i, i + 1)
    } else {
        (i, 4 - i)
    }
}

/// The item in the `i`-th cell of line `k`.
pub open spec fn line_item(g: Grid, k: int, i: int) -> GameItem {
    g[line_cell(k, i).0][line_cell(k, i).1]
}

/// The team that holds all four cells of line `k`, if one does.
pub open spec fn line_owner(g: Grid, k: int) -> Option<GameItem> {
    let first = line_item(g, k, 0);
    if first != GameItem::Empty && line_item(g, k, 1) == first && line_item(g, k, 2) == first
        && line_item(g, k, 3) == first {
        Some(first)
    } else {
        None
    }
}

/// The owner of the first held line among lines `from`, `from + 1`, ..., 9.
pub open spec fn first_owner_from(g: Grid, from: int) -> Option<GameItem>
    decreases LINES - from,
{
    if from >= LINES {
        None
    } else if line_owner(g, from) is Some {
        line_owner(g, from)
    } else {
        first_owner_from(g, from + 1)
    }
}

/// The owner of the first held line in the fixed order of the lines: rows,
/// then columns, then the two diagonals.
pub open spec fn line_winner(g: Grid) -> Option<GameItem> {
    first_owner_from(g, 0)
}

/// Whether no team holds a line.
pub open spec fn no_line_held(g: Grid) -> bool {
    forall|k: int| 0 <= k < LINES ==> (#[trigger] line_owner(g, k)) is None
}

/// The row on which a piece dropped into column `c` comes to rest: the lowest
/// empty cell of the column, if it has one.
pub open spec fn landing_row(g: Grid, c: int) -> Option<int> {
    if g[3][c] == GameItem::Empty {
        Some(3)
    } else if g[2][c] == GameItem::Empty {
        Some(2)
    } else if g[1][c] == GameItem::Empty {
        Some(1)
    } else if g[0][c] == GameItem::Empty {
        Some(0)
    } else {
        None
    }
}

/// Whether the top cell of column `c` is taken.
pub open spec fn column_full(g: Grid, c: int) -> bool {
    g[0][c] != GameItem::Empty
}

/// Whether the top row of the field has no empty cell.
pub open spec fn top_row_full(g: Grid) -> bool {
    forall|c: int| playable_column(c) ==> (#[trigger] g[0][c]) != GameItem::Empty
}

/// A board stays a board when a playable cell is given anything but a wall.
pub proof fn lemma_with_cell_is_board(g: Grid, r: int, c: int, item: GameItem)
    requires
        is_board(g),
        playable(r, c),
        item != GameItem::Wall,
    ensures
        is_board(with_cell(g, r, c, item)),
        with_cell(g, r, c, item)[r][c] == item,
        forall|r2: int, c2: int|
            in_grid(r2, c2) && (r2 != r || c2 != c) ==> (#[trigger] with_cell(g, r, c, item)[r2][c2])
                == g[r2][c2],
{
    let h = with_cell(g, r, c, item);
    assert forall|r2: int, c2: int| in_grid(r2, c2) implies ((#[trigger] h[r2][c2])
        == GameItem::Wall <==> !playable(r2, c2)) by {
        assert(g[r2][c2] == GameItem::Wall <==> !playable(r2, c2));
    }
}

/// What `first_owner_from` finds: a team's piece that holds some line at or
/// after `from` while no line between `from` and that one is held; or, where
/// it finds nothing, that no line from `from` on is held.
pub proof fn lemma_first_owner(g: Grid, from: int)
    requires
        is_board(g),
        0 <= from <= LINES,
    ensures
        match first_owner_from(g, from) {
            Some(w) => w.is_piece() && exists|k: int|
                from <= k < LINES && #[trigger] line_owner(g, k) == Some(w) && forall|j: int|
                    from <= j < k ==> (#[trigger] line_owner(g, j)) is None,
            None => forall|k: int| from <= k < LINES ==> (#[trigger] line_owner(g, k)) is None,
        },
    decreases LINES - from,
{
    if from < LINES {
        if line_owner(g, from) is Some {
            let (r, c) = line_cell(from, 0);
            assert(playable(r, c));
            assert(g[r][c] != GameItem::Wall);
        } else {
            lemma_first_owner(g, from + 1);
            if let Some(w) = first_owner_from(g, from + 1) {
                let k = choose|k: int|
                    from + 1 <= k < LINES && #[trigger] line_owner(g, k) == Some(w) && forall|j: int|
                        from + 1 <= j < k ==> (#[trigger] line_owner(g, j)) is None;
                assert(from <= k < LINES && line_owner(g, k) == Some(w) && forall|j: int|
                    from <= j < k ==> (#[trigger] line_owner(g, j)) is None);
            }
        }
    }
}

/// Lines that no team holds do not count: the first owner from `from` on is
/// the first owner from `to` on when no line between them is held.
pub proof fn lemma_first_owner_skips(g: Grid, from: int, to: int)
    requires
        0 <= from <= to <= LINES,
        forall|k: int| from <= k < to ==> (#[trigger] line_owner(g, k)) is None,
    ensures
        first_owner_from(g, from) == first_owner_from(g, to),
    decreases to - from,
{
    if from < to {
        lemma_first_owner_skips(g, from + 1, to);
    }
}

} // verus!
