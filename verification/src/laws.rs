//! What holds of every game, proved from the definitions of the operations.

use vstd::prelude::*;
use crate::grid::{
    column_full, empty_board, in_grid, is_board, landing_row, lemma_first_owner, lemma_with_cell_is_board, line_cell, line_item, line_owner, line_winner,
    no_line_held, playable, playable_column, top_row_full, with_cell, Grid, LINES,
};
use crate::item::GameItem;
use crate::state::{coin_cells, grid_text, DropError, GameView, FIELD_CELLS};

verus! {

/// A line that becomes held when a piece is written into a playable cell of a
/// board on which that line was not held is held by that piece's team.
pub proof fn lemma_new_line_belongs_to_piece(g: Grid, r: int, c: int, item: GameItem, k: int)
    requires
        is_board(g),
        playable(r, c),
        item.is_piece(),
        0 <= k < LINES,
        line_owner(g, k) is None,
        line_owner(with_cell(g, r, c, item), k) is Some,
    ensures
        line_owner(with_cell(g, r, c, item), k) == Some(item),
{
    let h = with_cell(g, r, c, item);
    lemma_with_cell_is_board(g, r, c, item);
    assert forall|i: int| 0 <= i < 4 implies #[trigger] line_item(h, k, i) == if line_cell(k, i)
        == (r, c) {
        item
    } else {
        line_item(g, k, i)
    } by {
        let (r2, c2) = line_cell(k, i);
        assert(in_grid(r2, c2));
    }
    // Naming the four cells of the line applies the fact above to each.
    assert(line_item(h, k, 0) == line_item(h, k, 0));
    assert(line_item(h, k, 1) == line_item(h, k, 1));
    assert(line_item(h, k, 2) == line_item(h, k, 2));
    assert(line_item(h, k, 3) == line_item(h, k, 3));
}

/// A game that is not over has no held line on its board.
pub proof fn lemma_running_game_has_no_line(v: GameView)
    requires
        v.wf(),
        !v.finished(),
    ensures
        no_line_held(v.cells),
{
    lemma_first_owner(v.cells, 0);
}

/// An accepted drop puts the piece on the lowest empty cell of its column and
/// leaves every other cell as it was.
pub proof fn lemma_drop_lands_on_lowest_empty(v: GameView, item: GameItem, c: int)
    requires
        v.wf(),
        v.drop_piece(item, c) is Ok,
    ensures
        ({
            let after = v.drop_piece(item, c)->Ok_0;
            &&& after.wf()
            &&& landing_row(v.cells, c) matches Some(r) && 0 <= r < 4 && v.cells[r][c]
                == GameItem::Empty && after.cells == with_cell(v.cells, r, c, item)
                && after.cells[r][c] == item && (forall|below: int|
                r < below < 4 ==> (#[trigger] v.cells[below][c]) != GameItem::Empty)
            &&& after.drawn == v.drawn
        }),
{
    let r = landing_row(v.cells, c)->0;
    lemma_with_cell_is_board(v.cells, r, c, item);
    let after = v.drop_piece(item, c)->Ok_0;
    lemma_first_owner(after.cells, 0);
}

/// On an empty board four pieces dropped into one column by the two teams in
/// turn fill it from the bottom row up, and a fifth drop into that column is
/// refused because the column is full.
pub proof fn lemma_column_fills_from_the_bottom(v: GameView, c: int, a: GameItem, b: GameItem)
    requires
        v.cells == empty_board(),
        !v.finished(),
        playable_column(c),
        a.is_piece(),
        b.is_piece(),
        a != b,
    ensures
        ({
            let s1 = v.after_drop(a, c);
            let s2 = s1.after_drop(b, c);
            let s3 = s2.after_drop(a, c);
            let s4 = s3.after_drop(b, c);
            &&& v.drop_piece(a, c) is Ok
            &&& s1.drop_piece(b, c) is Ok
            &&& s2.drop_piece(a, c) is Ok
            &&& s3.drop_piece(b, c) is Ok
            &&& s1.cells == with_cell(v.cells, 3, c, a)
            &&& s2.cells == with_cell(s1.cells, 2, c, b)
            &&& s3.cells == with_cell(s2.cells, 1, c, a)
            &&& s4.cells == with_cell(s3.cells, 0, c, b)
            &&& s4.winner is None
            &&& forall|item: GameItem|
                item.is_piece() ==> #[trigger] s4.drop_piece(item, c) == Err::<GameView, DropError>(
                    DropError::ColumnFull,
                )
            &&& forall|item: GameItem| #[trigger] s4.after_drop(item, c) == s4
        }),
{
    let g0 = v.cells;
    let g1 = with_cell(g0, 3, c, a);
    let g2 = with_cell(g1, 2, c, b);
    let g3 = with_cell(g2, 1, c, a);
    let g4 = with_cell(g3, 0, c, b);
    assert(is_board(g0));
    lemma_with_cell_is_board(g0, 3, c, a);
    lemma_with_cell_is_board(g1, 2, c, b);
    lemma_with_cell_is_board(g2, 1, c, a);
    lemma_with_cell_is_board(g3, 0, c, b);
    assert(landing_row(g0, c) == Some(3int));
    assert(landing_row(g1, c) == Some(2int));
    assert(landing_row(g2, c) == Some(1int));
    assert(landing_row(g3, c) == Some(0int));
    lemma_lone_column_holds_no_line(g0, c);
    lemma_lone_column_holds_no_line(g1, c);
    lemma_lone_column_holds_no_line(g2, c);
    lemma_lone_column_holds_no_line(g3, c);
    lemma_lone_column_holds_no_line(g4, c);
    assert(!top_row_full(g1) && !top_row_full(g2) && !top_row_full(g3) && !top_row_full(g4)) by {
        let other = if c == 1 {
            2int
        } else {
            1int
        };
        assert(playable_column(other));
        assert(g1[0][other] == GameItem::Empty);
        assert(g2[0][other] == GameItem::Empty);
        assert(g3[0][other] == GameItem::Empty);
        assert(g4[0][other] == GameItem::Empty);
    }
}

/// A board whose pieces all stand in one column has no held line, unless one
/// team holds that column.
pub proof fn lemma_lone_column_holds_no_line(g: Grid, c: int)
    requires
        is_board(g),
        playable_column(c),
        forall|r: int, c2: int|
            playable(r, c2) && c2 != c ==> (#[trigger] g[r][c2]) == GameItem::Empty,
        line_owner(g, c + 3) is None,
    ensures
        no_line_held(g),
        line_winner(g) is None,
{
    assert forall|k: int| 0 <= k < LINES implies (#[trigger] line_owner(g, k)) is None by {
        if k != c + 3 {
            if line_owner(g, k) is Some {
                assert forall|i: int| 0 <= i < 4 implies line_cell(k, i).1 == c by {
                    let (r2, c2) = line_cell(k, i);
                    assert(playable(r2, c2));
                    assert(line_item(g, k, i) == g[r2][c2]);
                    assert(line_item(g, k, i) == line_item(g, k, 0));
                }
                assert(line_cell(k, 0).1 == c);
                assert(line_cell(k, 1).1 == c);
            }
        }
    }
    lemma_first_owner(g, 0);
}

/// Once a drop completes a line of four, in a row, a column or a diagonal, the
/// team that dropped the piece is the winner, and every further drop is
/// refused because the game is over.
pub proof fn lemma_completed_line_wins(v: GameView, item: GameItem, c: int, k: int)
    requires
        v.wf(),
        v.drop_piece(item, c) is Ok,
        0 <= k < LINES,
        line_owner(v.drop_piece(item, c)->Ok_0.cells, k) is Some,
    ensures
        line_owner(v.drop_piece(item, c)->Ok_0.cells, k) == Some(item),
        v.drop_piece(item, c)->Ok_0.winner == Some(item),
        forall|next: GameItem, column: int|
            next.is_piece() && playable_column(column) ==> #[trigger] v.drop_piece(
                item,
                c,
            )->Ok_0.drop_piece(next, column) == Err::<GameView, DropError>(DropError::GameOver),
{
    let after = v.drop_piece(item, c)->Ok_0;
    let r = landing_row(v.cells, c)->0;
    lemma_drop_lands_on_lowest_empty(v, item, c);
    lemma_running_game_has_no_line(v);
    lemma_first_owner(after.cells, 0);
    assert(line_owner(v.cells, k) is None);
    lemma_new_line_belongs_to_piece(v.cells, r, c, item, k);
    let w = line_winner(after.cells)->0;
    let first = choose|j: int| 0 <= j < LINES && #[trigger] line_owner(after.cells, j) == Some(w);
    assert(line_owner(v.cells, first) is None);
    lemma_new_line_belongs_to_piece(v.cells, r, c, item, first);
}

/// When a drop fills the top row and leaves no line held, the board is full,
/// nobody has won, the rendered board ends in "No winner.", and every further
/// drop is refused because the game is over.
pub proof fn lemma_full_board_without_line_is_a_draw(v: GameView, item: GameItem, c: int)
    requires
        v.wf(),
        v.drop_piece(item, c) is Ok,
        top_row_full(v.drop_piece(item, c)->Ok_0.cells),
        no_line_held(v.drop_piece(item, c)->Ok_0.cells),
    ensures
        v.drop_piece(item, c)->Ok_0.board_full,
        v.drop_piece(item, c)->Ok_0.winner is None,
        v.drop_piece(item, c)->Ok_0.render() == grid_text(v.drop_piece(item, c)->Ok_0.cells)
            + "No winner.\n"@,
        forall|next: GameItem, column: int|
            next.is_piece() && playable_column(column) ==> #[trigger] v.drop_piece(
                item,
                c,
            )->Ok_0.drop_piece(next, column) == Err::<GameView, DropError>(DropError::GameOver),
{
    let after = v.drop_piece(item, c)->Ok_0;
    lemma_first_owner(after.cells, 0);
}

/// A drop is refused for being invalid before it is refused because the game
/// is over, and for that before it is refused because the column is full; a
/// refused drop leaves the game as it was.
pub proof fn lemma_refusals(v: GameView, item: GameItem, c: int)
    ensures
        v.drop_piece(item, c) is Err ==> v.after_drop(item, c) == v,
        v.drop_piece(item, c) == Err::<GameView, DropError>(DropError::InvalidInput) <==> !(
        item.is_piece() && playable_column(c)),
        v.drop_piece(item, c) == Err::<GameView, DropError>(DropError::GameOver) <==> item.is_piece()
            && playable_column(c) && v.finished(),
        v.drop_piece(item, c) == Err::<GameView, DropError>(DropError::ColumnFull)
            <==> item.is_piece() && playable_column(c) && !v.finished() && column_full(v.cells, c),
{
}

/// Filling the first `n` cells of the field by coin tosses writes, into each
/// of them, the team that the generator's next coin picks, in the order of the
/// cells; it leaves the other cells and the fullness mark alone, and moves the
/// generator on by `n` tosses.
pub proof fn lemma_seeded_cells(v: GameView, n: nat)
    requires
        v.wf(),
        n <= FIELD_CELLS,
    ensures
        v.seeded(n).wf(),
        v.seeded(n).cells == coin_cells(v.cells, v.drawn, n),
        v.seeded(n).drawn == v.drawn + n,
        v.seeded(n).board_full == v.board_full,
    decreases n,
{
    if n == 0 {
        assert(v.cells =~~= coin_cells(v.cells, v.drawn, 0));
    } else {
        let k = (n - 1) as nat;
        let prev = v.seeded(k);
        lemma_seeded_cells(v, k);
        let r = k as int / 4;
        let c = k as int % 4 + 1;
        let item = GameItem::of_coin(crate::coins::seeded_coin(crate::state::SEED, prev.drawn));
        let after = prev.seed_cell(k as int);
        assert(after == v.seeded(n));
        lemma_with_cell_is_board(prev.cells, r, c, item);
        lemma_first_owner(after.cells, 0);
        assert(after.cells =~~= coin_cells(v.cells, v.drawn, n));
        if v.board_full {
            assert forall|c2: int| playable_column(c2) implies (#[trigger] after.cells[0][c2])
                != GameItem::Empty by {
                assert(prev.cells[0][c2] != GameItem::Empty);
            }
        }
    }
}

/// On a board that was empty, the winner after the first `n` cells were filled
/// by coin tosses is the owner of the first held line, if a line is held.
pub proof fn lemma_seeded_winner(v: GameView, n: nat)
    requires
        v.cells == empty_board(),
        v.winner is None,
        !v.board_full,
        n <= FIELD_CELLS,
    ensures
        v.seeded(n).winner == line_winner(v.seeded(n).cells),
    decreases n,
{
    lemma_first_owner(v.cells, 0);
    assert(no_line_held(v.cells)) by {
        assert forall|k: int| 0 <= k < LINES implies (#[trigger] line_owner(v.cells, k)) is None by {
            let (r, c) = line_cell(k, 0);
            assert(playable(r, c));
        }
    }
    assert(v.wf());
    if n > 0 {
        let k = (n - 1) as nat;
        let prev = v.seeded(k);
        let after = v.seeded(n);
        lemma_seeded_winner(v, k);
        lemma_seeded_cells(v, k);
        lemma_seeded_cells(v, n);
        lemma_first_owner(prev.cells, 0);
        lemma_first_owner(after.cells, 0);
        if line_winner(after.cells) is None && line_winner(prev.cells) is Some {
            let w = line_winner(prev.cells)->0;
            let held = choose|j: int| 0 <= j < LINES && #[trigger] line_owner(prev.cells, j) == Some(w);
            assert forall|i: int| 0 <= i < 4 implies line_item(after.cells, held, i) == line_item(
                prev.cells,
                held,
                i,
            ) by {
                let (r, c) = line_cell(held, i);
                assert(playable(r, c));
                assert(line_item(prev.cells, held, i) == line_item(prev.cells, held, 0));
                assert(prev.cells[r][c] != GameItem::Empty);
            }
            assert(line_item(after.cells, held, 0) == line_item(prev.cells, held, 0));
            assert(line_item(after.cells, held, 1) == line_item(prev.cells, held, 1));
            assert(line_item(after.cells, held, 2) == line_item(prev.cells, held, 2));
            assert(line_item(after.cells, held, 3) == line_item(prev.cells, held, 3));
            assert(line_owner(after.cells, held) is Some);
        }
    }
}

/// A random board filled right after a reset, or in a new game, holds in each
/// cell of the field the team picked by one of the first sixteen coins of the
/// freshly seeded generator, row by row from the top left. Its winner is the
/// owner of its first held line, and it is not marked full.
pub proof fn lemma_random_board_after_reset(v: GameView)
    ensures
        v.reset().random_board().cells == coin_cells(empty_board(), 0, FIELD_CELLS as nat),
        v.reset().random_board().winner == line_winner(v.reset().random_board().cells),
        !v.reset().random_board().board_full,
        v.reset().random_board().drawn == FIELD_CELLS,
        v.reset().random_board().wf(),
        forall|r: int, c: int|
            playable(r, c) ==> (#[trigger] v.reset().random_board().cells[r][c]).is_piece(),
{
    let start = GameView::initial();
    lemma_first_owner(start.cells, 0);
    lemma_seeded_winner(start, FIELD_CELLS as nat);
    lemma_seeded_cells(start, FIELD_CELLS as nat);
}

/// Resetting and then filling a random board ends in one and the same state,
/// and so in one and the same rendered text, whatever the game was before: the
/// reset seeds the generator anew.
pub proof fn lemma_reset_then_random_board_is_fixed(a: GameView, b: GameView)
    ensures
        a.reset().random_board() == b.reset().random_board(),
        a.reset().random_board() == GameView::initial().random_board(),
        a.reset().random_board().render() == b.reset().random_board().render(),
{
}

} // verus!
