//! The game as a mathematical state, and what each operation makes of it.

use vstd::prelude::*;
use crate::coins::seeded_coin;
use crate::grid::{
    column_full, empty_board, is_board, landing_row, line_winner, playable, playable_column,
    top_row_full, with_cell, Grid, COLS, FIELD, ROWS,
};
use crate::item::GameItem;

verus! {

/// The seed that a new game, and every reset, gives the game's generator.
pub const SEED: u64 = 2024;

/// Number of cells that a random board fills.
pub const FIELD_CELLS: usize = 16;

/// Why a drop was refused.
#[derive(Clone, Copy, Debug, PartialEq, Eq, Structural)]
pub enum DropError {
    /// The top cell of the column is taken.
    ColumnFull,
    /// The game is over: a team has won or the board is full.
    GameOver,
    /// The item is no team's piece, or the column is not one of 1 to 4.
    InvalidInput,
}

/// The state of a game.
pub struct GameView {
    /// The cells, row by row from the top.
    pub cells: Grid,
    /// The team that has won, once one has.
    pub winner: Option<GameItem>,
    /// Whether the last drop found the top row without an empty cell.
    pub board_full: bool,
    /// How many coins the generator has tossed since it was seeded.
    pub drawn: nat,
}

/// The text of the grid: each row's six glyphs followed by a line break.
pub open spec fn grid_text(g: Grid) -> Seq<char> {
    Seq::new(
        (ROWS * (COLS + 1)) as nat,
        |k: int|
            if k % (COLS + 1) == COLS as int {
                '\n'
            } else {
                g[k / (COLS + 1)][k % (COLS + 1)].glyph()
            },
    )
}

/// The line under the grid: the winner, or that nobody won a full board, or
/// nothing while the game goes on.
pub open spec fn status_text(winner: Option<GameItem>, board_full: bool) -> Seq<char> {
    match winner {
        Some(w) => seq![w.glyph()] + " wins!\n"@,
        None => if board_full {
            "No winner.\n"@
        } else {
            Seq::empty()
        },
    }
}

/// The move that a team's name and a column number ask for: the team's piece
/// and the column, where the name is a team's and the column is one of 1 to 4.
pub open spec fn read_move(team: Seq<char>, column: int) -> Option<(GameItem, int)> {
    match GameItem::named(team) {
        Some(item) => if playable_column(column) {
            Some((item, column))
        } else {
            None
        },
        None => None,
    }
}

/// The board that has, in the first `n` cells of the field counted row by row
/// from the top left, the teams picked by the coins that a seeded generator
/// tosses from its toss number `from` on, and elsewhere what `g` has.
pub open spec fn coin_cells(g: Grid, from: nat, n: nat) -> Grid {
    Seq::new(
        ROWS as nat,
        |r: int|
            Seq::new(
                COLS as nat,
                |c: int|
                    if playable(r, c) && FIELD * r + c - 1 < n {
                        GameItem::of_coin(seeded_coin(SEED, (from + FIELD * r + c - 1) as nat))
                    } else {
                        g[r][c]
                    },
            ),
    )
}

impl GameView {
    /// Whether the state is one that a game can be in: the cells form a board,
    /// the winner is a team, a held line has its owner recorded as the winner,
    /// and a board marked full has a full top row.
    pub open spec fn wf(self) -> bool {
        &&& is_board(self.cells)
        &&& self.winner matches Some(w) ==> w.is_piece()
        &&& line_winner(self.cells) matches Some(w) ==> self.winner == Some(w)
        &&& self.board_full ==> top_row_full(self.cells)
    }

    /// The state of a new game: an empty board, no winner, a generator that
    /// has just been seeded.
    pub open spec fn initial() -> GameView {
        GameView { cells: empty_board(), winner: None, board_full: false, drawn: 0 }
    }

    /// The state after a reset, whatever it was before.
    pub open spec fn reset(self) -> GameView {
        GameView::initial()
    }

    /// Whether the game is over.
    pub open spec fn finished(self) -> bool {
        self.winner is Some || self.board_full
    }

    /// The state after the lines have been checked: the owner of the first
    /// held line becomes the winner; with no held line the winner stays.
    pub open spec fn checked(self) -> GameView {
        GameView {
            winner: match line_winner(self.cells) {
                Some(w) => Some(w),
                None => self.winner,
            },
            ..self
        }
    }

    /// The state after `item` was let fall into column `c`: it rests on the
    /// lowest empty cell, if there is one; then the lines are checked and the
    /// top row is examined.
    pub open spec fn put_item(self, item: GameItem, c: int) -> GameView {
        let cells = match landing_row(self.cells, c) {
            Some(r) => with_cell(self.cells, r, c, item),
            None => self.cells,
        };
        GameView { board_full: top_row_full(cells), ..GameView { cells, ..self }.checked() }
    }

    /// The state after `item` was written into cell `(r, c)` and the lines
    /// were checked. Whether the board counts as full is left as it was.
    pub open spec fn put_random_item(self, item: GameItem, r: int, c: int) -> GameView {
        GameView { cells: with_cell(self.cells, r, c, item), ..self }.checked()
    }

    /// What a drop of `item` into column `c` comes to: the state after it, or
    /// the reason it is refused. A finished game refuses before a full column
    /// does.
    pub open spec fn drop_piece(self, item: GameItem, c: int) -> Result<GameView, DropError> {
        if !item.is_piece() || !playable_column(c) {
            Err(DropError::InvalidInput)
        } else if self.finished() {
            Err(DropError::GameOver)
        } else if column_full(self.cells, c) {
            Err(DropError::ColumnFull)
        } else {
            Ok(self.put_item(item, c))
        }
    }

    /// The state that an attempt to drop `item` into column `c` leaves: the
    /// state after the drop where it is accepted, the same state where it is
    /// refused.
    pub open spec fn after_drop(self, item: GameItem, c: int) -> GameView {
        match self.drop_piece(item, c) {
            Ok(after) => after,
            Err(_) => self,
        }
    }

    /// What a drop for the team called `team` into column `c` comes to. A
    /// name that is no team's, or a column that is none, is invalid input.
    pub open spec fn place(self, team: Seq<char>, c: int) -> Result<GameView, DropError> {
        match read_move(team, c) {
            Some((item, column)) => self.drop_piece(item, column),
            None => Err(DropError::InvalidInput),
        }
    }

    /// The state after the generator tossed one coin for cell number `k` of
    /// the field, counted row by row from the top left, and the team it picked
    /// was written there.
    pub open spec fn seed_cell(self, k: int) -> GameView {
        let item = GameItem::of_coin(seeded_coin(SEED, self.drawn));
        GameView { drawn: self.drawn + 1, ..self }.put_random_item(
            item,
            k / (FIELD as int),
            k % (FIELD as int) + 1,
        )
    }

    /// The state after the first `n` cells of the field were filled by coin
    /// tosses, one after the other.
    pub open spec fn seeded(self, n: nat) -> GameView
        decreases n,
    {
        if n == 0 {
            self
        } else {
            self.seeded((n - 1) as nat).seed_cell(n - 1)
        }
    }

    /// The state after the whole field was filled by coin tosses. Pieces
    /// already on the board are overwritten; a winner recorded before stays
    /// unless a held line names another.
    pub open spec fn random_board(self) -> GameView {
        self.seeded(FIELD_CELLS as nat)
    }

    /// The text that shows the state: the grid, then the status line.
    pub open spec fn render(self) -> Seq<char> {
        grid_text(self.cells) + status_text(self.winner, self.board_full)
    }
}

} // verus!
