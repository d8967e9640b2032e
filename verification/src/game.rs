//! The game itself: a board, its status, and the generator that fills random
//! boards.

use vstd::prelude::*;
use rand::rngs::StdRng;
use crate::coins::{seeded_coin, seeded_rng, toss, upcoming_coin};
use crate::grid::{
    column_full, empty_board, in_grid, is_board, landing_row, lemma_first_owner,
    lemma_first_owner_skips, lemma_with_cell_is_board, line_owner, playable, playable_column,
    top_row_full, with_cell, Grid, COLS, FIELD, LINES, ROWS,
};
use crate::item::GameItem;
use crate::state::{grid_text, DropError, GameView, SEED};

verus! {

/// Whether `rng` yields from now on what a generator seeded with `SEED` yields
/// after `drawn` tosses.
spec fn tosses_follow_seed(rng: StdRng, drawn: nat) -> bool {
    forall|k: nat| upcoming_coin(rng, k) == seeded_coin(SEED, drawn + k)
}

/// Reads a move from a team's name and a column number, before any game is
/// touched: `None` unless the name is "cookie" or "milk" and the column is one
/// of 1 to 4.
pub fn read_move(team: &str, column: i32) -> (valid: Option<(GameItem, usize)>)
    ensures
        match crate::state::read_move(team@, column as int) {
            Some((item, c)) => valid == Some((item, c as usize)) && item.is_piece()
                && playable_column(c),
            None => valid is None,
        },
{
    let item = match GameItem::from_name(team) {
        Some(item) => item,
        None => {
            return None;
        },
    };
    if column < 1 || column > 4 {
        return None;
    }
    Some((item, column as usize))
}

/// A game of four in a row.
pub struct Game {
    board: [[GameItem; 6]; 5],
    winner: Option<GameItem>,
    board_full: bool,
    rng: StdRng,
    drawn: Ghost<nat>,
}

/// The grid that the array holds.
pub open spec fn grid_of(board: [[GameItem; 6]; 5]) -> Grid {
    Seq::new(ROWS as nat, |r: int| Seq::new(COLS as nat, |c: int| board[r][c]))
}

impl View for Game {
    type V = GameView;

    closed spec fn view(&self) -> GameView {
        GameView {
            cells: grid_of(self.board),
            winner: self.winner,
            board_full: self.board_full,
            drawn: self.drawn@,
        }
    }
}

impl Game {
    /// Whether the generator stands where `drawn` tosses after seeding leave
    /// it.
    pub closed spec fn in_step(&self) -> bool {
        tosses_follow_seed(self.rng, self.drawn@)
    }

    /// Whether the game is in a state that its operations keep it in.
    pub open spec fn wf(&self) -> bool {
        self@.wf() && self.in_step()
    }

    /// Makes the array the board of a new game: walls around an empty field.
    pub fn reset_board(board: &mut [[GameItem; 6]; 5])
        ensures
            grid_of(*final(board)) == empty_board(),
    {
        let mut i: usize = 0;
        while i < FIELD
            invariant
                i <= FIELD,
                forall|r: int, c: int|
                    0 <= r < i && 0 <= c < COLS ==> (#[trigger] board[r][c])
                        == empty_board()[r][c],
            decreases FIELD - i,
        {
            board[i][0] = GameItem::Wall;
            let mut j: usize = 1;
            while j <= FIELD
                invariant
                    1 <= j <= FIELD + 1,
                    i < FIELD,
                    board[i as int][0] == GameItem::Wall,
                    forall|c: int|
                        1 <= c < j ==> (#[trigger] board[i as int][c]) == GameItem::Empty,
                    forall|r: int, c: int|
                        0 <= r < i && 0 <= c < COLS ==> (#[trigger] board[r][c])
                            == empty_board()[r][c],
                decreases FIELD + 1 - j,
            {
                board[i][j] = GameItem::Empty;
                j += 1;
            }
            board[i][5] = GameItem::Wall;
            i += 1;
        }
        let mut j: usize = 0;
        while j < COLS
            invariant
                j <= COLS,
                forall|c: int| 0 <= c < j ==> (#[trigger] board[4][c]) == GameItem::Wall,
                forall|r: int, c: int|
                    0 <= r < FIELD && 0 <= c < COLS ==> (#[trigger] board[r][c])
                        == empty_board()[r][c],
            decreases COLS - j,
        {
            board[4][j] = GameItem::Wall;
            j += 1;
        }
        assert(grid_of(*board) =~~= empty_board());
    }

    /// A new game: an empty board, no winner, the generator seeded.
    pub fn new() -> (game: Game)
        ensures
            game.wf(),
            game@ == GameView::initial(),
    {
        let mut board = [[GameItem::Empty; 6]; 5];
        Self::reset_board(&mut board);
        let game = Game {
            board,
            winner: None,
            board_full: false,
            rng: seeded_rng(SEED),
            drawn: Ghost(0),
        };
        proof {
            lemma_first_owner(game@.cells, 0);
        }
        game
    }

    /// Puts the game back into the state of a new one, generator included.
    pub fn reset(&mut self)
        ensures
            final(self).wf(),
            final(self)@ == old(self)@.reset(),
    {
        Self::reset_board(&mut self.board);
        self.winner = None;
        self.board_full = false;
        self.rng = seeded_rng(SEED);
        self.drawn = Ghost(0);
        proof {
            lemma_first_owner(self@.cells, 0);
        }
    }

    /// The team that has won, once one has.
    pub fn winner(&self) -> (winner: Option<GameItem>)
        ensures
            winner == self@.winner,
    {
        self.winner
    }

    /// Whether the last drop found the top row without an empty cell.
    pub fn is_full(&self) -> (full: bool)
        ensures
            full == self@.board_full,
    {
        self.board_full
    }

    /// What the cell in row `row` and column `column` holds.
    pub fn cell(&self, row: usize, column: usize) -> (item: GameItem)
        requires
            in_grid(row as int, column as int),
        ensures
            item == self@.cells[row as int][column as int],
    {
        self.board[row][column]
    }

    /// Whether the top cell of the column is taken.
    pub fn is_column_full(&self, column: usize) -> (full: bool)
        requires
            column < COLS,
        ensures
            full == column_full(self@.cells, column as int),
    {
        self.board[0][column] != GameItem::Empty
    }

    /// Whether the game is over: a team has won or the board is full.
    pub fn is_finished(&self) -> (finished: bool)
        ensures
            finished == self@.finished(),
    {
        self.winner.is_some() || self.board_full
    }

    /// Lets `item` fall into the column, then checks the lines and the top
    /// row. A column without an empty cell takes no piece.
    pub fn put_item(&mut self, item: GameItem, column: usize)
        requires
            old(self).wf(),
            item.is_piece(),
            playable_column(column as int),
        ensures
            final(self).wf(),
            final(self)@ == old(self)@.put_item(item, column as int),
    {
        let ghost before = self@;
        let mut i: usize = FIELD;
        let mut placed = false;
        while i > 0 && !placed
            invariant
                i <= FIELD,
                playable_column(column as int),
                item.is_piece(),
                is_board(before.cells),
                self.in_step() == old(self).in_step(),
                self@.winner == before.winner,
                self@.board_full == before.board_full,
                self@.drawn == before.drawn,
                !placed ==> self@.cells == before.cells && forall|r: int|
                    i <= r < FIELD ==> (#[trigger] before.cells[r][column as int])
                        != GameItem::Empty,
                placed ==> landing_row(before.cells, column as int) == Some(i as int)
                    && self@.cells == with_cell(before.cells, i as int, column as int, item),
            decreases i + if placed { 0int } else { 1int },
        {
            i -= 1;
            if self.board[i][column] == GameItem::Empty {
                self.board[i][column] = item;
                placed = true;
                assert(self@.cells =~~= with_cell(before.cells, i as int, column as int, item));
            }
        }
        proof {
            lemma_with_cell_is_board(before.cells, i as int, column as int, item);
        }
        self.check_win();
        let mut full = true;
        let mut j: usize = 0;
        while j < COLS
            invariant
                j <= COLS,
                is_board(self@.cells),
                full <==> forall|c: int|
                    0 <= c < j ==> (#[trigger] self@.cells[0][c]) != GameItem::Empty,
            decreases COLS - j,
        {
            let ghost sofar = full;
            full = full && self.board[0][j] != GameItem::Empty;
            proof {
                let cells = self@.cells;
                assert(cells[0][j as int] == self.board[0][j as int]);
                if full {
                    assert forall|c: int| 0 <= c < j + 1 implies (#[trigger] cells[0][c])
                        != GameItem::Empty by {
                        if c < j {
                            assert(sofar);
                        }
                    }
                }
            }
            j += 1;
        }
        self.board_full = full;
        proof {
            let cells = self@.cells;
            assert(full == top_row_full(cells)) by {
                if top_row_full(cells) {
                    assert forall|c: int| 0 <= c < COLS implies (#[trigger] cells[0][c])
                        != GameItem::Empty by {
                        if !playable_column(c) {
                            assert(in_grid(0, c) && !playable(0, c));
                        }
                    }
                }
            }
            lemma_first_owner(cells, 0);
        }
    }

    /// Writes `item` into a cell of the field, whatever it held, and checks
    /// the lines. Whether the board counts as full is left as it was.
    pub fn put_random_item(&mut self, item: GameItem, row: usize, column: usize)
        requires
            old(self).wf(),
            item.is_piece(),
            playable(row as int, column as int),
        ensures
            final(self).wf(),
            final(self)@ == old(self)@.put_random_item(item, row as int, column as int),
    {
        let ghost before = self@;
        self.board[row][column] = item;
        proof {
            assert(self@.cells =~~= with_cell(before.cells, row as int, column as int, item));
            lemma_with_cell_is_board(before.cells, row as int, column as int, item);
        }
        self.check_win();
        proof {
            lemma_first_owner(self@.cells, 0);
            if before.board_full {
                assert forall|c: int| playable_column(c) implies (#[trigger] self@.cells[0][c])
                    != GameItem::Empty by {
                    assert(before.cells[0][c] != GameItem::Empty);
                }
            }
        }
    }

    /// Tosses the generator's next coin.
    fn toss_coin(&mut self) -> (heads: bool)
        requires
            old(self).in_step(),
        ensures
            final(self).in_step(),
            heads == seeded_coin(SEED, old(self)@.drawn),
            final(self)@ == (GameView { drawn: old(self)@.drawn + 1, ..old(self)@ }),
    {
        let ghost before = self.rng;
        let ghost drawn = self.drawn@;
        let heads = toss(&mut self.rng);
        proof {
            self.drawn@ = drawn + 1;
            assert forall|k: nat| upcoming_coin(self.rng, k) == seeded_coin(
                SEED,
                drawn + 1 + k,
            ) by {
                assert(upcoming_coin(self.rng, k) == upcoming_coin(before, k + 1));
                assert(upcoming_coin(before, (k + 1) as nat) == seeded_coin(
                    SEED,
                    drawn + (k + 1) as nat,
                ));
            }
        }
        heads
    }

    /// Fills the whole field with pieces picked by coin tosses, row by row
    /// from the top left, checking the lines after each piece. Pieces already
    /// on the board are overwritten, and a winner recorded before stays unless
    /// a held line names another.
    pub fn random_board(&mut self)
        requires
            old(self).wf(),
        ensures
            final(self).wf(),
            final(self)@ == old(self)@.random_board(),
    {
        let mut i: usize = 0;
        while i < FIELD
            invariant
                i <= FIELD,
                self.wf(),
                self@ == old(self)@.seeded((FIELD * i) as nat),
            decreases FIELD - i,
        {
            let mut j: usize = 1;
            while j <= FIELD
                invariant
                    1 <= j <= FIELD + 1,
                    i < FIELD,
                    self.wf(),
                    self@ == old(self)@.seeded((FIELD * i + j - 1) as nat),
                decreases FIELD + 1 - j,
            {
                let team = GameItem::from_coin(self.toss_coin());
                self.put_random_item(team, i, j);
                proof {
                    let k = (FIELD * i + j - 1) as int;
                    assert(k / 4 == i && k % 4 == j - 1);
                    assert(old(self)@.seeded((k + 1) as nat) == old(self)@.seeded(
                        k as nat,
                    ).seed_cell(k));
                }
                j += 1;
            }
            i += 1;
        }
    }

    /// The board as text: five lines of six glyphs, then one line that names
    /// the winner or says that a full board has none; no such line while the
    /// game goes on.
    pub fn print_board(&self) -> (text: String)
        ensures
            text@ == self@.render(),
    {
        let ghost grid = grid_text(self@.cells);
        let mut text = String::new();
        let mut i: usize = 0;
        while i < ROWS
            invariant
                i <= ROWS,
                grid == grid_text(self@.cells),
                text@ == grid.take((COLS + 1) * i),
            decreases ROWS - i,
        {
            let mut j: usize = 0;
            while j < COLS
                invariant
                    j <= COLS,
                    i < ROWS,
                    grid == grid_text(self@.cells),
                    text@ == grid.take((COLS + 1) * i + j),
                decreases COLS - j,
            {
                let ghost n = 7 * i + j;
                text.push(self.board[i][j].to_glyph());
                proof {
                    assert(n / 7 == i && n % 7 == j);
                    assert(grid[n] == self.board[i as int][j as int].glyph());
                    assert(grid.take(n).push(grid[n]) =~= grid.take(n + 1));
                }
                j += 1;
            }
            let ghost n = 7 * i + 6;
            text.push('\n');
            proof {
                assert(n % 7 == 6);
                assert(grid.take(n).push(grid[n]) =~= grid.take(n + 1));
            }
            i += 1;
        }
        assert(text@ =~= grid);
        match self.winner {
            Some(w) => {
                text.push(w.to_glyph());
                text.append(" wins!\n");
                assert(text@ =~= grid + (seq![w.glyph()] + " wins!\n"@));
            },
            None => {
                if self.board_full {
                    text.append("No winner.\n");
                } else {
                    assert(text@ =~= grid + Seq::<char>::empty());
                }
            },
        }
        text
    }

    /// Drops a team's piece into one of the columns 1 to 4 and returns the
    /// board as text. A finished game, a full column, or an item or column
    /// that is none refuses the drop and leaves the game as it was.
    pub fn drop_piece(&mut self, item: GameItem, column: usize) -> (outcome: Result<
        String,
        DropError,
    >)
        requires
            old(self).wf(),
        ensures
            final(self).wf(),
            match old(self)@.drop_piece(item, column as int) {
                Ok(after) => final(self)@ == after && outcome is Ok && outcome->Ok_0@
                    == after.render(),
                Err(why) => final(self)@ == old(self)@ && outcome == Err::<String, DropError>(why),
            },
    {
        if !item.piece() || column < 1 || column > FIELD {
            return Err(DropError::InvalidInput);
        }
        if self.is_finished() {
            return Err(DropError::GameOver);
        }
        if self.is_column_full(column) {
            return Err(DropError::ColumnFull);
        }
        self.put_item(item, column);
        Ok(self.print_board())
    }

    /// Drops a piece for the team called `team` into the column numbered
    /// `column`. The teams are called "cookie" and "milk"; any other name, and
    /// any column other than 1 to 4, is invalid input.
    pub fn place(&mut self, team: &str, column: i32) -> (outcome: Result<String, DropError>)
        requires
            old(self).wf(),
        ensures
            final(self).wf(),
            match old(self)@.place(team@, column as int) {
                Ok(after) => final(self)@ == after && outcome is Ok && outcome->Ok_0@
                    == after.render(),
                Err(why) => final(self)@ == old(self)@ && outcome == Err::<String, DropError>(why),
            },
    {
        match read_move(team, column) {
            Some((item, column)) => self.drop_piece(item, column),
            None => Err(DropError::InvalidInput),
        }
    }

    /// Checks the ten lines in their fixed order, rows, then columns, then the
    /// two diagonals, and records the owner of the first held one as the
    /// winner. With no held line the winner stays as it was.
    pub fn check_win(&mut self)
        requires
            is_board(old(self)@.cells),
        ensures
            final(self)@ == old(self)@.checked(),
            final(self).in_step() == old(self).in_step(),
            old(self).wf() ==> final(self).wf() && final(self)@ == old(self)@,
    {
        let ghost g = self@.cells;
        let mut i: usize = 0;
        while i < FIELD
            invariant
                i <= FIELD,
                *self == *old(self),
                g == self@.cells,
                forall|k: int| 0 <= k < i ==> (#[trigger] line_owner(g, k)) is None,
            decreases FIELD - i,
        {
            let first = self.board[i][1];
            if first != GameItem::Empty && self.board[i][2] == first && self.board[i][3] == first
                && self.board[i][4] == first {
                proof {
                    lemma_first_owner_skips(g, 0, i as int);
                    assert(line_owner(g, i as int) == Some(first));
                }
                self.winner = Some(first);
                return ;
            }
            i += 1;
        }
        let mut j: usize = 1;
        while j <= FIELD
            invariant
                1 <= j <= FIELD + 1,
                *self == *old(self),
                g == self@.cells,
                forall|k: int| 0 <= k < j + 3 ==> (#[trigger] line_owner(g, k)) is None,
            decreases FIELD + 1 - j,
        {
            let first = self.board[0][j];
            if first != GameItem::Empty && self.board[1][j] == first && self.board[2][j] == first
                && self.board[3][j] == first {
                proof {
                    lemma_first_owner_skips(g, 0, j + 3);
                    assert(line_owner(g, j + 3) == Some(first));
                }
                self.winner = Some(first);
                return ;
            }
            j += 1;
        }
        let first = self.board[0][1];
        if first != GameItem::Empty && self.board[1][2] == first && self.board[2][3] == first
            && self.board[3][4] == first {
            proof {
                lemma_first_owner_skips(g, 0, 8);
                assert(line_owner(g, 8) == Some(first));
            }
            self.winner = Some(first);
            return ;
        }
        let first = self.board[0][4];
        if first != GameItem::Empty && self.board[1][3] == first && self.board[2][2] == first
            && self.board[3][1] == first {
            proof {
                lemma_first_owner_skips(g, 0, 9);
                assert(line_owner(g, 9) == Some(first));
            }
            self.winner = Some(first);
            return ;
        }
        proof {
            lemma_first_owner_skips(g, 0, LINES as int);
        }
    }
}

} // verus!
