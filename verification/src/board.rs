//! The grid itself: cells, the gravity drop, and four-in-a-row detection.

use crate::grid::{
    column_empty, column_full, dropped, empty_grid, grid_full, holds, in_bounds,
    is_landing_row, line_count, occupied, place, reach, top_row, top_row_occupied, well_formed,
    wins_at, Grid, COLUMNS, ROWS,
};
use crate::grid::{
    lemma_empty_grid_well_formed, lemma_full_is_top_row_occupied, lemma_landing_row_unique,
    lemma_line_count_is_run, lemma_place_keeps_well_formed, lemma_top_row_unique,
};
use vstd::prelude::*;

verus! {

/// What one cell of the grid holds.
#[derive(Copy, Clone, PartialEq, Eq, Debug, Structural)]
pub enum Piece {
    Empty,
    Red,
    Blue,
}

/// One of the two sides of a match.
#[derive(Copy, Clone, PartialEq, Eq, Debug, Structural)]
pub enum Player {
    Red,
    Blue,
}

impl Player {
    /// The piece this player puts on the grid.
    pub open spec fn spec_piece(self) -> Piece {
        match self {
            Player::Red => Piece::Red,
            Player::Blue => Piece::Blue,
        }
    }

    /// The piece this player puts on the grid.
    #[verifier::when_used_as_spec(spec_piece)]
    pub fn piece(self) -> (p: Piece)
        ensures
            p == self.spec_piece(),
        no_unwind
    {
        match self {
            Player::Red => Piece::Red,
            Player::Blue => Piece::Blue,
        }
    }

    /// The player who moves after this one.
    pub open spec fn spec_other(self) -> Player {
        match self {
            Player::Red => Player::Blue,
            Player::Blue => Player::Red,
        }
    }

    /// The player who moves after this one.
    #[verifier::when_used_as_spec(spec_other)]
    pub fn other(self) -> (p: Player)
        ensures
            p == self.spec_other(),
        no_unwind
    {
        match self {
            Player::Red => Player::Blue,
            Player::Blue => Player::Red,
        }
    }
}

/// The error of a drop into a column that has no empty cell left.
#[derive(Copy, Clone, PartialEq, Eq, Debug, Structural)]
pub struct ColumnFull;

/// Seven columns of six cells that only ever change by a drop or a reset, so
/// that no piece hangs above an empty cell.
#[derive(Copy, Clone, Debug)]
pub struct Board {
    board: [[Piece; 6]; 7],
}

impl View for Board {
    type V = Grid;

    closed spec fn view(&self) -> Grid {
        cells_view(self.board)
    }
}

/// The grid that an array of cells stands for.
spec fn cells_view(cells: [[Piece; 6]; 7]) -> Grid {
    Seq::new(COLUMNS as nat, |c: int| Seq::new(ROWS as nat, |r: int| cells[c][r]))
}

impl Board {
    /// Every board is a grid of the right shape that obeys gravity.
    #[verifier::type_invariant]
    pub open spec fn wf(&self) -> bool {
        well_formed(self@)
    }

    /// A board with every cell empty.
    pub fn new() -> (b: Board)
        ensures
            b@ == empty_grid(),
    {
        let cells = [[Piece::Empty; 6]; 7];
        proof {
            assert(cells_view(cells) =~~= empty_grid());
            lemma_empty_grid_well_formed();
        }
        Board { board: cells }
    }

    /// Empties every cell.
    pub fn reset(&mut self)
        ensures
            final(self)@ == empty_grid(),
        no_unwind
    {
        let mut cells = self.board;
        let mut x: usize = 0;
        while x < COLUMNS
            invariant
                x <= COLUMNS,
                forall|c: int, r: int|
                    0 <= c < x && 0 <= r < ROWS ==> (#[trigger] cells[c][r]) == Piece::Empty,
            decreases COLUMNS - x,
        {
            let mut y: usize = 0;
            while y < ROWS
                invariant
                    x < COLUMNS,
                    y <= ROWS,
                    forall|c: int, r: int|
                        0 <= c < x && 0 <= r < ROWS ==> (#[trigger] cells[c][r]) == Piece::Empty,
                    forall|r: int| 0 <= r < y ==> (#[trigger] cells[x as int][r]) == Piece::Empty,
                decreases ROWS - y,
            {
                cells[x][y] = Piece::Empty;
                y += 1;
            }
            x += 1;
        }
        proof {
            assert(cells_view(cells) =~~= empty_grid());
            lemma_empty_grid_well_formed();
        }
        self.board = cells;
    }

    /// What the cell in `column` and `row` holds.
    pub fn cell(&self, column: usize, row: usize) -> (p: Piece)
        requires
            column < COLUMNS,
            row < ROWS,
        ensures
            p == self@[column as int][row as int],
        no_unwind
    {
        self.board[column][row]
    }

    /// Drops `piece` into column `x`: it comes to rest in the lowest empty
    /// cell, whose row is returned. A full column is left as it is.
    pub fn drop_piece(&mut self, x: usize, piece: Piece) -> (res: Result<usize, ColumnFull>)
        requires
            x < COLUMNS,
        ensures
            res is Err <==> column_full(old(self)@, x as int),
            match res {
                Ok(row) => {
                    &&& is_landing_row(old(self)@, x as int, row as int)
                    &&& final(self)@ == place(old(self)@, x as int, row as int, piece)
                },
                Err(_) => final(self)@ == old(self)@,
            },
            final(self)@ == dropped(old(self)@, x as int, piece),
            well_formed(final(self)@),
        no_unwind
    {
        proof {
            use_type_invariant(&*self);
        }
        let mut y: usize = ROWS;
        while y > 0
            invariant
                y <= ROWS,
                x < COLUMNS,
                *self == *old(self),
                well_formed(self@),
                forall|lower: int| y <= lower < ROWS ==> #[trigger] occupied(self@, x as int, lower),
            decreases y,
        {
            y -= 1;
            if self.board[x][y] == Piece::Empty {
                proof {
                    lemma_landing_row_unique(self@, x as int, y as int);
                }
                let mut cells = self.board;
                cells[x][y] = piece;
                proof {
                    assert(cells_view(cells) =~~= place(self@, x as int, y as int, piece));
                    lemma_place_keeps_well_formed(self@, x as int, y as int, piece);
                }
                self.board = cells;
                assert(self@ =~~= place(old(self)@, x as int, y as int, piece));
                return Ok(y);
            }
        }
        Err(ColumnFull)
    }

    /// Whether no drop is possible any more: every column is full, which on a
    /// board is the case as soon as the top row is.
    pub fn is_board_full(&self) -> (full: bool)
        ensures
            full == grid_full(self@),
            full == top_row_occupied(self@),
        no_unwind
    {
        proof {
            use_type_invariant(self);
            lemma_full_is_top_row_occupied(self@);
        }
        let mut x: usize = 0;
        while x < COLUMNS
            invariant
                x <= COLUMNS,
                grid_full(self@) <==> top_row_occupied(self@),
                forall|c: int| 0 <= c < x ==> #[trigger] occupied(self@, c, 0),
            decreases COLUMNS - x,
        {
            if self.board[x][0] == Piece::Empty {
                assert(!occupied(self@, x as int, 0));
                return false;
            }
            x += 1;
        }
        true
    }

    /// Whether the cell `(column, row)` exists and holds `piece`.
    fn holds_at(&self, column: i8, row: i8, piece: Piece) -> (b: bool)
        ensures
            b == holds(self@, column as int, row as int, piece),
        no_unwind
    {
        if column < 0 || row < 0 {
            return false;
        }
        let (c, r) = (column as usize, row as usize);
        c < COLUMNS && r < ROWS && self.board[c][r] == piece
    }

    /// Walks from `(column, row)` in steps of `(dc, dr)` while the next cell
    /// holds `piece`, for at most three steps, and returns the steps taken.
    fn run_length(&self, column: usize, row: usize, dc: i8, dr: i8, piece: Piece) -> (n: u8)
        requires
            column < COLUMNS,
            row < ROWS,
            -1 <= dc <= 1,
            -1 <= dr <= 1,
        ensures
            n <= 3,
            n == reach(self@, column as int, row as int, dc as int, dr as int, piece, 3),
        no_unwind
    {
        let mut n: u8 = 0;
        let mut c: i8 = column as i8;
        let mut r: i8 = row as i8;
        while n < 3 && self.holds_at(c + dc, r + dr, piece)
            invariant
                n <= 3,
                -1 <= dc <= 1,
                -1 <= dr <= 1,
                in_bounds(c as int, r as int),
                reach(self@, column as int, row as int, dc as int, dr as int, piece, 3) == n
                    + reach(self@, c as int, r as int, dc as int, dr as int, piece, (3 - n) as nat),
            decreases 3 - n,
        {
            c = c + dc;
            r = r + dr;
            n += 1;
        }
        n
    }

    /// Counts the cells that hold `piece` in the line of direction `(dc, dr)`
    /// through `(column, row)`: that cell and up to three on either side.
    fn count_line(&self, column: usize, row: usize, dc: i8, dr: i8, piece: Piece) -> (n: u8)
        requires
            column < COLUMNS,
            row < ROWS,
            -1 <= dc <= 1,
            -1 <= dr <= 1,
        ensures
            n == line_count(self@, column as int, row as int, dc as int, dr as int, piece),
        no_unwind
    {
        1 + self.run_length(column, row, dc, dr, piece) + self.run_length(
            column,
            row,
            -dc,
            -dr,
            piece,
        )
    }

    /// Whether the piece that `player` has just set down at `(column, row)`
    /// completes four in a line, down the column, along the row or along a
    /// diagonal. False where the cell does not hold that player's piece.
    pub fn check_win(&self, column: usize, row: usize, player: Player) -> (won: bool)
        requires
            column < COLUMNS,
            row < ROWS,
        ensures
            won == wins_at(self@, column as int, row as int, player.piece()),
        no_unwind
    {
        let piece = player.piece();
        if self.board[column][row] != piece {
            return false;
        }
        proof {
            let (c, r) = (column as int, row as int);
            lemma_line_count_is_run(self@, c, r, 0, 1, piece);
            lemma_line_count_is_run(self@, c, r, 1, 0, piece);
            lemma_line_count_is_run(self@, c, r, 1, 1, piece);
            lemma_line_count_is_run(self@, c, r, 1, -1, piece);
        }
        self.count_line(column, row, 0, 1, piece) >= 4
            || self.count_line(column, row, 1, 0, piece) >= 4
            || self.count_line(column, row, 1, 1, piece) >= 4
            || self.count_line(column, row, 1, -1, piece) >= 4
    }

    /// Whether the highest piece of column `x`, the last one dropped there,
    /// is part of four in a line. False for a column that holds no piece.
    pub fn check_for_win(&self, x: usize) -> (won: bool)
        requires
            x < COLUMNS,
        ensures
            won == (!column_empty(self@, x as int) && wins_at(
                self@,
                x as int,
                top_row(self@, x as int),
                self@[x as int][top_row(self@, x as int)],
            )),
        no_unwind
    {
        let mut y: usize = 0;
        while y < ROWS
            invariant
                x < COLUMNS,
                y <= ROWS,
                forall|upper: int| 0 <= upper < y ==> !#[trigger] occupied(self@, x as int, upper),
            decreases ROWS - y,
        {
            let found = match self.board[x][y] {
                Piece::Empty => None,
                Piece::Red => Some(Player::Red),
                Piece::Blue => Some(Player::Blue),
            };
            if let Some(player) = found {
                proof {
                    assert(occupied(self@, x as int, y as int));
                    lemma_top_row_unique(self@, x as int, y as int);
                }
                return self.check_win(x, y, player);
            }
            assert(!occupied(self@, x as int, y as int));
            y += 1;
        }
        false
    }
}

} // verus!
