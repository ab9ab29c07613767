//! The mathematical model of the grid: what a drop does and what a win is.
//!
//! A grid is a sequence of seven columns, each a sequence of six cells, with
//! row 0 at the top. The contracts of [`crate::board::Board`] are stated over
//! the functions of this module.

use crate::board::Piece;
use vstd::prelude::*;

verus! {

/// Number of columns of the grid.
pub const COLUMNS: usize = 7;

/// Number of rows of the grid; row 0 is the top.
pub const ROWS: usize = 6;

/// Columns of rows: `g[column][row]`.
pub type Grid = Seq<Seq<Piece>>;

/// `g` has seven columns of six rows each.
pub open spec fn is_grid(g: Grid) -> bool {
    &&& g.len() == COLUMNS
    &&& forall|c: int| 0 <= c < COLUMNS ==> (#[trigger] g[c]).len() == ROWS
}

/// `(c, r)` names a cell of the grid.
pub open spec fn in_bounds(c: int, r: int) -> bool {
    0 <= c < COLUMNS && 0 <= r < ROWS
}

/// The cell `(c, r)` holds a piece.
pub open spec fn occupied(g: Grid, c: int, r: int) -> bool {
    g[c][r] != Piece::Empty
}

/// Gravity: in every column, whatever lies below a piece is a piece too.
pub open spec fn settled(g: Grid) -> bool {
    forall|c: int, upper: int, lower: int|
        0 <= c < COLUMNS && 0 <= upper <= lower < ROWS && #[trigger] occupied(g, c, upper)
            ==> #[trigger] occupied(g, c, lower)
}

/// A grid of the right shape that obeys gravity.
pub open spec fn well_formed(g: Grid) -> bool {
    is_grid(g) && settled(g)
}

/// The grid in which every cell is empty.
pub open spec fn empty_grid() -> Grid {
    Seq::new(COLUMNS as nat, |c: int| Seq::new(ROWS as nat, |r: int| Piece::Empty))
}

/// Column `c` has no empty cell left.
pub open spec fn column_full(g: Grid, c: int) -> bool {
    forall|r: int| 0 <= r < ROWS ==> #[trigger] occupied(g, c, r)
}

/// Column `c` holds no piece.
pub open spec fn column_empty(g: Grid, c: int) -> bool {
    forall|r: int| 0 <= r < ROWS ==> !#[trigger] occupied(g, c, r)
}

/// No cell of the grid is empty.
pub open spec fn grid_full(g: Grid) -> bool {
    forall|c: int| 0 <= c < COLUMNS ==> #[trigger] column_full(g, c)
}

/// Every column holds a piece in the top row.
pub open spec fn top_row_occupied(g: Grid) -> bool {
    forall|c: int| 0 <= c < COLUMNS ==> #[trigger] occupied(g, c, 0)
}

/// `r` is the lowest empty cell of column `c`: where a dropped piece comes to rest.
pub open spec fn is_landing_row(g: Grid, c: int, r: int) -> bool {
    &&& 0 <= r < ROWS
    &&& !occupied(g, c, r)
    &&& forall|lower: int| r < lower < ROWS ==> #[trigger] occupied(g, c, lower)
}

/// The landing row of column `c`, where it has one.
pub open spec fn landing_row(g: Grid, c: int) -> int {
    choose|r: int| is_landing_row(g, c, r)
}

/// `r` is the highest piece of column `c`.
pub open spec fn is_top_row(g: Grid, c: int, r: int) -> bool {
    &&& 0 <= r < ROWS
    &&& occupied(g, c, r)
    &&& forall|upper: int| 0 <= upper < r ==> !#[trigger] occupied(g, c, upper)
}

/// The row of the highest piece of column `c`, where it holds one.
pub open spec fn top_row(g: Grid, c: int) -> int {
    choose|r: int| is_top_row(g, c, r)
}

/// `g` with the cell `(c, r)` set to `p`.
pub open spec fn place(g: Grid, c: int, r: int, p: Piece) -> Grid {
    g.update(c, g[c].update(r, p))
}

/// `g` after `p` was dropped into column `c`: unchanged where the column is full.
pub open spec fn dropped(g: Grid, c: int, p: Piece) -> Grid {
    if column_full(g, c) {
        g
    } else {
        place(g, c, landing_row(g, c), p)
    }
}

/// The cell `(c, r)` exists and holds `p`.
pub open spec fn holds(g: Grid, c: int, r: int, p: Piece) -> bool {
    in_bounds(c, r) && g[c][r] == p
}

/// The four cells from `(c, r)` on in steps of `(dc, dr)` all hold `p`.
pub open spec fn four_from(g: Grid, c: int, r: int, dc: int, dr: int, p: Piece) -> bool {
    &&& holds(g, c, r, p)
    &&& holds(g, c + dc, r + dr, p)
    &&& holds(g, c + 2 * dc, r + 2 * dr, p)
    &&& holds(g, c + 3 * dc, r + 3 * dr, p)
}

/// Some four cells in a line of direction `(dc, dr)`, `(c, r)` among them, all hold `p`.
pub open spec fn run_through(g: Grid, c: int, r: int, dc: int, dr: int, p: Piece) -> bool {
    ||| four_from(g, c, r, dc, dr, p)
    ||| four_from(g, c - dc, r - dr, dc, dr, p)
    ||| four_from(g, c - 2 * dc, r - 2 * dr, dc, dr, p)
    ||| four_from(g, c - 3 * dc, r - 3 * dr, dc, dr, p)
}

/// The piece `p` at `(c, r)` is part of four in a line: down a column, along
/// a row, or along one of the two diagonals.
pub open spec fn wins_at(g: Grid, c: int, r: int, p: Piece) -> bool {
    &&& p != Piece::Empty
    &&& {
        ||| run_through(g, c, r, 0, 1, p)
        ||| run_through(g, c, r, 1, 0, p)
        ||| run_through(g, c, r, 1, 1, p)
        ||| run_through(g, c, r, 1, -1, p)
    }
}

/// The four directions in which a line can run: down a column, along a row,
/// and along either diagonal.
pub open spec fn is_axis(dc: int, dr: int) -> bool {
    ||| dc == 0 && dr == 1
    ||| dc == 1 && dr == 0
    ||| dc == 1 && dr == 1
    ||| dc == 1 && dr == -1
}

/// Somewhere on the grid four cells in a line all hold the piece `p`.
pub open spec fn has_four(g: Grid, p: Piece) -> bool {
    &&& p != Piece::Empty
    &&& exists|c: int, r: int, dc: int, dr: int|
        is_axis(dc, dr) && #[trigger] four_from(g, c, r, dc, dr, p)
}

/// How many drops column `c` of a well-formed grid still takes.
pub open spec fn free_rows(g: Grid, c: int) -> int {
    if column_full(g, c) {
        0
    } else {
        landing_row(g, c) + 1
    }
}

/// How many cells of a well-formed grid are empty.
pub open spec fn free_cells(g: Grid) -> int {
    free_rows(g, 0) + free_rows(g, 1) + free_rows(g, 2) + free_rows(g, 3) + free_rows(g, 4)
        + free_rows(g, 5) + free_rows(g, 6)
}

/// Every one of `columns` names a column.
pub open spec fn are_columns(columns: Seq<int>) -> bool {
    forall|i: int| 0 <= i < columns.len() ==> 0 <= #[trigger] columns[i] < COLUMNS
}

/// `g` after `p` was dropped into each of `columns` in turn.
pub open spec fn dropped_all(g: Grid, columns: Seq<int>, p: Piece) -> Grid
    decreases columns.len(),
{
    if columns.len() == 0 {
        g
    } else {
        dropped(dropped_all(g, columns.drop_last(), p), columns.last(), p)
    }
}

/// Every drop of `p` into `columns` in turn, starting from `g`, finds room.
pub open spec fn all_land(g: Grid, columns: Seq<int>, p: Piece) -> bool
    decreases columns.len(),
{
    if columns.len() == 0 {
        true
    } else {
        &&& all_land(g, columns.drop_last(), p)
        &&& !column_full(dropped_all(g, columns.drop_last(), p), columns.last())
    }
}

/// How many cells in a row hold `p`, walking from `(c, r)` in steps of
/// `(dc, dr)`, the start not counted, for at most `steps` steps.
pub open spec fn reach(g: Grid, c: int, r: int, dc: int, dr: int, p: Piece, steps: nat) -> nat
    decreases steps,
{
    if steps == 0 || !holds(g, c + dc, r + dr, p) {
        0
    } else {
        1 + reach(g, c + dc, r + dr, dc, dr, p, (steps - 1) as nat)
    }
}

/// The cells that hold `p` in one line through `(c, r)`: the cell itself and
/// up to three on either side.
pub open spec fn line_count(g: Grid, c: int, r: int, dc: int, dr: int, p: Piece) -> nat {
    1 + reach(g, c, r, dc, dr, p, 3) + reach(g, c, r, -dc, -dr, p, 3)
}

/// `reach` over three steps, written out cell by cell.
pub proof fn lemma_reach_three(g: Grid, c: int, r: int, dc: int, dr: int, p: Piece)
    ensures
        reach(g, c, r, dc, dr, p, 3) == if !holds(g, c + dc, r + dr, p) {
            0nat
        } else if !holds(g, c + 2 * dc, r + 2 * dr, p) {
            1nat
        } else if !holds(g, c + 3 * dc, r + 3 * dr, p) {
            2nat
        } else {
            3nat
        },
{
    let (c1, r1) = (c + dc, r + dr);
    let (c2, r2) = (c1 + dc, r1 + dr);
    let (c3, r3) = (c2 + dc, r2 + dr);
    assert(c2 == c + 2 * dc && r2 == r + 2 * dr);
    assert(c3 == c + 3 * dc && r3 == r + 3 * dr);
    assert(reach(g, c3, r3, dc, dr, p, 0) == 0);
    assert(reach(g, c2, r2, dc, dr, p, 1) == if holds(g, c3, r3, p) {
        1nat
    } else {
        0nat
    });
    assert(reach(g, c1, r1, dc, dr, p, 2) == if holds(g, c2, r2, p) {
        1 + reach(g, c2, r2, dc, dr, p, 1)
    } else {
        0nat
    });
    assert(reach(g, c, r, dc, dr, p, 3) == if holds(g, c1, r1, p) {
        1 + reach(g, c1, r1, dc, dr, p, 2)
    } else {
        0nat
    });
}

/// Counting outward from a cell that holds `p` finds four exactly where four
/// in a line pass through it.
pub proof fn lemma_line_count_is_run(g: Grid, c: int, r: int, dc: int, dr: int, p: Piece)
    requires
        holds(g, c, r, p),
    ensures
        line_count(g, c, r, dc, dr, p) >= 4 <==> run_through(g, c, r, dc, dr, p),
{
    lemma_reach_three(g, c, r, dc, dr, p);
    lemma_reach_three(g, c, r, -dc, -dr, p);
    assert(c + 2 * (-dc) == c - 2 * dc && c + 3 * (-dc) == c - 3 * dc);
    assert(r + 2 * (-dr) == r - 2 * dr && r + 3 * (-dr) == r - 3 * dr);
    assert(c - dc + dc == c && c - 2 * dc + 2 * dc == c && c - 3 * dc + 3 * dc == c);
    assert(c - dc + 2 * dc == c + dc && c - dc + 3 * dc == c + 2 * dc);
    assert(c - 2 * dc + dc == c - dc && c - 2 * dc + 3 * dc == c + dc);
    assert(c - 3 * dc + dc == c - 2 * dc && c - 3 * dc + 2 * dc == c - dc);
}

/// A piece set down on the landing row of its column leaves the grid well formed.
pub proof fn lemma_place_keeps_well_formed(g: Grid, c: int, r: int, p: Piece)
    requires
        well_formed(g),
        0 <= c < COLUMNS,
        is_landing_row(g, c, r),
    ensures
        well_formed(place(g, c, r, p)),
{
    let h = place(g, c, r, p);
    assert forall|c2: int, upper: int, lower: int|
        0 <= c2 < COLUMNS && 0 <= upper <= lower < ROWS && #[trigger] occupied(h, c2, upper)
        implies #[trigger] occupied(h, c2, lower) by {
        if c2 == c {
            if upper == r {
                assert(lower == r || occupied(g, c, lower));
            } else {
                assert(occupied(g, c, upper));
                assert(occupied(g, c, lower));
            }
        } else {
            assert(occupied(g, c2, upper));
            assert(occupied(g, c2, lower));
        }
    }
}

/// The empty grid is well formed.
pub proof fn lemma_empty_grid_well_formed()
    ensures
        well_formed(empty_grid()),
{
}

/// Under gravity a grid is full exactly when its top row is.
pub proof fn lemma_full_is_top_row_occupied(g: Grid)
    requires
        well_formed(g),
    ensures
        grid_full(g) <==> top_row_occupied(g),
{
    if top_row_occupied(g) {
        assert forall|c: int| 0 <= c < COLUMNS implies #[trigger] column_full(g, c) by {
            assert(occupied(g, c, 0));
        }
    }
    if grid_full(g) {
        assert forall|c: int| 0 <= c < COLUMNS implies #[trigger] occupied(g, c, 0) by {
            assert(column_full(g, c));
        }
    }
}

/// A column has one landing row at most.
pub proof fn lemma_landing_row_unique(g: Grid, c: int, r: int)
    requires
        is_landing_row(g, c, r),
    ensures
        landing_row(g, c) == r,
        !column_full(g, c),
{
    let l = landing_row(g, c);
    assert(is_landing_row(g, c, l));
    if l < r {
        assert(occupied(g, c, r));
    }
    if r < l {
        assert(occupied(g, c, l));
    }
}

/// A column has one highest piece at most.
pub proof fn lemma_top_row_unique(g: Grid, c: int, r: int)
    requires
        is_top_row(g, c, r),
    ensures
        top_row(g, c) == r,
        !column_empty(g, c),
{
    let t = top_row(g, c);
    assert(is_top_row(g, c, t));
    if t < r {
        assert(!occupied(g, c, t));
    }
    if r < t {
        assert(!occupied(g, c, r));
    }
}

/// A column that is not full has a landing row.
pub proof fn lemma_landing_row_exists(g: Grid, c: int)
    requires
        !column_full(g, c),
    ensures
        is_landing_row(g, c, landing_row(g, c)),
{
    if occupied(g, c, 5) {
        if occupied(g, c, 4) {
            if occupied(g, c, 3) {
                if occupied(g, c, 2) {
                    if occupied(g, c, 1) {
                        assert(!occupied(g, c, 0));
                        assert(is_landing_row(g, c, 0));
                    } else {
                        assert(is_landing_row(g, c, 1));
                    }
                } else {
                    assert(is_landing_row(g, c, 2));
                }
            } else {
                assert(is_landing_row(g, c, 3));
            }
        } else {
            assert(is_landing_row(g, c, 4));
        }
    } else {
        assert(is_landing_row(g, c, 5));
    }
}

/// A drop leaves a well-formed grid well formed.
pub proof fn lemma_drop_keeps_well_formed(g: Grid, c: int, p: Piece)
    requires
        well_formed(g),
        0 <= c < COLUMNS,
    ensures
        well_formed(dropped(g, c, p)),
{
    if !column_full(g, c) {
        lemma_landing_row_exists(g, c);
        lemma_place_keeps_well_formed(g, c, landing_row(g, c), p);
    }
}

/// A drop changes one cell at most: the landing cell of its column.
pub proof fn lemma_drop_changes_one_cell(g: Grid, c: int, p: Piece, c2: int, r2: int)
    requires
        is_grid(g),
        0 <= c < COLUMNS,
        in_bounds(c2, r2),
    ensures
        is_grid(dropped(g, c, p)),
        dropped(g, c, p)[c2][r2] == if !column_full(g, c) && c2 == c && r2 == landing_row(g, c) {
            p
        } else {
            g[c2][r2]
        },
{
    if !column_full(g, c) {
        lemma_landing_row_exists(g, c);
    }
}

/// A successful drop of a piece leaves its column with one free row fewer,
/// and every other column as it was. An empty column has six free rows, and
/// a column is full when it has none.
pub proof fn lemma_drop_takes_one_row(g: Grid, c: int, p: Piece, c2: int)
    requires
        well_formed(g),
        0 <= c < COLUMNS,
        0 <= c2 < COLUMNS,
        p != Piece::Empty,
    ensures
        free_rows(dropped(g, c, p), c2) == if c2 == c && !column_full(g, c) {
            free_rows(g, c) - 1
        } else {
            free_rows(g, c2)
        },
        0 <= free_rows(g, c2) <= ROWS,
        free_rows(g, c2) == 0 <==> column_full(g, c2),
        free_rows(g, c2) == ROWS <==> column_empty(g, c2),
{
    let h = dropped(g, c, p);
    if !column_full(g, c2) {
        lemma_landing_row_exists(g, c2);
        let l = landing_row(g, c2);
        if column_empty(g, c2) {
            if l < ROWS - 1 {
                assert(occupied(g, c2, ROWS - 1));
            }
        } else {
            let r = choose|r: int| 0 <= r < ROWS && occupied(g, c2, r);
            if l == ROWS - 1 {
                assert(occupied(g, c2, ROWS - 1));
            }
        }
    } else {
        assert(occupied(g, c2, 0));
    }
    if !column_full(g, c) {
        lemma_landing_row_exists(g, c);
    }
    if c2 == c && !column_full(g, c) {
        let l = landing_row(g, c);
        if l == 0 {
            assert forall|r: int| 0 <= r < ROWS implies #[trigger] occupied(h, c, r) by {
                if r > 0 {
                    assert(occupied(g, c, r));
                }
            }
        } else {
            assert(!occupied(g, c, l - 1)) by {
                if occupied(g, c, l - 1) {
                    assert(occupied(g, c, l));
                }
            }
            assert(is_landing_row(h, c, l - 1)) by {
                assert forall|lower: int| l - 1 < lower < ROWS implies #[trigger] occupied(
                    h,
                    c,
                    lower,
                ) by {
                    if lower > l {
                        assert(occupied(g, c, lower));
                    }
                }
            }
            lemma_landing_row_unique(h, c, l - 1);
        }
    } else {
        assert(h[c2] == g[c2]);
        assert(column_full(h, c2) <==> column_full(g, c2)) by {
            if column_full(g, c2) {
                assert forall|r: int| 0 <= r < ROWS implies #[trigger] occupied(h, c2, r) by {
                    assert(occupied(g, c2, r));
                }
            }
            if column_full(h, c2) {
                assert forall|r: int| 0 <= r < ROWS implies #[trigger] occupied(g, c2, r) by {
                    assert(occupied(h, c2, r));
                }
            }
        }
        if !column_full(g, c2) {
            let l = landing_row(g, c2);
            assert(is_landing_row(h, c2, l)) by {
                assert forall|lower: int| l < lower < ROWS implies #[trigger] occupied(
                    h,
                    c2,
                    lower,
                ) by {
                    assert(occupied(g, c2, lower));
                }
            }
            lemma_landing_row_unique(h, c2, l);
        }
    }
}

/// Four cells in a line that all hold one player's piece are a win at each
/// of the four: down a column, along a row, and along either diagonal.
pub proof fn lemma_line_of_four_wins(g: Grid, c: int, r: int, dc: int, dr: int, p: Piece, k: int)
    requires
        p != Piece::Empty,
        is_axis(dc, dr),
        four_from(g, c, r, dc, dr, p),
        0 <= k < 4,
    ensures
        wins_at(g, c + k * dc, r + k * dr, p),
{
    let (c1, r1) = (c + k * dc, r + k * dr);
    assert(k == 0 || k == 1 || k == 2 || k == 3);
    assert(run_through(g, c1, r1, dc, dr, p)) by {
        if k == 0 {
            assert(four_from(g, c1, r1, dc, dr, p));
        } else if k == 1 {
            assert(c1 - dc == c && r1 - dr == r);
            assert(four_from(g, c1 - dc, r1 - dr, dc, dr, p));
        } else if k == 2 {
            assert(c1 - 2 * dc == c && r1 - 2 * dr == r);
            assert(four_from(g, c1 - 2 * dc, r1 - 2 * dr, dc, dr, p));
        } else {
            assert(c1 - 3 * dc == c && r1 - 3 * dr == r);
            assert(four_from(g, c1 - 3 * dc, r1 - 3 * dr, dc, dr, p));
        }
    }
}

/// A win at a cell is four in a line somewhere on the grid.
pub proof fn lemma_win_is_four(g: Grid, c: int, r: int, p: Piece)
    requires
        wins_at(g, c, r, p),
    ensures
        has_four(g, p),
{
    assert forall|dc: int, dr: int| is_axis(dc, dr) && run_through(g, c, r, dc, dr, p) implies has_four(g, p) by {
        if four_from(g, c, r, dc, dr, p) {
        } else if four_from(g, c - dc, r - dr, dc, dr, p) {
        } else if four_from(g, c - 2 * dc, r - 2 * dr, dc, dr, p) {
        } else {
            assert(four_from(g, c - 3 * dc, r - 3 * dr, dc, dr, p));
        }
    }
    assert(is_axis(0, 1) && is_axis(1, 0) && is_axis(1, 1) && is_axis(1, -1));
}

/// Where a piece is set on a cell that did not hold it, on a grid without
/// four of that piece in a line, the new grid has four in a line exactly
/// when there is a win at that cell: it is enough to look there.
pub proof fn lemma_new_four_passes_through_placed(g: Grid, c: int, r: int, p: Piece)
    requires
        is_grid(g),
        in_bounds(c, r),
        g[c][r] != p,
        !has_four(g, p),
    ensures
        has_four(place(g, c, r, p), p) <==> wins_at(place(g, c, r, p), c, r, p),
{
    let h = place(g, c, r, p);
    if wins_at(h, c, r, p) {
        lemma_win_is_four(h, c, r, p);
    }
    if has_four(h, p) {
        let (c0, r0, dc, dr) = choose|c0: int, r0: int, dc: int, dr: int|
            is_axis(dc, dr) && #[trigger] four_from(h, c0, r0, dc, dr, p);
        let k = if c0 == c && r0 == r {
            0
        } else if c0 + dc == c && r0 + dr == r {
            1
        } else if c0 + 2 * dc == c && r0 + 2 * dr == r {
            2
        } else if c0 + 3 * dc == c && r0 + 3 * dr == r {
            3
        } else {
            -1int
        };
        if k == -1 {
            assert(holds(g, c0, r0, p));
            assert(holds(g, c0 + dc, r0 + dr, p));
            assert(holds(g, c0 + 2 * dc, r0 + 2 * dr, p));
            assert(holds(g, c0 + 3 * dc, r0 + 3 * dr, p));
            assert(four_from(g, c0, r0, dc, dr, p));
            assert(false);
        } else {
            lemma_line_of_four_wins(h, c0, r0, dc, dr, p, k);
            assert(c0 + k * dc == c && r0 + k * dr == r);
        }
    }
}

/// Setting a piece on the grid makes no line of four of any other piece.
pub proof fn lemma_place_makes_no_four_of_others(g: Grid, c: int, r: int, p: Piece, q: Piece)
    requires
        is_grid(g),
        in_bounds(c, r),
        q != p,
        !has_four(g, q),
    ensures
        !has_four(place(g, c, r, p), q),
{
    let h = place(g, c, r, p);
    if has_four(h, q) {
        let (c0, r0, dc, dr) = choose|c0: int, r0: int, dc: int, dr: int|
            is_axis(dc, dr) && #[trigger] four_from(h, c0, r0, dc, dr, q);
        assert(holds(g, c0, r0, q));
        assert(holds(g, c0 + dc, r0 + dr, q));
        assert(holds(g, c0 + 2 * dc, r0 + 2 * dr, q));
        assert(holds(g, c0 + 3 * dc, r0 + 3 * dr, q));
        assert(four_from(g, c0, r0, dc, dr, q));
        assert(false);
    }
}

/// The empty grid holds no line of four.
pub proof fn lemma_empty_grid_has_no_four(p: Piece)
    ensures
        !has_four(empty_grid(), p),
        !grid_full(empty_grid()),
{
    if has_four(empty_grid(), p) {
        let (c0, r0, dc, dr) = choose|c0: int, r0: int, dc: int, dr: int|
            is_axis(dc, dr) && #[trigger] four_from(empty_grid(), c0, r0, dc, dr, p);
        assert(holds(empty_grid(), c0, r0, p));
    }
    if grid_full(empty_grid()) {
        assert(column_full(empty_grid(), 0));
        assert(occupied(empty_grid(), 0, 0));
    }
}

/// Four drops of one player's piece into one column, one after another,
/// end in a win in that column.
pub proof fn lemma_four_stacked_win(g: Grid, c: int, p: Piece)
    requires
        well_formed(g),
        0 <= c < COLUMNS,
        p != Piece::Empty,
        free_rows(g, c) >= 4,
    ensures
        ({
            let third = dropped(dropped(dropped(g, c, p), c, p), c, p);
            &&& !column_full(third, c)
            &&& wins_at(dropped(third, c, p), c, landing_row(third, c), p)
        }),
{
    let g1 = dropped(g, c, p);
    let g2 = dropped(g1, c, p);
    let g3 = dropped(g2, c, p);
    let g4 = dropped(g3, c, p);
    lemma_drop_takes_one_row(g, c, p, c);
    lemma_drop_keeps_well_formed(g, c, p);
    lemma_drop_takes_one_row(g1, c, p, c);
    lemma_drop_keeps_well_formed(g1, c, p);
    lemma_drop_takes_one_row(g2, c, p, c);
    lemma_drop_keeps_well_formed(g2, c, p);
    lemma_drop_takes_one_row(g3, c, p, c);
    let l = landing_row(g, c);
    assert(landing_row(g1, c) == l - 1);
    assert(landing_row(g2, c) == l - 2);
    assert(landing_row(g3, c) == l - 3);
    lemma_landing_row_exists(g, c);
    lemma_landing_row_exists(g1, c);
    lemma_landing_row_exists(g2, c);
    lemma_landing_row_exists(g3, c);
    assert(four_from(g4, c, l - 3, 0, 1, p));
}

/// The piece that a drop has set down is the highest of its column: to look
/// for the highest piece of the column is to find the landing row again.
pub proof fn lemma_dropped_piece_is_on_top(g: Grid, c: int, p: Piece)
    requires
        well_formed(g),
        0 <= c < COLUMNS,
        p != Piece::Empty,
        !column_full(g, c),
    ensures
        is_top_row(dropped(g, c, p), c, landing_row(g, c)),
        top_row(dropped(g, c, p), c) == landing_row(g, c),
        dropped(g, c, p)[c][landing_row(g, c)] == p,
{
    lemma_landing_row_exists(g, c);
    let l = landing_row(g, c);
    let h = dropped(g, c, p);
    assert forall|upper: int| 0 <= upper < l implies !#[trigger] occupied(h, c, upper) by {
        if occupied(g, c, upper) {
            assert(occupied(g, c, l));
        }
    }
    lemma_top_row_unique(h, c, l);
}

/// Three pieces of one player in one column of an otherwise empty grid are
/// no win: neither the first drop wins, nor the second, nor the third.
pub proof fn lemma_three_stacked_no_win(c: int, p: Piece)
    requires
        0 <= c < COLUMNS,
        p != Piece::Empty,
    ensures
        ({
            let first = dropped(empty_grid(), c, p);
            let second = dropped(first, c, p);
            let third = dropped(second, c, p);
            &&& !wins_at(first, c, ROWS - 1, p)
            &&& !wins_at(second, c, ROWS - 2, p)
            &&& !wins_at(third, c, ROWS - 3, p)
            &&& landing_row(empty_grid(), c) == ROWS - 1
            &&& landing_row(first, c) == ROWS - 2
            &&& landing_row(second, c) == ROWS - 3
        }),
{
    let g = empty_grid();
    let first = dropped(g, c, p);
    let second = dropped(first, c, p);
    let third = dropped(second, c, p);
    lemma_empty_grid_well_formed();
    assert(!occupied(g, c, 0));
    assert(is_landing_row(g, c, ROWS - 1));
    lemma_landing_row_unique(g, c, ROWS - 1);
    lemma_drop_keeps_well_formed(g, c, p);
    lemma_drop_takes_one_row(g, c, p, c);
    lemma_drop_keeps_well_formed(first, c, p);
    lemma_drop_takes_one_row(first, c, p, c);
    lemma_drop_takes_one_row(second, c, p, c);
    assert(landing_row(first, c) == ROWS - 2);
    assert(landing_row(second, c) == ROWS - 3);
    assert forall|c2: int, r2: int| in_bounds(c2, r2) && !(c2 == c && r2 >= ROWS - 3) implies third[c2][r2]
        == Piece::Empty by {
        lemma_drop_changes_one_cell(g, c, p, c2, r2);
        lemma_drop_changes_one_cell(first, c, p, c2, r2);
        lemma_drop_changes_one_cell(second, c, p, c2, r2);
    }
    assert forall|c2: int, r2: int| in_bounds(c2, r2) && !(c2 == c && r2 >= ROWS - 2) implies second[c2][r2]
        == Piece::Empty by {
        lemma_drop_changes_one_cell(g, c, p, c2, r2);
        lemma_drop_changes_one_cell(first, c, p, c2, r2);
    }
    assert forall|c2: int, r2: int| in_bounds(c2, r2) && !(c2 == c && r2 >= ROWS - 1) implies first[c2][r2]
        == Piece::Empty by {
        lemma_drop_changes_one_cell(g, c, p, c2, r2);
    }
}

/// A successful drop of a piece leaves the grid with one empty cell fewer.
/// The empty grid has forty-two, and a grid is full when it has none.
pub proof fn lemma_drop_takes_one_cell(g: Grid, c: int, p: Piece)
    requires
        well_formed(g),
        0 <= c < COLUMNS,
        p != Piece::Empty,
    ensures
        free_cells(dropped(g, c, p)) == if column_full(g, c) {
            free_cells(g)
        } else {
            free_cells(g) - 1
        },
        0 <= free_cells(g) <= COLUMNS * ROWS,
        free_cells(g) == 0 <==> grid_full(g),
        free_cells(empty_grid()) == COLUMNS * ROWS,
{
    lemma_drop_takes_one_row(g, c, p, 0);
    lemma_drop_takes_one_row(g, c, p, 1);
    lemma_drop_takes_one_row(g, c, p, 2);
    lemma_drop_takes_one_row(g, c, p, 3);
    lemma_drop_takes_one_row(g, c, p, 4);
    lemma_drop_takes_one_row(g, c, p, 5);
    lemma_drop_takes_one_row(g, c, p, 6);
    if free_cells(g) == 0 {
        assert forall|c2: int| 0 <= c2 < COLUMNS implies #[trigger] column_full(g, c2) by {
            lemma_drop_takes_one_row(g, c, p, c2);
        }
    }
    if grid_full(g) {
        assert(column_full(g, 0) && column_full(g, 1) && column_full(g, 2) && column_full(g, 3)
            && column_full(g, 4) && column_full(g, 5) && column_full(g, 6));
    }
    let e = empty_grid();
    lemma_empty_grid_well_formed();
    assert forall|c2: int| 0 <= c2 < COLUMNS implies free_rows(e, c2) == ROWS by {
        assert(column_empty(e, c2));
        lemma_drop_takes_one_row(e, 0, p, c2);
    }
}

/// After `n` drops that all found room, a well-formed grid is well formed
/// and has `n` empty cells fewer: it takes exactly forty-two such drops to
/// fill the empty grid, and exactly six to fill an empty column.
pub proof fn lemma_drops_count(g: Grid, columns: Seq<int>, p: Piece)
    requires
        well_formed(g),
        are_columns(columns),
        p != Piece::Empty,
        all_land(g, columns, p),
    ensures
        well_formed(dropped_all(g, columns, p)),
        free_cells(dropped_all(g, columns, p)) == free_cells(g) - columns.len(),
        forall|c: int|
            0 <= c < COLUMNS && columns =~= Seq::new(columns.len(), |i: int| c) ==> free_rows(
                dropped_all(g, columns, p),
                c,
            ) == free_rows(g, c) - columns.len(),
    decreases columns.len(),
{
    if columns.len() > 0 {
        let before = columns.drop_last();
        let h = dropped_all(g, before, p);
        lemma_drops_count(g, before, p);
        lemma_drop_keeps_well_formed(h, columns.last(), p);
        lemma_drop_takes_one_cell(h, columns.last(), p);
        assert forall|c: int|
            0 <= c < COLUMNS && columns =~= Seq::new(columns.len(), |i: int| c) implies free_rows(
            dropped_all(g, columns, p),
            c,
        ) == free_rows(g, c) - columns.len() by {
            assert(before =~= Seq::new(before.len(), |i: int| c));
            assert(columns.last() == c);
            lemma_drop_takes_one_row(h, c, p, c);
        }
    }
}

} // verus!
