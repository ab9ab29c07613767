//! The match: whose turn it is, which column is selected, and how each
//! action moves the match from one phase to the next.

use crate::board::{Board, Piece, Player};
use crate::grid::{
    column_full, dropped, empty_grid, four_from, grid_full, has_four, is_axis, landing_row, place,
    well_formed, wins_at, Grid, COLUMNS,
};
use crate::grid::{
    lemma_empty_grid_has_no_four, lemma_empty_grid_well_formed, lemma_landing_row_exists,
    lemma_landing_row_unique, lemma_line_of_four_wins, lemma_new_four_passes_through_placed,
    lemma_place_keeps_well_formed, lemma_place_makes_no_four_of_others, lemma_win_is_four,
};
use vstd::prelude::*;

verus! {

/// How a finished match ended.
#[derive(Copy, Clone, PartialEq, Eq, Debug, Structural)]
pub enum Outcome {
    Win(Player),
    Draw,
}

/// Where a match stands.
#[derive(Copy, Clone, PartialEq, Eq, Debug, Structural)]
pub enum Phase {
    /// No move has been made yet.
    Start,
    /// The players take turns.
    Playing,
    /// A drop has won the match or filled the grid.
    GameOver { outcome: Outcome },
}

/// What a player can ask of a match.
#[derive(Copy, Clone, PartialEq, Eq, Debug, Structural)]
pub enum Action {
    Begin,
    MoveCursorLeft,
    MoveCursorRight,
    Confirm,
    Quit,
    Restart,
}

/// What the caller of [`Match::apply`] does next.
#[derive(Copy, Clone, PartialEq, Eq, Debug, Structural)]
pub enum Flow {
    /// Go on and wait for the next action.
    Continue,
    /// End the session.
    Quit,
}

/// The mathematical model of a match.
pub struct MatchState {
    pub grid: Grid,
    pub player: Player,
    pub phase: Phase,
    pub cursor: int,
}

/// The grid is well formed and the cursor names a column.
pub open spec fn valid(s: MatchState) -> bool {
    well_formed(s.grid) && 0 <= s.cursor < COLUMNS
}

/// A match before its first action.
pub open spec fn initial_state() -> MatchState {
    MatchState { grid: empty_grid(), player: Player::Red, phase: Phase::Start, cursor: 0 }
}

/// The state after the player to move has confirmed the selected column
/// while the match is being played.
pub open spec fn confirmed(s: MatchState) -> MatchState {
    if column_full(s.grid, s.cursor) {
        s
    } else {
        let row = landing_row(s.grid, s.cursor);
        let grid = place(s.grid, s.cursor, row, s.player.piece());
        if wins_at(grid, s.cursor, row, s.player.piece()) {
            MatchState { grid, phase: Phase::GameOver { outcome: Outcome::Win(s.player) }, ..s }
        } else if grid_full(grid) {
            MatchState { grid, phase: Phase::GameOver { outcome: Outcome::Draw }, ..s }
        } else {
            MatchState { grid, player: s.player.other(), ..s }
        }
    }
}

/// The state that `action` leads to from `s`. An action that means nothing
/// in the phase of `s` leaves the state as it is, and so does `Quit`.
pub open spec fn step(s: MatchState, action: Action) -> MatchState {
    match (s.phase, action) {
        (Phase::Start, Action::Begin) => MatchState {
            player: Player::Red,
            phase: Phase::Playing,
            cursor: 0,
            ..s
        },
        (Phase::Playing, Action::MoveCursorLeft) => MatchState {
            cursor: if s.cursor > 0 {
                s.cursor - 1
            } else {
                0
            },
            ..s
        },
        (Phase::Playing, Action::MoveCursorRight) => MatchState {
            cursor: if s.cursor < COLUMNS - 1 {
                s.cursor + 1
            } else {
                COLUMNS - 1
            },
            ..s
        },
        (Phase::Playing, Action::Confirm) => confirmed(s),
        (Phase::GameOver { .. }, Action::Restart) => initial_state(),
        _ => s,
    }
}

/// The state after `action` was taken `n` times in a row.
pub open spec fn repeated(s: MatchState, action: Action, n: nat) -> MatchState
    decreases n,
{
    if n == 0 {
        s
    } else {
        step(repeated(s, action, (n - 1) as nat), action)
    }
}

/// Neither player has four in a line on `g`.
pub open spec fn no_four(g: Grid) -> bool {
    !has_four(g, Piece::Red) && !has_four(g, Piece::Blue)
}

/// What the phase of a match says of its grid and its player: before the
/// first action nothing has happened; while the match is played the grid
/// has room and no line of four; a won match shows four in a line of the
/// winner, who is still the current player; a drawn one is full without a
/// line of four.
pub open spec fn consistent(s: MatchState) -> bool {
    match s.phase {
        Phase::Start => s == initial_state(),
        Phase::Playing => !grid_full(s.grid) && no_four(s.grid),
        Phase::GameOver { outcome: Outcome::Win(winner) } => {
            &&& winner == s.player
            &&& has_four(s.grid, winner.piece())
            &&& !has_four(s.grid, winner.other().piece())
        },
        Phase::GameOver { outcome: Outcome::Draw } => grid_full(s.grid) && no_four(s.grid),
    }
}

/// Whatever the action, the grid stays well formed and the cursor stays on
/// one of the seven columns.
pub proof fn lemma_step_keeps_valid(s: MatchState, action: Action)
    requires
        valid(s),
    ensures
        valid(step(s, action)),
{
    lemma_empty_grid_well_formed();
    if !column_full(s.grid, s.cursor) {
        lemma_landing_row_exists(s.grid, s.cursor);
        lemma_place_keeps_well_formed(
            s.grid,
            s.cursor,
            landing_row(s.grid, s.cursor),
            s.player.piece(),
        );
    }
}

/// Whatever the action, the phase keeps telling the truth about the grid:
/// a match is over exactly when the grid shows it.
pub proof fn lemma_step_keeps_consistent(s: MatchState, action: Action)
    requires
        valid(s),
        consistent(s),
    ensures
        consistent(step(s, action)),
{
    lemma_empty_grid_has_no_four(Piece::Red);
    lemma_empty_grid_has_no_four(Piece::Blue);
    if s.phase == Phase::Playing && action == Action::Confirm && !column_full(s.grid, s.cursor) {
        let row = landing_row(s.grid, s.cursor);
        let piece = s.player.piece();
        let other = s.player.other().piece();
        lemma_landing_row_exists(s.grid, s.cursor);
        lemma_new_four_passes_through_placed(s.grid, s.cursor, row, piece);
        lemma_place_makes_no_four_of_others(s.grid, s.cursor, row, piece, other);
    }
}

/// A match that has just been made is valid and consistent.
pub proof fn lemma_initial_state_is_consistent()
    ensures
        valid(initial_state()),
        consistent(initial_state()),
{
    lemma_empty_grid_well_formed();
}

/// Confirming a full column changes nothing: the grid stays as it is and
/// the turn stays with the same player.
pub proof fn lemma_full_column_takes_no_turn(s: MatchState)
    requires
        s.phase == Phase::Playing,
        column_full(s.grid, s.cursor),
    ensures
        step(s, Action::Confirm) == s,
{
}

/// While a match is played, a drop that neither wins nor fills the grid
/// hands the turn to the other player, and nothing else changes whose turn
/// it is.
pub proof fn lemma_turn_passes_on_plain_drop(s: MatchState, action: Action)
    requires
        s.phase == Phase::Playing,
    ensures
        step(s, action).player == if action == Action::Confirm && !column_full(s.grid, s.cursor)
            && step(s, action).phase == Phase::Playing {
            s.player.other()
        } else {
            s.player
        },
{
}

/// However often the cursor is moved left from the first column it stays
/// there, and likewise moved right from the last.
pub proof fn lemma_cursor_is_clamped(s: MatchState, n: nat)
    requires
        s.phase == Phase::Playing,
    ensures
        s.cursor == 0 ==> repeated(s, Action::MoveCursorLeft, n) == s,
        s.cursor == COLUMNS - 1 ==> repeated(s, Action::MoveCursorRight, n) == s,
    decreases n,
{
    if n > 0 {
        lemma_cursor_is_clamped(s, (n - 1) as nat);
    }
}

/// From a finished match, a restart leads to a match before its first
/// action: an empty grid, the first player to move, the cursor on the first
/// column.
pub proof fn lemma_restart_gives_fresh_match(s: MatchState)
    requires
        s.phase is GameOver,
    ensures
        step(s, Action::Restart) == initial_state(),
        step(s, Action::Restart).phase == Phase::Start,
        step(s, Action::Restart).grid == empty_grid(),
        step(s, Action::Restart).player == Player::Red,
        step(s, Action::Restart).cursor == 0,
{
}

/// A drop that fills the grid without making four in a line of the
/// player's piece ends the match in a draw, never in a win.
pub proof fn lemma_full_grid_without_four_is_draw(s: MatchState)
    requires
        s.phase == Phase::Playing,
        !column_full(s.grid, s.cursor),
        grid_full(step(s, Action::Confirm).grid),
        !has_four(step(s, Action::Confirm).grid, s.player.piece()),
    ensures
        step(s, Action::Confirm).phase == (Phase::GameOver { outcome: Outcome::Draw }),
{
    let row = landing_row(s.grid, s.cursor);
    let piece = s.player.piece();
    let grid = place(s.grid, s.cursor, row, piece);
    if wins_at(grid, s.cursor, row, piece) {
        lemma_win_is_four(grid, s.cursor, row, piece);
    }
}

/// A drop that completes four of the player's pieces in a line, whether
/// down the column, along the row or along a diagonal, wins the match for
/// that player at once.
pub proof fn lemma_completing_a_line_wins(s: MatchState, c: int, r: int, dc: int, dr: int, k: int)
    requires
        s.phase == Phase::Playing,
        !column_full(s.grid, s.cursor),
        is_axis(dc, dr),
        0 <= k < 4,
        c + k * dc == s.cursor,
        r + k * dr == landing_row(s.grid, s.cursor),
        four_from(dropped(s.grid, s.cursor, s.player.piece()), c, r, dc, dr, s.player.piece()),
    ensures
        step(s, Action::Confirm).phase == (Phase::GameOver { outcome: Outcome::Win(s.player) }),
        step(s, Action::Confirm).player == s.player,
{
    lemma_line_of_four_wins(
        dropped(s.grid, s.cursor, s.player.piece()),
        c,
        r,
        dc,
        dr,
        s.player.piece(),
        k,
    );
}

/// A drop ends the match with a win exactly when it leaves four of the
/// player's pieces in a line somewhere on the grid, and with a draw exactly
/// when it leaves none and fills the grid.
pub proof fn lemma_outcome_follows_the_grid(s: MatchState)
    requires
        valid(s),
        consistent(s),
        s.phase == Phase::Playing,
        !column_full(s.grid, s.cursor),
    ensures
        ({
            let after = step(s, Action::Confirm);
            let four = has_four(after.grid, s.player.piece());
            &&& after.grid == dropped(s.grid, s.cursor, s.player.piece())
            &&& after.phase == (Phase::GameOver { outcome: Outcome::Win(s.player) }) <==> four
            &&& after.phase == (Phase::GameOver { outcome: Outcome::Draw }) <==> !four && grid_full(
                after.grid,
            )
            &&& after.phase == Phase::Playing <==> !four && !grid_full(after.grid)
        }),
{
    lemma_step_keeps_consistent(s, Action::Confirm);
}

/// A match of two players on one board.
#[derive(Copy, Clone, Debug)]
pub struct Match {
    board: Board,
    player: Player,
    phase: Phase,
    cursor: usize,
}

impl View for Match {
    type V = MatchState;

    closed spec fn view(&self) -> MatchState {
        MatchState {
            grid: self.board@,
            player: self.player,
            phase: self.phase,
            cursor: self.cursor as int,
        }
    }
}

impl Match {
    /// Every match has a well-formed grid and a cursor on one of its
    /// columns, and its phase tells the truth about its grid.
    #[verifier::type_invariant]
    pub open spec fn wf(&self) -> bool {
        valid(self@) && consistent(self@)
    }

    /// A match before its first action: an empty grid, the first player to
    /// move, the cursor on the first column.
    pub fn new() -> (m: Match)
        ensures
            m@ == initial_state(),
    {
        let board = Board::new();
        proof {
            lemma_initial_state_is_consistent();
        }
        Match { board, player: Player::Red, phase: Phase::Start, cursor: 0 }
    }

    /// The phase the match is in, with the outcome where it is over.
    pub fn phase(&self) -> (p: Phase)
        ensures
            p == self@.phase,
        no_unwind
    {
        self.phase
    }

    /// The player to move; after a win, the winner.
    pub fn current_player(&self) -> (p: Player)
        ensures
            p == self@.player,
        no_unwind
    {
        self.player
    }

    /// The selected column.
    pub fn cursor(&self) -> (c: usize)
        ensures
            c == self@.cursor,
            c < COLUMNS,
        no_unwind
    {
        proof {
            use_type_invariant(self);
        }
        self.cursor
    }

    /// The board of the match, to read.
    pub fn board(&self) -> (b: &Board)
        ensures
            b@ == self@.grid,
        no_unwind
    {
        &self.board
    }

    /// Drops the piece of the player to move into the selected column and
    /// settles what follows: a win, a draw, or the other player's turn.
    fn confirm(&mut self)
        requires
            old(self)@.phase == Phase::Playing,
        ensures
            final(self)@ == confirmed(old(self)@),
        no_unwind
    {
        proof {
            use_type_invariant(&*self);
            lemma_step_keeps_valid(self@, Action::Confirm);
            lemma_step_keeps_consistent(self@, Action::Confirm);
        }
        let player = self.player;
        let cursor = self.cursor;
        let mut board = self.board;
        match board.drop_piece(cursor, player.piece()) {
            Err(_) => {},
            Ok(row) => {
                proof {
                    lemma_landing_row_unique(self@.grid, cursor as int, row as int);
                }
                let (phase, next) = if board.check_win(cursor, row, player) {
                    (Phase::GameOver { outcome: Outcome::Win(player) }, player)
                } else if board.is_board_full() {
                    (Phase::GameOver { outcome: Outcome::Draw }, player)
                } else {
                    (Phase::Playing, player.other())
                };
                *self = Match { board, player: next, phase, cursor };
            },
        }
    }

    /// Carries out `action` and says whether the session goes on.
    pub fn apply(&mut self, action: Action) -> (flow: Flow)
        ensures
            final(self)@ == step(old(self)@, action),
            flow == if action == Action::Quit {
                Flow::Quit
            } else {
                Flow::Continue
            },
            valid(final(self)@),
            consistent(final(self)@),
        no_unwind
    {
        proof {
            use_type_invariant(&*self);
            lemma_step_keeps_valid(self@, action);
            lemma_step_keeps_consistent(self@, action);
        }
        match (self.phase, action) {
            (_, Action::Quit) => {
                return Flow::Quit;
            },
            (Phase::Start, Action::Begin) => {
                *self = Match {
                    board: self.board,
                    player: Player::Red,
                    phase: Phase::Playing,
                    cursor: 0,
                };
            },
            (Phase::Playing, Action::MoveCursorLeft) => {
                if self.cursor > 0 {
                    self.cursor -= 1;
                }
            },
            (Phase::Playing, Action::MoveCursorRight) => {
                if self.cursor < COLUMNS - 1 {
                    self.cursor += 1;
                }
            },
            (Phase::Playing, Action::Confirm) => {
                self.confirm();
            },
            (Phase::GameOver { .. }, Action::Restart) => {
                let mut board = self.board;
                board.reset();
                *self = Match { board, player: Player::Red, phase: Phase::Start, cursor: 0 };
            },
            _ => {},
        }
        Flow::Continue
    }
}

} // verus!
