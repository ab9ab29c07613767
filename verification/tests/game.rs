use connect_four::board::{Piece, Player};
use connect_four::game::{Action, Flow, Match, Outcome, Phase};

/// Moves the cursor to `column` and confirms.
fn play(game: &mut Match, column: usize) {
    while game.cursor() > column {
        assert_eq!(game.apply(Action::MoveCursorLeft), Flow::Continue);
    }
    while game.cursor() < column {
        assert_eq!(game.apply(Action::MoveCursorRight), Flow::Continue);
    }
    assert_eq!(game.apply(Action::Confirm), Flow::Continue);
}

fn started() -> Match {
    let mut game = Match::new();
    assert_eq!(game.apply(Action::Begin), Flow::Continue);
    game
}

/// The columns of a match that fills the grid without four in a line.
fn drawn_match_columns() -> Vec<usize> {
    let mut columns = Vec::new();
    for column in [0, 1, 2] {
        columns.extend([column; 6]);
    }
    columns.push(6);
    for column in [3, 4, 5] {
        columns.extend([column; 6]);
    }
    columns.extend([6; 5]);
    columns
}

#[test]
fn new_match_waits_at_the_start() {
    let game = Match::new();
    assert_eq!(game.phase(), Phase::Start);
    assert_eq!(game.current_player(), Player::Red);
    assert_eq!(game.cursor(), 0);
    for x in 0..7 {
        for y in 0..6 {
            assert_eq!(game.board().cell(x, y), Piece::Empty);
        }
    }
}

#[test]
fn begin_starts_the_match() {
    let mut game = Match::new();
    assert_eq!(game.apply(Action::Begin), Flow::Continue);
    assert_eq!(game.phase(), Phase::Playing);
    assert_eq!(game.current_player(), Player::Red);
    assert_eq!(game.cursor(), 0);
}

#[test]
fn actions_out_of_their_phase_do_nothing() {
    let mut game = Match::new();
    for action in [
        Action::MoveCursorLeft,
        Action::MoveCursorRight,
        Action::Confirm,
        Action::Restart,
    ] {
        assert_eq!(game.apply(action), Flow::Continue);
        assert_eq!(game.phase(), Phase::Start);
        assert_eq!(game.cursor(), 0);
        assert_eq!(game.board().cell(0, 5), Piece::Empty);
    }
    let mut game = started();
    play(&mut game, 2);
    for action in [Action::Begin, Action::Restart] {
        assert_eq!(game.apply(action), Flow::Continue);
        assert_eq!(game.phase(), Phase::Playing);
        assert_eq!(game.cursor(), 2);
        assert_eq!(game.current_player(), Player::Blue);
        assert_eq!(game.board().cell(2, 5), Piece::Red);
    }
}

#[test]
fn quit_ends_the_session_in_every_phase_and_changes_nothing() {
    let mut game = Match::new();
    assert_eq!(game.apply(Action::Quit), Flow::Quit);
    assert_eq!(game.phase(), Phase::Start);

    let mut game = started();
    play(&mut game, 4);
    assert_eq!(game.apply(Action::Quit), Flow::Quit);
    assert_eq!(game.phase(), Phase::Playing);
    assert_eq!(game.cursor(), 4);
    assert_eq!(game.current_player(), Player::Blue);
    assert_eq!(game.board().cell(4, 5), Piece::Red);

    for column in [0, 4, 0, 4, 0, 4] {
        play(&mut game, column);
    }
    let over = Phase::GameOver { outcome: Outcome::Win(Player::Red) };
    assert_eq!(game.phase(), over);
    assert_eq!(game.apply(Action::Quit), Flow::Quit);
    assert_eq!(game.phase(), over);
}

#[test]
fn cursor_stops_at_both_edges() {
    let mut game = started();
    for _ in 0..3 {
        game.apply(Action::MoveCursorLeft);
        assert_eq!(game.cursor(), 0);
    }
    for expected in 1..=6 {
        game.apply(Action::MoveCursorRight);
        assert_eq!(game.cursor(), expected);
    }
    for _ in 0..3 {
        game.apply(Action::MoveCursorRight);
        assert_eq!(game.cursor(), 6);
    }
    game.apply(Action::MoveCursorLeft);
    assert_eq!(game.cursor(), 5);
}

#[test]
fn players_take_turns() {
    let mut game = started();
    assert_eq!(game.current_player(), Player::Red);
    play(&mut game, 3);
    assert_eq!(game.board().cell(3, 5), Piece::Red);
    assert_eq!(game.current_player(), Player::Blue);
    play(&mut game, 3);
    assert_eq!(game.board().cell(3, 4), Piece::Blue);
    assert_eq!(game.current_player(), Player::Red);
    game.apply(Action::MoveCursorLeft);
    assert_eq!(game.current_player(), Player::Red);
}

#[test]
fn full_column_takes_no_turn() {
    let mut game = started();
    for _ in 0..6 {
        play(&mut game, 0);
    }
    assert_eq!(game.phase(), Phase::Playing);
    assert_eq!(game.current_player(), Player::Red);
    let before: Vec<Piece> = (0..6).map(|y| game.board().cell(0, y)).collect();
    assert_eq!(game.apply(Action::Confirm), Flow::Continue);
    let after: Vec<Piece> = (0..6).map(|y| game.board().cell(0, y)).collect();
    assert_eq!(before, after);
    assert_eq!(game.phase(), Phase::Playing);
    assert_eq!(game.current_player(), Player::Red);
    assert_eq!(game.cursor(), 0);
}

#[test]
fn fourth_piece_in_a_column_wins_and_not_the_third() {
    let mut game = started();
    for column in [0, 1, 0, 1, 0, 1] {
        play(&mut game, column);
        assert_eq!(game.phase(), Phase::Playing);
    }
    play(&mut game, 0);
    assert_eq!(game.phase(), Phase::GameOver { outcome: Outcome::Win(Player::Red) });
    assert_eq!(game.current_player(), Player::Red);
    assert!(game.board().check_win(0, 2, Player::Red));
}

#[test]
fn four_in_the_bottom_row_win_the_match() {
    let mut game = started();
    for column in [0, 0, 1, 1, 2, 2] {
        play(&mut game, column);
        assert_eq!(game.phase(), Phase::Playing);
    }
    play(&mut game, 3);
    assert_eq!(game.board().cell(3, 5), Piece::Red);
    assert!(game.board().check_win(3, 5, Player::Red));
    assert_eq!(game.phase(), Phase::GameOver { outcome: Outcome::Win(Player::Red) });
}

#[test]
fn diagonal_wins_the_match() {
    let mut game = started();
    for column in [0, 1, 1, 2, 3, 2, 2, 3, 6, 3] {
        play(&mut game, column);
        assert_eq!(game.phase(), Phase::Playing);
    }
    play(&mut game, 3);
    for (x, y) in [(0, 5), (1, 4), (2, 3), (3, 2)] {
        assert_eq!(game.board().cell(x, y), Piece::Red);
    }
    assert_eq!(game.phase(), Phase::GameOver { outcome: Outcome::Win(Player::Red) });
}

#[test]
fn second_player_can_win() {
    let mut game = started();
    for column in [0, 1, 0, 1, 0, 1, 2] {
        play(&mut game, column);
        assert_eq!(game.phase(), Phase::Playing);
    }
    play(&mut game, 1);
    assert_eq!(game.phase(), Phase::GameOver { outcome: Outcome::Win(Player::Blue) });
    assert_eq!(game.current_player(), Player::Blue);
}

#[test]
fn win_is_judged_at_the_landing_row_of_a_mixed_column() {
    let mut game = started();
    // Red builds the bottom row while blue stacks on red's pieces; the
    // winning piece lands on top of a blue one.
    for column in [0, 3, 1, 0, 2, 1] {
        play(&mut game, column);
        assert_eq!(game.phase(), Phase::Playing);
    }
    assert_eq!(game.board().cell(3, 5), Piece::Blue);
    play(&mut game, 2);
    play(&mut game, 6);
    play(&mut game, 3);
    assert_eq!(game.board().cell(3, 4), Piece::Red);
    assert_eq!(game.phase(), Phase::Playing);
}

#[test]
fn full_grid_without_four_is_a_draw() {
    let mut game = started();
    let columns = drawn_match_columns();
    assert_eq!(columns.len(), 42);
    for (moves, column) in columns.iter().enumerate() {
        assert_eq!(game.phase(), Phase::Playing, "after {} moves", moves);
        assert!(!game.board().is_board_full());
        play(&mut game, *column);
    }
    assert!(game.board().is_board_full());
    assert_eq!(game.phase(), Phase::GameOver { outcome: Outcome::Draw });
}

#[test]
fn restart_gives_a_fresh_match() {
    let mut game = started();
    for column in [5, 6, 5, 6, 5, 6, 5] {
        play(&mut game, column);
    }
    assert_eq!(game.phase(), Phase::GameOver { outcome: Outcome::Win(Player::Red) });
    assert_eq!(game.cursor(), 5);
    for action in [
        Action::Begin,
        Action::MoveCursorLeft,
        Action::MoveCursorRight,
        Action::Confirm,
    ] {
        game.apply(action);
        assert_eq!(game.phase(), Phase::GameOver { outcome: Outcome::Win(Player::Red) });
        assert_eq!(game.cursor(), 5);
    }
    assert_eq!(game.apply(Action::Restart), Flow::Continue);
    assert_eq!(game.phase(), Phase::Start);
    assert_eq!(game.current_player(), Player::Red);
    assert_eq!(game.cursor(), 0);
    for x in 0..7 {
        for y in 0..6 {
            assert_eq!(game.board().cell(x, y), Piece::Empty);
        }
    }
}

#[test]
fn restart_after_a_draw_lets_red_begin() {
    let mut game = started();
    for column in drawn_match_columns() {
        play(&mut game, column);
    }
    assert_eq!(game.phase(), Phase::GameOver { outcome: Outcome::Draw });
    game.apply(Action::Restart);
    assert_eq!(game.phase(), Phase::Start);
    game.apply(Action::Begin);
    assert_eq!(game.phase(), Phase::Playing);
    assert_eq!(game.current_player(), Player::Red);
    assert_eq!(game.cursor(), 0);
    assert!(!game.board().is_board_full());
}
