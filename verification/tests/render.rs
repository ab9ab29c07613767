use connect_four::board::{Board, Piece};
use connect_four::game::{Action, Match};
use connect_four::render::{centred_column, display_width, first_row, frame, status_text};

fn play(game: &mut Match, column: usize) {
    while game.cursor() > column {
        game.apply(Action::MoveCursorLeft);
    }
    while game.cursor() < column {
        game.apply(Action::MoveCursorRight);
    }
    game.apply(Action::Confirm);
}

fn two_pieces() -> Board {
    let mut board = Board::new();
    board.drop_piece(0, Piece::Red).unwrap();
    board.drop_piece(1, Piece::Blue).unwrap();
    board
}

#[test]
fn board_without_colours() {
    colored::control::set_override(false);
    let expected = [
        " ╭ 1  2  3  4  5  6  7 ╮ ",
        " │┊◯┊ ◯  ◯  ◯  ◯  ◯  ◯ │ ",
        " │┊◯┊ ◯  ◯  ◯  ◯  ◯  ◯ │ ",
        " │┊◯┊ ◯  ◯  ◯  ◯  ◯  ◯ │ ",
        " │┊◯┊ ◯  ◯  ◯  ◯  ◯  ◯ │ ",
        " │┊◯┊ ◯  ◯  ◯  ◯  ◯  ◯ │ ",
        " │┊◈┊ ◉  ◯  ◯  ◯  ◯  ◯ │ ",
        " ╰┴─┴──────────────────╯ ",
    ];
    let board = two_pieces();
    assert_eq!(board.get_board(Some(0)), expected.join("\n"));
    for (line, text) in expected.iter().enumerate() {
        assert_eq!(board.board_line(Some(0), line), *text);
    }
}

#[test]
fn board_without_a_selected_column() {
    colored::control::set_override(false);
    let expected = [
        " ╭ 1  2  3  4  5  6  7 ╮ ",
        " │ ◯  ◯  ◯  ◯  ◯  ◯  ◯ │ ",
        " │ ◯  ◯  ◯  ◯  ◯  ◯  ◯ │ ",
        " │ ◯  ◯  ◯  ◯  ◯  ◯  ◯ │ ",
        " │ ◯  ◯  ◯  ◯  ◯  ◯  ◯ │ ",
        " │ ◯  ◯  ◯  ◯  ◯  ◯  ◯ │ ",
        " │ ◉  ◉  ◯  ◯  ◯  ◯  ◯ │ ",
        " ╰─────────────────────╯ ",
    ];
    assert_eq!(two_pieces().get_board(None), expected.join("\n"));
}

#[test]
fn board_marks_the_last_column() {
    colored::control::set_override(false);
    let board = two_pieces();
    assert_eq!(board.board_line(Some(6), 6), " │ ◉  ◉  ◯  ◯  ◯  ◯ ┊◯┊│ ");
    assert_eq!(board.board_line(Some(6), 7), " ╰──────────────────┴─┴╯ ");
    assert_eq!(board.board_line(Some(1), 6), " │ ◉ ┊◈┊ ◯  ◯  ◯  ◯  ◯ │ ");
}

#[test]
fn board_in_colours() {
    colored::control::set_override(true);
    let board = two_pieces();
    let ring = "\u{1b}[2m◯\u{1b}[0m";
    let red = "\u{1b}[31m◈\u{1b}[0m";
    let blue = "\u{1b}[34m◉\u{1b}[0m";
    let bottom = format!(
        " │┊{red}┊ {blue}  {ring}  {ring}  {ring}  {ring}  {ring} │ ",
        red = red,
        blue = blue,
        ring = ring
    );
    assert_eq!(board.board_line(Some(0), 6), bottom);
    assert_eq!(board.board_line(Some(0), 0), " ╭ 1  2  3  4  5  6  7 ╮ ");
    let text = board.get_board(Some(0));
    assert_eq!(text.lines().count(), 8);
    assert_eq!(text.lines().nth(6), Some(bottom.as_str()));
}

#[test]
fn status_follows_the_match() {
    colored::control::set_override(false);
    let mut game = Match::new();
    assert_eq!(status_text(&game), "Press any key to start!");
    game.apply(Action::Begin);
    assert_eq!(status_text(&game), "It's Red's turn!");
    play(&mut game, 0);
    assert_eq!(status_text(&game), "It's Blue's turn!");
    for column in [1, 0, 1, 0, 1] {
        play(&mut game, column);
    }
    play(&mut game, 0);
    assert_eq!(status_text(&game), "Red wins!");
}

#[test]
fn status_of_a_draw_and_of_blue_winning() {
    colored::control::set_override(false);
    let mut game = Match::new();
    game.apply(Action::Begin);
    for column in [0, 1, 0, 1, 0, 1, 2, 1] {
        play(&mut game, column);
    }
    assert_eq!(status_text(&game), "Blue wins!");

    let mut game = Match::new();
    game.apply(Action::Begin);
    let mut columns = Vec::new();
    for column in [0, 1, 2] {
        columns.extend([column; 6]);
    }
    columns.push(6);
    for column in [3, 4, 5] {
        columns.extend([column; 6]);
    }
    columns.extend([6; 5]);
    for column in columns {
        play(&mut game, column);
    }
    assert_eq!(status_text(&game), "It's a draw!");
}

#[test]
fn status_in_colours() {
    colored::control::set_override(true);
    let mut game = Match::new();
    game.apply(Action::Begin);
    assert_eq!(status_text(&game), "It's \u{1b}[31mRed\u{1b}[0m's turn!");
    play(&mut game, 0);
    assert_eq!(status_text(&game), "It's \u{1b}[34mBlue\u{1b}[0m's turn!");
}

#[test]
fn width_counts_what_is_seen() {
    assert_eq!(display_width(""), 0);
    assert_eq!(display_width("Connect 4"), 9);
    assert_eq!(display_width("\u{1b}[31mRed\u{1b}[0m wins!"), 9);
    assert_eq!(display_width("\u{1b}[2m◯\u{1b}[0m"), 1);
    assert_eq!(display_width("e\u{301}"), 1);
    assert_eq!(display_width(" ╭ 1  2  3  4  5  6  7 ╮ "), 25);
}

#[test]
fn centred_column_halves_what_is_left() {
    assert_eq!(centred_column(80, 9), 35);
    assert_eq!(centred_column(80, 25), 27);
    assert_eq!(centred_column(80, 0), 40);
    assert_eq!(centred_column(25, 25), 0);
    assert_eq!(centred_column(26, 25), 0);
    assert_eq!(centred_column(27, 25), 1);
    assert_eq!(centred_column(10, 25), 0);
    assert_eq!(centred_column(0, 0), 0);
    assert_eq!(centred_column(65535, 1), 32767);
    assert_eq!(centred_column(65535, usize::MAX), 0);
}

#[test]
fn first_row_centres_the_board() {
    assert_eq!(first_row(24), 8);
    assert_eq!(first_row(9), 0);
    assert_eq!(first_row(8), 0);
    assert_eq!(first_row(10), 1);
    assert_eq!(first_row(7), 0);
    assert_eq!(first_row(0), 0);
    assert_eq!(first_row(65535), 32763);
}

#[test]
fn frame_before_the_match() {
    colored::control::set_override(false);
    let game = Match::new();
    let lines = frame(&game, 80, 24);
    let texts: Vec<&str> = lines.iter().map(|line| line.text.as_str()).collect();
    assert_eq!(
        texts,
        [
            "Connect 4",
            "Press any key to start!",
            "",
            " ╭ 1  2  3  4  5  6  7 ╮ ",
            " │┊◯┊ ◯  ◯  ◯  ◯  ◯  ◯ │ ",
            " │┊◯┊ ◯  ◯  ◯  ◯  ◯  ◯ │ ",
            " │┊◯┊ ◯  ◯  ◯  ◯  ◯  ◯ │ ",
            " │┊◯┊ ◯  ◯  ◯  ◯  ◯  ◯ │ ",
            " │┊◯┊ ◯  ◯  ◯  ◯  ◯  ◯ │ ",
            " │┊◯┊ ◯  ◯  ◯  ◯  ◯  ◯ │ ",
            " ╰┴─┴──────────────────╯ ",
            "",
            "Press Ctrl+C key at any time.",
        ]
    );
    let rows: Vec<u16> = lines.iter().map(|line| line.row).collect();
    assert_eq!(rows, (8..21).collect::<Vec<u16>>());
    let columns: Vec<u16> = lines.iter().map(|line| line.column).collect();
    assert_eq!(columns, [35, 28, 40, 27, 27, 27, 27, 27, 27, 27, 27, 40, 25]);
}

#[test]
fn frame_of_a_running_match() {
    colored::control::set_override(false);
    let mut game = Match::new();
    game.apply(Action::Begin);
    play(&mut game, 2);
    let lines = frame(&game, 40, 30);
    let texts: Vec<&str> = lines.iter().map(|line| line.text.as_str()).collect();
    assert_eq!(
        texts,
        [
            "Connect 4",
            "It's Blue's turn!",
            "",
            " ╭ 1  2  3  4  5  6  7 ╮ ",
            " │ ◯  ◯ ┊◯┊ ◯  ◯  ◯  ◯ │ ",
            " │ ◯  ◯ ┊◯┊ ◯  ◯  ◯  ◯ │ ",
            " │ ◯  ◯ ┊◯┊ ◯  ◯  ◯  ◯ │ ",
            " │ ◯  ◯ ┊◯┊ ◯  ◯  ◯  ◯ │ ",
            " │ ◯  ◯ ┊◯┊ ◯  ◯  ◯  ◯ │ ",
            " │ ◯  ◯ ┊◈┊ ◯  ◯  ◯  ◯ │ ",
            " ╰──────┴─┴────────────╯ ",
            "",
            "Select Column: 3",
            "Press enter to confirm.",
            "",
            "Press Ctrl+C key at any time.",
        ]
    );
    let rows: Vec<u16> = lines.iter().map(|line| line.row).collect();
    assert_eq!(rows, (11..27).collect::<Vec<u16>>());
    assert_eq!(lines[0].column, 15);
    assert_eq!(lines[1].column, 11);
    assert_eq!(lines[12].column, 12);
    assert_eq!(lines[13].column, 8);
}

#[test]
fn frame_names_every_column() {
    colored::control::set_override(false);
    let mut game = Match::new();
    game.apply(Action::Begin);
    for number in 1..=7 {
        let lines = frame(&game, 80, 24);
        assert_eq!(lines[12].text, format!("Select Column: {}", number));
        game.apply(Action::MoveCursorRight);
    }
}

#[test]
fn frame_on_a_small_screen_starts_at_the_edges() {
    colored::control::set_override(false);
    let game = Match::new();
    let lines = frame(&game, 10, 4);
    assert_eq!(lines.len(), 13);
    for (index, line) in lines.iter().enumerate() {
        assert_eq!(usize::from(line.row), index);
    }
    assert_eq!(lines[0].column, 0);
    assert_eq!(lines[2].column, 5);
    assert_eq!(lines[3].column, 0);
}

#[test]
fn frame_in_colours_is_placed_by_what_is_seen() {
    colored::control::set_override(true);
    let mut game = Match::new();
    game.apply(Action::Begin);
    let lines = frame(&game, 80, 24);
    assert_eq!(lines[0].text, "\u{1b}[36mConnect 4\u{1b}[0m");
    assert_eq!(lines[0].column, 35);
    assert_eq!(lines[1].text, "It's \u{1b}[31mRed\u{1b}[0m's turn!");
    assert_eq!(lines[1].column, 32);
    assert_eq!(lines[3].column, 27);
    assert_eq!(lines[4].column, 27);
    assert_eq!(lines[12].text, "Select Column: \u{1b}[33m1\u{1b}[0m");
    assert_eq!(lines[12].column, 32);
    assert_eq!(lines[15].text, "\u{1b}[2mPress Ctrl+C key at any time.\u{1b}[0m");
    assert_eq!(lines[15].column, 25);
}
