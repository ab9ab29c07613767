//! What a match looks like on a terminal: the text of each line, its colours
//! and where it goes.
//!
//! The text is described as spans, pieces of text with a style each. Whether
//! a styled span comes out with or without its colour codes is for the
//! terminal and the environment to decide, so the contracts here say that
//! the text is a rendering of its spans: every span shown one way or the
//! other.

use crate::board::{Board, Piece, Player};
use crate::game::{Match, MatchState, Outcome, Phase};
use crate::grid::{Grid, COLUMNS, ROWS};
use vstd::prelude::*;
use vstd::string::StringExecFns;

verus! {

/// How a piece of text is set off.
#[derive(Copy, Clone, PartialEq, Eq, Debug, Structural)]
pub enum Style {
    Plain,
    Red,
    Blue,
    Cyan,
    Yellow,
    Dimmed,
}

/// A piece of text with its style.
pub struct Span {
    pub text: Seq<char>,
    pub style: Style,
}

/// The escape character, with which every colour code begins.
pub open spec fn escape() -> char {
    '\u{1b}'
}

/// `text` holds no escape character.
pub open spec fn is_plain_text(text: Seq<char>) -> bool {
    forall|i: int| 0 <= i < text.len() ==> #[trigger] text[i] != escape()
}

/// The number by which a terminal knows a style.
pub open spec fn style_code(style: Style) -> Seq<char> {
    match style {
        Style::Plain => seq![],
        Style::Red => seq!['3', '1'],
        Style::Blue => seq!['3', '4'],
        Style::Cyan => seq!['3', '6'],
        Style::Yellow => seq!['3', '3'],
        Style::Dimmed => seq!['2'],
    }
}

/// `text` between the code that switches `style` on and the code that
/// switches every style off.
pub open spec fn painted(text: Seq<char>, style: Style) -> Seq<char> {
    seq![escape(), '['] + style_code(style) + seq!['m'] + text + seq![escape(), '[', '0', 'm']
}

/// A span without a style.
pub open spec fn plain(text: Seq<char>) -> Span {
    Span { text, style: Style::Plain }
}

/// `out` is the text of `span`, bare or painted in its style. A plain span
/// is always bare.
pub open spec fn shows(out: Seq<char>, span: Span) -> bool {
    out == span.text || (span.style != Style::Plain && out == painted(span.text, span.style))
}

/// `k` is a place at which `out` can be cut in two.
pub open spec fn is_cut(out: Seq<char>, k: int) -> bool {
    0 <= k <= out.len()
}

/// `out` is the spans one after another, each of them bare or painted.
pub open spec fn is_rendering(out: Seq<char>, spans: Seq<Span>) -> bool
    decreases spans.len(),
{
    if spans.len() == 0 {
        out.len() == 0
    } else {
        exists|k: int|
            #[trigger] is_cut(out, k) && is_rendering(out.subrange(0, k), spans.drop_last())
                && shows(out.subrange(k, out.len() as int), spans.last())
    }
}

/// What is left of a text when its colour codes are taken out.
pub uninterp spec fn stripped(text: Seq<char>) -> Seq<char>;

/// The number of grapheme clusters of a text: of what a reader takes for
/// its characters.
pub uninterp spec fn cluster_count(text: Seq<char>) -> nat;

/// The number of places a text takes on the screen.
pub open spec fn shown_width(text: Seq<char>) -> nat {
    cluster_count(stripped(text))
}

/// A rendering goes on being one when another span is shown behind it.
pub proof fn lemma_rendering_push(out: Seq<char>, spans: Seq<Span>, piece: Seq<char>, span: Span)
    requires
        is_rendering(out, spans),
        shows(piece, span),
    ensures
        is_rendering(out + piece, spans.push(span)),
{
    let whole = out + piece;
    let k = out.len() as int;
    assert(is_cut(whole, k));
    assert(whole.subrange(0, k) =~= out);
    assert(whole.subrange(k, whole.len() as int) =~= piece);
    assert(spans.push(span).drop_last() =~= spans);
}

/// Two renderings one after the other render the spans of both.
pub proof fn lemma_rendering_concat(a: Seq<char>, first: Seq<Span>, b: Seq<char>, second: Seq<Span>)
    requires
        is_rendering(a, first),
        is_rendering(b, second),
    ensures
        is_rendering(a + b, first + second),
    decreases second.len(),
{
    if second.len() == 0 {
        assert(a + b =~= a);
        assert(first + second =~= first);
    } else {
        let k = choose|k: int|
            #[trigger] is_cut(b, k) && is_rendering(b.subrange(0, k), second.drop_last())
                && shows(b.subrange(k, b.len() as int), second.last());
        lemma_rendering_concat(a, first, b.subrange(0, k), second.drop_last());
        lemma_rendering_push(
            a + b.subrange(0, k),
            first + second.drop_last(),
            b.subrange(k, b.len() as int),
            second.last(),
        );
        assert(a + b.subrange(0, k) + b.subrange(k, b.len() as int) =~= a + b);
        assert((first + second.drop_last()).push(second.last()) =~= first + second);
    }
}

/// Colorize::red of the colored crate, as the Display of its result
/// writes it. Given a text without an escape character, colored writes the
/// text as it is where colours are switched off, and else the text between
/// the code for red and the code for reset.
#[verifier::external_body]
fn red(text: &str) -> (out: String)
    requires
        is_plain_text(text@),
    ensures
        shows(out@, Span { text: text@, style: Style::Red }),
{
    colored::Colorize::red(text).to_string()
}

/// Colorize::blue of the colored crate, as the Display of its result
/// writes it. Given a text without an escape character, colored writes the
/// text as it is where colours are switched off, and else the text between
/// the code for blue and the code for reset.
#[verifier::external_body]
fn blue(text: &str) -> (out: String)
    requires
        is_plain_text(text@),
    ensures
        shows(out@, Span { text: text@, style: Style::Blue }),
{
    colored::Colorize::blue(text).to_string()
}

/// Colorize::cyan of the colored crate, as the Display of its result
/// writes it. Given a text without an escape character, colored writes the
/// text as it is where colours are switched off, and else the text between
/// the code for cyan and the code for reset.
#[verifier::external_body]
fn cyan(text: &str) -> (out: String)
    requires
        is_plain_text(text@),
    ensures
        shows(out@, Span { text: text@, style: Style::Cyan }),
{
    colored::Colorize::cyan(text).to_string()
}

/// Colorize::yellow of the colored crate, as the Display of its result
/// writes it. Given a text without an escape character, colored writes the
/// text as it is where colours are switched off, and else the text between
/// the code for yellow and the code for reset.
#[verifier::external_body]
fn yellow(text: &str) -> (out: String)
    requires
        is_plain_text(text@),
    ensures
        shows(out@, Span { text: text@, style: Style::Yellow }),
{
    colored::Colorize::yellow(text).to_string()
}

/// Colorize::dimmed of the colored crate, as the Display of its result
/// writes it. Given a text without an escape character, colored writes the
/// text as it is where colours are switched off, and else the text between
/// the code for the dimmed style and the code for reset.
#[verifier::external_body]
fn dimmed(text: &str) -> (out: String)
    requires
        is_plain_text(text@),
    ensures
        shows(out@, Span { text: text@, style: Style::Dimmed }),
{
    colored::Colorize::dimmed(text).to_string()
}

/// strip_ansi of the strip_ansi crate: the text without the colour codes
/// that it holds.
#[verifier::external_body]
fn strip_ansi(text: &str) -> (out: String)
    ensures
        out@ == stripped(text@),
{
    strip_ansi::strip_ansi(text)
}

/// UnicodeSegmentation::graphemes of the unicode_segmentation crate, counted:
/// the number of extended grapheme clusters of the text.
#[verifier::external_body]
fn count_graphemes(text: &str) -> (n: usize)
    ensures
        n == cluster_count(text@),
{
    unicode_segmentation::UnicodeSegmentation::graphemes(text, true).count()
}

/// `text` in `style`.
fn paint(text: &str, style: Style) -> (out: String)
    requires
        is_plain_text(text@),
    ensures
        shows(out@, Span { text: text@, style }),
{
    match style {
        Style::Plain => String::from_str(text),
        Style::Red => red(text),
        Style::Blue => blue(text),
        Style::Cyan => cyan(text),
        Style::Yellow => yellow(text),
        Style::Dimmed => dimmed(text),
    }
}

/// The number of places that `text` takes on the screen: its grapheme
/// clusters, colour codes not counted.
pub fn display_width(text: &str) -> (width: usize)
    ensures
        width == shown_width(text@),
{
    let bare = strip_ansi(text);
    count_graphemes(bare.as_str())
}

/// The column at which a text of `text_width` places starts so that it
/// stands in the middle of a line of `width` places: the first column where
/// the text is wider than the line.
pub open spec fn centred(width: int, text_width: int) -> int {
    if text_width >= width {
        0
    } else {
        (width - text_width) / 2
    }
}

/// The column at which a text of `text_width` places starts so that it
/// stands in the middle of a line of `width` places.
pub fn centred_column(width: u16, text_width: usize) -> (column: u16)
    ensures
        column == centred(width as int, text_width as int),
    no_unwind
{
    if text_width >= width as usize {
        0
    } else {
        (width - text_width as u16) / 2
    }
}

/// The number of lines that the board takes.
pub const BOARD_HEIGHT: u16 = 8;

/// The row of the first line of a frame on a screen of `height` rows, which
/// puts the board's eight lines in the middle where they fit.
pub open spec fn first_row_of(height: int) -> int {
    if height >= BOARD_HEIGHT {
        (height - BOARD_HEIGHT) / 2
    } else {
        0
    }
}

/// The row of the first line of a frame on a screen of `height` rows.
pub fn first_row(height: u16) -> (row: u16)
    ensures
        row == first_row_of(height as int),
    no_unwind
{
    if height >= BOARD_HEIGHT {
        (height - BOARD_HEIGHT) / 2
    } else {
        0
    }
}

/// Shows `text` behind what `out` holds already.
fn push_plain(out: &mut String, text: &str, Ghost(spans): Ghost<Seq<Span>>)
    requires
        is_rendering(old(out)@, spans),
    ensures
        is_rendering(final(out)@, spans.push(plain(text@))),
{
    out.append(text);
    proof {
        lemma_rendering_push(old(out)@, spans, text@, plain(text@));
    }
}

/// Shows `text` in `style` behind what `out` holds already.
fn push_styled(out: &mut String, text: &str, style: Style, Ghost(spans): Ghost<Seq<Span>>)
    requires
        is_plain_text(text@),
        is_rendering(old(out)@, spans),
    ensures
        is_rendering(final(out)@, spans.push(Span { text: text@, style })),
{
    let piece = paint(text, style);
    out.append(piece.as_str());
    proof {
        lemma_rendering_push(old(out)@, spans, piece@, Span { text: text@, style });
    }
}

/// Whether `column` is the selected one.
pub open spec fn is_selected(selected: Option<int>, column: int) -> bool {
    selected == Some(column)
}

/// The selected column as the model has it.
pub open spec fn as_column(highlights: Option<usize>) -> Option<int> {
    match highlights {
        Some(column) => Some(column as int),
        None => None,
    }
}

/// The text beside a disc: a dotted line in the selected column.
pub open spec fn border_text(selected: bool) -> Seq<char> {
    if selected {
        "┊"@
    } else {
        " "@
    }
}

/// The text of a disc, which is marked in the selected column.
pub open spec fn disc_text(selected: bool) -> Seq<char> {
    if selected {
        "◈"@
    } else {
        "◉"@
    }
}

/// The text below a column: a bracket below the selected one.
pub open spec fn foot_text(selected: bool) -> Seq<char> {
    if selected {
        "┴─┴"@
    } else {
        "───"@
    }
}

/// What shows a cell: a dimmed ring where it is empty, else a disc in the
/// colour of its piece.
pub open spec fn piece_span(piece: Piece, selected: bool) -> Span {
    match piece {
        Piece::Empty => Span { text: "◯"@, style: Style::Dimmed },
        Piece::Red => Span { text: disc_text(selected), style: Style::Red },
        Piece::Blue => Span { text: disc_text(selected), style: Style::Blue },
    }
}

/// The left edge of row `y` and its first `n` cells, each between two
/// borders.
pub open spec fn cells_spans(g: Grid, selected: Option<int>, y: int, n: int) -> Seq<Span>
    decreases n,
{
    if n <= 0 {
        seq![plain(" │"@)]
    } else {
        let marked = is_selected(selected, n - 1);
        cells_spans(g, selected, y, n - 1).push(plain(border_text(marked))).push(
            piece_span(g[n - 1][y], marked),
        ).push(plain(border_text(marked)))
    }
}

/// The left corner of the bottom edge and what lies below the first `n`
/// columns.
pub open spec fn feet_spans(selected: Option<int>, n: int) -> Seq<Span>
    decreases n,
{
    if n <= 0 {
        seq![plain(" ╰"@)]
    } else {
        feet_spans(selected, n - 1).push(plain(foot_text(is_selected(selected, n - 1))))
    }
}

/// The bottom edge of the board.
pub open spec fn bottom_edge_spans(selected: Option<int>) -> Seq<Span> {
    feet_spans(selected, COLUMNS as int).push(plain("╯ "@))
}

/// One of the eight lines of the board: the top edge with the numbers of
/// the columns, the six rows from the top one down, and the bottom edge.
pub open spec fn board_line_spans(g: Grid, selected: Option<int>, line: int) -> Seq<Span> {
    if line <= 0 {
        seq![plain(" ╭ 1  2  3  4  5  6  7 ╮ "@)]
    } else if line <= ROWS {
        cells_spans(g, selected, line - 1, COLUMNS as int).push(plain("│ "@))
    } else {
        bottom_edge_spans(selected)
    }
}

/// The first `lines` lines of the board with a line break between each
/// two.
pub open spec fn board_spans(g: Grid, selected: Option<int>, lines: int) -> Seq<Span>
    decreases lines,
{
    if lines <= 0 {
        seq![]
    } else if lines == 1 {
        board_line_spans(g, selected, 0)
    } else {
        board_spans(g, selected, lines - 1).push(plain("\n"@)) + board_line_spans(
            g,
            selected,
            lines - 1,
        )
    }
}

/// The ring that shows an empty cell.
fn ring() -> (text: &'static str)
    ensures
        text@ == "◯"@,
        is_plain_text(text@),
{
    proof {
        reveal_strlit("◯");
    }
    "◯"
}

/// The disc that shows a piece.
fn disc(selected: bool) -> (text: &'static str)
    ensures
        text@ == disc_text(selected),
        is_plain_text(text@),
{
    proof {
        reveal_strlit("◈");
        reveal_strlit("◉");
    }
    if selected {
        "◈"
    } else {
        "◉"
    }
}

impl Board {
    /// Shows the cell in column `x` and row `y` behind what `out` holds.
    fn push_cell(
        &self,
        out: &mut String,
        x: usize,
        y: usize,
        marked: bool,
        Ghost(spans): Ghost<Seq<Span>>,
    )
        requires
            x < COLUMNS,
            y < ROWS,
            is_rendering(old(out)@, spans),
        ensures
            is_rendering(
                final(out)@,
                spans.push(plain(border_text(marked))).push(
                    piece_span(self@[x as int][y as int], marked),
                ).push(plain(border_text(marked))),
            ),
    {
        let border = if marked {
            "┊"
        } else {
            " "
        };
        push_plain(out, border, Ghost(spans));
        let ghost bordered = spans.push(plain(border_text(marked)));
        match self.cell(x, y) {
            Piece::Empty => push_styled(out, ring(), Style::Dimmed, Ghost(bordered)),
            Piece::Red => push_styled(out, disc(marked), Style::Red, Ghost(bordered)),
            Piece::Blue => push_styled(out, disc(marked), Style::Blue, Ghost(bordered)),
        }
        push_plain(
            out,
            border,
            Ghost(bordered.push(piece_span(self@[x as int][y as int], marked))),
        );
    }

    /// Row `y` of the board between its edges.
    fn row_text(&self, highlights: Option<usize>, y: usize) -> (out: String)
        requires
            y < ROWS,
        ensures
            is_rendering(out@, board_line_spans(self@, as_column(highlights), y + 1)),
    {
        let ghost selected = as_column(highlights);
        let mut out = String::new();
        push_plain(&mut out, " │", Ghost(Seq::empty()));
        assert(Seq::empty().push(plain(" │"@)) =~= cells_spans(self@, selected, y as int, 0));
        let mut x: usize = 0;
        while x < COLUMNS
            invariant
                x <= COLUMNS,
                y < ROWS,
                selected == as_column(highlights),
                is_rendering(out@, cells_spans(self@, selected, y as int, x as int)),
            decreases COLUMNS - x,
        {
            let marked = match highlights {
                Some(column) => column == x,
                None => false,
            };
            self.push_cell(
                &mut out,
                x,
                y,
                marked,
                Ghost(cells_spans(self@, selected, y as int, x as int)),
            );
            x += 1;
        }
        push_plain(&mut out, "│ ", Ghost(cells_spans(self@, selected, y as int, COLUMNS as int)));
        out
    }

    /// One of the eight lines that show the board: the top edge, the six
    /// rows, the bottom edge. The selected column, if any, is marked.
    pub fn board_line(&self, highlights: Option<usize>, line: usize) -> (out: String)
        requires
            line < BOARD_HEIGHT,
        ensures
            is_rendering(out@, board_line_spans(self@, as_column(highlights), line as int)),
    {
        if line == 0 {
            let mut out = String::new();
            push_plain(&mut out, " ╭ 1  2  3  4  5  6  7 ╮ ", Ghost(Seq::empty()));
            assert(Seq::empty().push(plain(" ╭ 1  2  3  4  5  6  7 ╮ "@)) =~= board_line_spans(
                self@,
                as_column(highlights),
                0,
            ));
            out
        } else if line <= ROWS {
            self.row_text(highlights, line - 1)
        } else {
            bottom_edge(highlights)
        }
    }

    /// The board as text, eight lines with a line break between each two.
    /// The selected column, if any, is marked.
    pub fn get_board(&self, highlights: Option<usize>) -> (out: String)
        ensures
            is_rendering(out@, board_spans(self@, as_column(highlights), BOARD_HEIGHT as int)),
    {
        let ghost selected = as_column(highlights);
        let mut out = self.board_line(highlights, 0);
        let mut line: usize = 1;
        while line < BOARD_HEIGHT as usize
            invariant
                1 <= line <= BOARD_HEIGHT,
                selected == as_column(highlights),
                is_rendering(out@, board_spans(self@, selected, line as int)),
            decreases BOARD_HEIGHT - line,
        {
            let ghost before = out@;
            push_plain(&mut out, "\n", Ghost(board_spans(self@, selected, line as int)));
            let ghost broken = out@;
            let text = self.board_line(highlights, line);
            out.append(text.as_str());
            proof {
                lemma_rendering_concat(
                    broken,
                    board_spans(self@, selected, line as int).push(plain("\n"@)),
                    text@,
                    board_line_spans(self@, selected, line as int),
                );
            }
            line += 1;
        }
        out
    }
}

/// The bottom edge of the board.
fn bottom_edge(highlights: Option<usize>) -> (out: String)
    ensures
        is_rendering(out@, bottom_edge_spans(as_column(highlights))),
{
    let ghost selected = as_column(highlights);
    let mut out = String::new();
    push_plain(&mut out, " ╰", Ghost(Seq::empty()));
    assert(Seq::empty().push(plain(" ╰"@)) =~= feet_spans(selected, 0));
    let mut x: usize = 0;
    while x < COLUMNS
        invariant
            x <= COLUMNS,
            selected == as_column(highlights),
            is_rendering(out@, feet_spans(selected, x as int)),
        decreases COLUMNS - x,
    {
        let marked = match highlights {
            Some(column) => column == x,
            None => false,
        };
        let foot = if marked {
            "┴─┴"
        } else {
            "───"
        };
        push_plain(&mut out, foot, Ghost(feet_spans(selected, x as int)));
        x += 1;
    }
    push_plain(&mut out, "╯ ", Ghost(feet_spans(selected, COLUMNS as int)));
    out
}


/// The name of a player in that player's colour.
pub open spec fn player_span(player: Player) -> Span {
    match player {
        Player::Red => Span { text: "Red"@, style: Style::Red },
        Player::Blue => Span { text: "Blue"@, style: Style::Blue },
    }
}

/// The line that says where the match stands: how to start it, whose turn
/// it is, or how it ended.
pub open spec fn status_spans(s: MatchState) -> Seq<Span> {
    match s.phase {
        Phase::Start => seq![plain("Press any key to start!"@)],
        Phase::Playing => seq![plain("It's "@), player_span(s.player), plain("'s turn!"@)],
        Phase::GameOver { outcome: Outcome::Win(winner) } => seq![
            player_span(winner),
            plain(" wins!"@),
        ],
        Phase::GameOver { outcome: Outcome::Draw } => seq![plain("It's a draw!"@)],
    }
}

/// Shows the name of `player` behind what `out` holds.
fn push_player(out: &mut String, player: Player, Ghost(spans): Ghost<Seq<Span>>)
    requires
        is_rendering(old(out)@, spans),
    ensures
        is_rendering(final(out)@, spans.push(player_span(player))),
{
    proof {
        reveal_strlit("Red");
        reveal_strlit("Blue");
    }
    match player {
        Player::Red => push_styled(out, "Red", Style::Red, Ghost(spans)),
        Player::Blue => push_styled(out, "Blue", Style::Blue, Ghost(spans)),
    }
}

/// The line that says where the match stands.
pub fn status_text(game: &Match) -> (out: String)
    ensures
        is_rendering(out@, status_spans(game@)),
{
    let mut out = String::new();
    let ghost none = Seq::<Span>::empty();
    match game.phase() {
        Phase::Start => {
            push_plain(&mut out, "Press any key to start!", Ghost(none));
            assert(none.push(plain("Press any key to start!"@)) =~= status_spans(game@));
        },
        Phase::Playing => {
            let player = game.current_player();
            push_plain(&mut out, "It's ", Ghost(none));
            push_player(&mut out, player, Ghost(none.push(plain("It's "@))));
            push_plain(
                &mut out,
                "'s turn!",
                Ghost(none.push(plain("It's "@)).push(player_span(player))),
            );
            assert(none.push(plain("It's "@)).push(player_span(player)).push(plain("'s turn!"@))
                =~= status_spans(game@));
        },
        Phase::GameOver { outcome: Outcome::Win(winner) } => {
            push_player(&mut out, winner, Ghost(none));
            push_plain(&mut out, " wins!", Ghost(none.push(player_span(winner))));
            assert(none.push(player_span(winner)).push(plain(" wins!"@)) =~= status_spans(game@));
        },
        Phase::GameOver { outcome: Outcome::Draw } => {
            push_plain(&mut out, "It's a draw!", Ghost(none));
            assert(none.push(plain("It's a draw!"@)) =~= status_spans(game@));
        },
    }
    out
}

/// The number under which a player knows column `column`: one more than
/// the column, as a digit.
pub open spec fn column_label(column: int) -> Seq<char> {
    seq![(49 + column) as u8 as char]
}

/// The number under which a player knows column `column`.
fn label(column: usize) -> (text: &'static str)
    requires
        column < COLUMNS,
    ensures
        text@ == column_label(column as int),
        is_plain_text(text@),
{
    proof {
        reveal_strlit("1");
        reveal_strlit("2");
        reveal_strlit("3");
        reveal_strlit("4");
        reveal_strlit("5");
        reveal_strlit("6");
        reveal_strlit("7");
    }
    let text = if column == 0 {
        "1"
    } else if column == 1 {
        "2"
    } else if column == 2 {
        "3"
    } else if column == 3 {
        "4"
    } else if column == 4 {
        "5"
    } else if column == 5 {
        "6"
    } else {
        "7"
    };
    assert(text@ =~= column_label(column as int));
    text
}

/// One line of a frame: a text and the place on the screen where it starts.
#[derive(Debug)]
pub struct Line {
    pub column: u16,
    pub row: u16,
    pub text: String,
}

/// `rows` followed by the first `n` lines of the board.
pub open spec fn with_board_lines(
    rows: Seq<Seq<Span>>,
    g: Grid,
    selected: Option<int>,
    n: int,
) -> Seq<Seq<Span>>
    decreases n,
{
    if n <= 0 {
        rows
    } else {
        with_board_lines(rows, g, selected, n - 1).push(board_line_spans(g, selected, n - 1))
    }
}

/// The lines of a frame from the top down, an empty one where the screen
/// stays empty: the title, the status, the board with the cursor's column
/// marked, while the match is played the selected column and how to
/// confirm it, and how to leave.
pub open spec fn frame_spans(s: MatchState) -> Seq<Seq<Span>> {
    let head = seq![
        seq![Span { text: "Connect 4"@, style: Style::Cyan }],
        status_spans(s),
        seq![],
    ];
    let body = with_board_lines(head, s.grid, Some(s.cursor), BOARD_HEIGHT as int).push(seq![]);
    let leave = seq![Span { text: "Press Ctrl+C key at any time."@, style: Style::Dimmed }];
    if s.phase == Phase::Playing {
        body.push(
            seq![
                plain("Select Column: "@),
                Span { text: column_label(s.cursor), style: Style::Yellow },
            ],
        ).push(seq![plain("Press enter to confirm."@)]).push(seq![]).push(leave)
    } else {
        body.push(leave)
    }
}

/// `line` shows `spans` as line `index` of a frame on a screen of `width`
/// columns and `height` rows: in the middle of its row, which is `index`
/// rows below the first row of the frame.
pub open spec fn is_placed(line: Line, spans: Seq<Span>, index: int, width: int, height: int) -> bool {
    &&& is_rendering(line.text@, spans)
    &&& line.row == first_row_of(height) + index
    &&& line.column == centred(width, shown_width(line.text@) as int)
}

/// `lines` shows `rows`, line by line from the first row of the frame down.
pub open spec fn is_frame(lines: Seq<Line>, rows: Seq<Seq<Span>>, width: int, height: int) -> bool {
    &&& lines.len() == rows.len()
    &&& forall|i: int|
        0 <= i < lines.len() ==> is_placed(#[trigger] lines[i], rows[i], i, width, height)
}

/// The most lines a frame has.
pub const FRAME_HEIGHT: usize = 16;

/// A frame has sixteen lines while the match is played and thirteen before
/// and after, the board in lines three to ten.
pub proof fn lemma_frame_height(s: MatchState)
    ensures
        frame_spans(s).len() == if s.phase == Phase::Playing {
            FRAME_HEIGHT as int
        } else {
            FRAME_HEIGHT - 3
        },
        forall|line: int|
            0 <= line < BOARD_HEIGHT ==> #[trigger] frame_spans(s)[3 + line] == board_line_spans(
                s.grid,
                Some(s.cursor),
                line,
            ),
{
    reveal_with_fuel(with_board_lines, 9);
}

/// Puts `text` in the middle of the row below the last of `lines`.
fn push_line(
    lines: &mut Vec<Line>,
    text: String,
    width: u16,
    height: u16,
    Ghost(rows): Ghost<Seq<Seq<Span>>>,
    Ghost(spans): Ghost<Seq<Span>>,
)
    requires
        old(lines)@.len() < FRAME_HEIGHT,
        is_frame(old(lines)@, rows, width as int, height as int),
        is_rendering(text@, spans),
    ensures
        is_frame(final(lines)@, rows.push(spans), width as int, height as int),
{
    let row = first_row(height) + lines.len() as u16;
    let column = centred_column(width, display_width(text.as_str()));
    lines.push(Line { column, row, text });
}

/// Puts an empty line below the last of `lines`.
fn push_empty_line(lines: &mut Vec<Line>, width: u16, height: u16, Ghost(rows): Ghost<Seq<Seq<Span>>>)
    requires
        old(lines)@.len() < FRAME_HEIGHT,
        is_frame(old(lines)@, rows, width as int, height as int),
    ensures
        is_frame(final(lines)@, rows.push(Seq::empty()), width as int, height as int),
{
    push_line(lines, String::new(), width, height, Ghost(rows), Ghost(Seq::empty()));
}

/// The lines that show `game` on a screen of `width` columns and `height`
/// rows, from the top down, each in the middle of its row.
pub fn frame(game: &Match, width: u16, height: u16) -> (lines: Vec<Line>)
    ensures
        is_frame(lines@, frame_spans(game@), width as int, height as int),
{
    let ghost s = game@;
    let ghost none = Seq::<Span>::empty();
    let ghost selected = Some(s.cursor);
    let cursor = game.cursor();
    let mut lines: Vec<Line> = Vec::new();
    let ghost mut rows: Seq<Seq<Span>> = Seq::empty();

    let mut title = String::new();
    proof {
        reveal_strlit("Connect 4");
    }
    push_styled(&mut title, "Connect 4", Style::Cyan, Ghost(none));
    let ghost title_spans = none.push(Span { text: "Connect 4"@, style: Style::Cyan });
    push_line(&mut lines, title, width, height, Ghost(rows), Ghost(title_spans));
    proof {
        rows = rows.push(title_spans);
    }
    push_line(&mut lines, status_text(game), width, height, Ghost(rows), Ghost(status_spans(s)));
    proof {
        rows = rows.push(status_spans(s));
    }
    push_empty_line(&mut lines, width, height, Ghost(rows));
    proof {
        rows = rows.push(Seq::empty());
        assert(title_spans =~= seq![Span { text: "Connect 4"@, style: Style::Cyan }]);
        assert(rows =~= seq![
            seq![Span { text: "Connect 4"@, style: Style::Cyan }],
            status_spans(s),
            seq![],
        ]);
    }
    let ghost head = rows;

    let mut line: usize = 0;
    while line < BOARD_HEIGHT as usize
        invariant
            line <= BOARD_HEIGHT,
            s == game@,
            cursor == s.cursor,
            selected == Some(s.cursor),
            lines@.len() == 3 + line,
            rows == with_board_lines(head, s.grid, selected, line as int),
            is_frame(lines@, rows, width as int, height as int),
        decreases BOARD_HEIGHT - line,
    {
        let text = game.board().board_line(Some(cursor), line);
        push_line(
            &mut lines,
            text,
            width,
            height,
            Ghost(rows),
            Ghost(board_line_spans(s.grid, selected, line as int)),
        );
        proof {
            rows = rows.push(board_line_spans(s.grid, selected, line as int));
        }
        line += 1;
    }
    push_empty_line(&mut lines, width, height, Ghost(rows));
    proof {
        rows = rows.push(Seq::empty());
    }

    if game.phase() == Phase::Playing {
        let mut select = String::new();
        push_plain(&mut select, "Select Column: ", Ghost(none));
        push_styled(
            &mut select,
            label(cursor),
            Style::Yellow,
            Ghost(none.push(plain("Select Column: "@))),
        );
        let ghost select_spans = none.push(plain("Select Column: "@)).push(
            Span { text: column_label(s.cursor), style: Style::Yellow },
        );
        push_line(&mut lines, select, width, height, Ghost(rows), Ghost(select_spans));
        proof {
            rows = rows.push(select_spans);
            assert(select_spans =~= seq![
                plain("Select Column: "@),
                Span { text: column_label(s.cursor), style: Style::Yellow },
            ]);
        }
        let mut confirm = String::new();
        push_plain(&mut confirm, "Press enter to confirm.", Ghost(none));
        let ghost confirm_spans = none.push(plain("Press enter to confirm."@));
        push_line(&mut lines, confirm, width, height, Ghost(rows), Ghost(confirm_spans));
        proof {
            rows = rows.push(confirm_spans);
            assert(confirm_spans =~= seq![plain("Press enter to confirm."@)]);
        }
        push_empty_line(&mut lines, width, height, Ghost(rows));
        proof {
            rows = rows.push(Seq::empty());
        }
    }
    let mut leave = String::new();
    proof {
        reveal_strlit("Press Ctrl+C key at any time.");
    }
    push_styled(&mut leave, "Press Ctrl+C key at any time.", Style::Dimmed, Ghost(none));
    let ghost leave_spans = none.push(
        Span { text: "Press Ctrl+C key at any time."@, style: Style::Dimmed },
    );
    push_line(&mut lines, leave, width, height, Ghost(rows), Ghost(leave_spans));
    proof {
        rows = rows.push(leave_spans);
        assert(leave_spans =~= seq![
            Span { text: "Press Ctrl+C key at any time."@, style: Style::Dimmed },
        ]);
        assert(rows =~= frame_spans(s));
    }
    lines
}

} // verus!
