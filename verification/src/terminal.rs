//! The board as a terminal panel shows it: two lines on the time, then the
//! rows. The panel refuses text with whitespace other than spaces, so a
//! drawing can fail.

use crate::clock::{clock_text, format_wall_clock, read_wall_clock, WallClock};
use crate::display_board::{shown_rows, BoardView, DisplayBoard};
use crate::render::{board_lines, spacer_token, DisplayLine, Token, TokenView};
use crate::span::{span_text_valid, span_valid};
use crate::style::{Accent, Emphasis, Style, StyleResolver};
use vstd::prelude::*;
use vstd::string::*;

verus! {

/// Why a drawing failed, as contracts see it.
pub enum RenderFailure {
    InvalidWhitespace(Seq<char>),
    UnformattableTime,
}

/// Why a drawing failed.
#[derive(Clone, Debug, PartialEq, Eq)]
pub enum RenderError {
    /// The panel refuses this text: it holds whitespace other than spaces.
    InvalidWhitespace(String),
    /// A time that the board holds cannot be put into text.
    UnformattableTime,
}

impl View for RenderError {
    type V = RenderFailure;

    open spec fn view(&self) -> RenderFailure {
        match self {
            RenderError::InvalidWhitespace(text) => RenderFailure::InvalidWhitespace(text@),
            RenderError::UnformattableTime => RenderFailure::UnformattableTime,
        }
    }
}

/// What is said of a failure.
pub open spec fn failure_message(failure: RenderFailure) -> Seq<char> {
    match failure {
        RenderFailure::InvalidWhitespace(text) => "Word "@ + text
            + " contains non-space whitespace"@,
        RenderFailure::UnformattableTime => "Time cannot be put into text"@,
    }
}

impl RenderError {
    /// What is said of the failure.
    pub fn message(&self) -> (r: String)
        ensures
            r@ == failure_message(self@),
    {
        match self {
            RenderError::InvalidWhitespace(text) => {
                let mut out = String::from_str("Word ");
                out.append(text.as_str());
                out.append(" contains non-space whitespace");
                out
            },
            RenderError::UnformattableTime => String::from_str("Time cannot be put into text"),
        }
    }
}

/// The pattern under which the panel shows a time: date, then time of day.
pub open spec fn panel_time_pattern() -> Seq<char> {
    "%Y-%m-%d %H:%M:%S"@
}

/// A token in the ordinary colour.
pub open spec fn plain_token(text: Seq<char>, emphasis: Emphasis) -> TokenView {
    TokenView { text, style: Style { accent: Accent::Plain, emphasis } }
}

/// A token in the colour of warnings.
pub open spec fn alert_token(text: Seq<char>, emphasis: Emphasis) -> TokenView {
    TokenView { text, style: Style { accent: Accent::Alert, emphasis } }
}

/// The lines above the rows. With a time of last success: the current time,
/// then the time of last success, marked as stale if the latest poll failed.
/// Without: a warning that there is no information.
pub open spec fn terminal_header(updated: Option<Seq<char>>, now: Seq<char>, stale: bool) -> Seq<
    Seq<TokenView>,
> {
    match updated {
        Some(text) => seq![
            seq![
                plain_token("Current Time: "@, Emphasis::Regular),
                plain_token(now, Emphasis::Strong),
            ],
            seq![
                plain_token("Last Updated: "@, Emphasis::Regular),
                plain_token(text, Emphasis::Strong),
            ] + (if stale {
                seq![spacer_token(), alert_token("(stale)"@, Emphasis::Strong)]
            } else {
                Seq::empty()
            }),
        ],
        None => seq![seq![alert_token("No Information"@, Emphasis::Regular)]],
    }
}

/// The whole panel: the header, then the board's rows.
pub open spec fn terminal_lines(
    board: BoardView,
    highlight: Option<Seq<char>>,
    updated: Option<Seq<char>>,
    now: Seq<char>,
) -> Seq<Seq<TokenView>> {
    terminal_header(updated, now, !board.last_request_successful) + board_lines(
        shown_rows(board),
        highlight,
    )
}

/// The text of the first token of a line that the panel refuses.
pub open spec fn first_invalid_token(tokens: Seq<TokenView>) -> Option<Seq<char>>
    decreases tokens.len(),
{
    if tokens.len() == 0 {
        None
    } else if !span_text_valid(tokens[0].text) {
        Some(tokens[0].text)
    } else {
        first_invalid_token(tokens.drop_first())
    }
}

/// The text of the first token, line by line, that the panel refuses.
pub open spec fn first_invalid(lines: Seq<Seq<TokenView>>) -> Option<Seq<char>>
    decreases lines.len(),
{
    if lines.len() == 0 {
        None
    } else {
        match first_invalid_token(lines[0]) {
            Some(text) => Some(text),
            None => first_invalid(lines.drop_first()),
        }
    }
}

/// The lines if the panel accepts every token, else the failure on the first
/// token that it refuses.
pub open spec fn accepted(lines: Seq<Seq<TokenView>>) -> Result<
    Seq<Seq<TokenView>>,
    RenderFailure,
> {
    match first_invalid(lines) {
        Some(text) => Err(RenderFailure::InvalidWhitespace(text)),
        None => Ok(lines),
    }
}

/// What drawing the board at the time `now` gives. A board without a time of
/// last success needs no time. With one, both that time and `now` must have
/// a text; then, as without, the panel must accept every token.
pub open spec fn drawn(board: BoardView, highlight: Option<Seq<char>>, now: WallClock) -> Result<
    Seq<Seq<TokenView>>,
    RenderFailure,
> {
    match board.last_successful_request_time {
        Some(at) => match (
            clock_text(now, panel_time_pattern()),
            clock_text(at, panel_time_pattern()),
        ) {
            (Some(now_text), Some(updated)) => accepted(
                terminal_lines(board, highlight, Some(updated), now_text),
            ),
            _ => Err(RenderFailure::UnformattableTime),
        },
        None => accepted(terminal_lines(board, highlight, None, Seq::empty())),
    }
}

/// Whether `result` is what `drawn` gives.
pub open spec fn is_drawn(
    result: Result<Vec<DisplayLine>, RenderError>,
    board: BoardView,
    highlight: Option<Seq<char>>,
    now: WallClock,
) -> bool {
    match result {
        Ok(lines) => drawn(board, highlight, now) == Ok::<Seq<Seq<TokenView>>, RenderFailure>(
            lines.deep_view(),
        ),
        Err(error) => drawn(board, highlight, now) == Err::<Seq<Seq<TokenView>>, RenderFailure>(
            error@,
        ),
    }
}

fn token(text: &str, accent: Accent, emphasis: Emphasis) -> (t: Token)
    ensures
        t@ == (TokenView { text: text@, style: Style { accent, emphasis } }),
{
    Token { text: String::from_str(text), style: Style { accent, emphasis } }
}

/// The lines above the rows, given the times in text: `updated` is the time
/// of last success, if there is one, `now` the current time, and `stale`
/// tells that the latest poll failed.
pub fn header_lines(updated: Option<&str>, now: &str, stale: bool) -> (out: Vec<DisplayLine>)
    ensures
        out.deep_view() == terminal_header(
            match updated {
                Some(text) => Some(text@),
                None => None,
            },
            now@,
            stale,
        ),
{
    let mut out: Vec<DisplayLine> = Vec::new();
    match updated {
        Some(text) => {
            let mut first: Vec<Token> = Vec::new();
            first.push(token("Current Time: ", Accent::Plain, Emphasis::Regular));
            first.push(token(now, Accent::Plain, Emphasis::Strong));
            let mut second: Vec<Token> = Vec::new();
            second.push(token("Last Updated: ", Accent::Plain, Emphasis::Regular));
            second.push(token(text, Accent::Plain, Emphasis::Strong));
            if stale {
                second.push(token(" ", Accent::Plain, Emphasis::Regular));
                second.push(token("(stale)", Accent::Alert, Emphasis::Strong));
            }
            proof {
                reveal_strlit(" ");
                assert(" "@ =~= seq![' ']);
            }
            let ghost want = terminal_header(Some(text@), now@, stale);
            assert(first.deep_view() =~= want[0]);
            assert(second.deep_view() =~= want[1]);
            out.push(DisplayLine { tokens: first });
            out.push(DisplayLine { tokens: second });
            assert(out.deep_view() =~= want);
        },
        None => {
            let mut only: Vec<Token> = Vec::new();
            only.push(token("No Information", Accent::Alert, Emphasis::Regular));
            let ghost want = terminal_header(None, now@, stale);
            assert(only.deep_view() =~= want[0]);
            out.push(DisplayLine { tokens: only });
            assert(out.deep_view() =~= want);
        },
    }
    out
}

/// The text of the first token of `line` that the panel refuses.
pub fn first_refused_token(line: &DisplayLine) -> (r: Option<String>)
    ensures
        match r {
            Some(text) => first_invalid_token(line@) == Some(text@),
            None => first_invalid_token(line@) is None,
        },
{
    let mut i: usize = 0;
    proof {
        assert(line@.skip(0) =~= line@);
    }
    while i < line.tokens.len()
        invariant
            i <= line.tokens.len(),
            first_invalid_token(line@) == first_invalid_token(line@.skip(i as int)),
        decreases line.tokens.len() - i,
    {
        proof {
            assert(line@.skip(i as int)[0] == line@[i as int]);
            assert(line@.skip(i as int).drop_first() =~= line@.skip(i as int + 1));
        }
        if !span_valid(line.tokens[i].text.as_str()) {
            return Some(line.tokens[i].text.clone());
        }
        i = i + 1;
    }
    None
}

/// The text of the first token, line by line, that the panel refuses.
pub fn first_refused(lines: &Vec<DisplayLine>) -> (r: Option<String>)
    ensures
        match r {
            Some(text) => first_invalid(lines.deep_view()) == Some(text@),
            None => first_invalid(lines.deep_view()) is None,
        },
{
    let ghost all = lines.deep_view();
    let mut i: usize = 0;
    proof {
        assert(all.skip(0) =~= all);
    }
    while i < lines.len()
        invariant
            i <= lines.len(),
            all == lines.deep_view(),
            first_invalid(all) == first_invalid(all.skip(i as int)),
        decreases lines.len() - i,
    {
        proof {
            assert(all.skip(i as int)[0] == lines[i as int]@);
            assert(all.skip(i as int).drop_first() =~= all.skip(i as int + 1));
        }
        match first_refused_token(&lines[i]) {
            Some(text) => {
                return Some(text);
            },
            None => {},
        }
        i = i + 1;
    }
    None
}

impl DisplayBoard {
    /// The whole panel, given the times in text: the header, then the rows.
    /// `updated` stands for the time of last success, `now` for the current
    /// time.
    pub fn terminal_lines(&self, resolver: &StyleResolver, updated: Option<&str>, now: &str) -> (out:
        Vec<DisplayLine>)
        ensures
            out.deep_view() == terminal_lines(
                self@,
                resolver@,
                match updated {
                    Some(text) => Some(text@),
                    None => None,
                },
                now@,
            ),
    {
        let mut out = header_lines(updated, now, !self.last_request_successful);
        let mut rows = self.rendered_lines(resolver);
        let ghost head = out.deep_view();
        let ghost body = rows.deep_view();
        out.append(&mut rows);
        assert(out.deep_view() =~= head + body);
        out
    }

    /// Draws the board as at the time `now`: the lines of the panel, or why
    /// they cannot be shown.
    pub fn draw_at(&self, resolver: &StyleResolver, now: &WallClock) -> (result: Result<
        Vec<DisplayLine>,
        RenderError,
    >)
        ensures
            is_drawn(result, self@, resolver@, *now),
    {
        proof {
            reveal_strlit("%Y-%m-%d %H:%M:%S");
        }
        let lines = match &self.last_successful_request_time {
            Some(at) => {
                let now_text = format_wall_clock(now, "%Y-%m-%d %H:%M:%S");
                let updated = format_wall_clock(at, "%Y-%m-%d %H:%M:%S");
                match (now_text, updated) {
                    (Some(now_text), Some(updated)) => self.terminal_lines(
                        resolver,
                        Some(updated.as_str()),
                        now_text.as_str(),
                    ),
                    _ => {
                        return Err(RenderError::UnformattableTime);
                    },
                }
            },
            None => self.terminal_lines(resolver, None, ""),
        };
        proof {
            reveal_strlit("");
            assert(""@ =~= Seq::<char>::empty());
        }
        match first_refused(&lines) {
            Some(text) => Err(RenderError::InvalidWhitespace(text)),
            None => Ok(lines),
        }
    }

    /// Draws the board as at the current time, which it reads from the
    /// machine's clock: the lines of the panel, or why they cannot be shown.
    pub fn draw_unchecked(&self, resolver: &StyleResolver) -> (result: Result<
        Vec<DisplayLine>,
        RenderError,
    >)
        ensures
            exists|now: WallClock| is_drawn(result, self@, resolver@, now),
    {
        let now = read_wall_clock();
        let result = self.draw_at(resolver, &now);
        assert(is_drawn(result, self@, resolver@, now));
        result
    }
}

} // verus!
