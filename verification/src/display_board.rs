//! The board's state, and its rows in the colours of a pixel-matrix sign.

use crate::clock::WallClock;
use crate::grouping::{DisplayLines, Rows};
use crate::render::{board_lines, line_text, render_lines, DisplayLine, TokenView};
use crate::style::{Accent, StyleResolver};
use vstd::prelude::*;
use vstd::string::*;

verus! {

/// The width in pixels of one of the sign's two columns of rows.
pub const COL_WIDTH: i32 = 64;

/// A colour of the sign, one number per channel.
#[derive(Clone, Copy, Debug, PartialEq, Eq, Structural)]
pub struct LedColor {
    pub red: i32,
    pub green: i32,
    pub blue: i32,
}

impl LedColor {
    /// Every channel at zero.
    pub fn new() -> (c: Self)
        ensures
            c == (LedColor { red: 0, green: 0, blue: 0 }),
    {
        LedColor { red: 0, green: 0, blue: 0 }
    }

    /// The red channel at its maximum, the others at zero.
    pub fn red() -> (c: Self)
        ensures
            c == (LedColor { red: 255, green: 0, blue: 0 }),
    {
        LedColor { red: 255, green: 0, blue: 0 }
    }

    /// The green channel at its maximum, the others at zero.
    pub fn green() -> (c: Self)
        ensures
            c == (LedColor { red: 0, green: 255, blue: 0 }),
    {
        LedColor { red: 0, green: 255, blue: 0 }
    }

    /// The colour that the board calls blue: every channel at zero, as with
    /// `new`.
    pub fn blue() -> (c: Self)
        ensures
            c == (LedColor { red: 0, green: 0, blue: 0 }),
    {
        LedColor { red: 0, green: 0, blue: 0 }
    }
}

/// What the sign's driver is given for a channel: the number itself, or the
/// nearest of 0 and 255 where it lies outside.
pub open spec fn channel(v: i32) -> u8 {
    if v < 0 {
        0
    } else if v > 255 {
        255
    } else {
        v as u8
    }
}

impl LedColor {
    /// Red, green and blue as the sign's driver takes them.
    pub fn to_rgb(&self) -> (rgb: (u8, u8, u8))
        ensures
            rgb == (channel(self.red), channel(self.green), channel(self.blue)),
    {
        (to_channel(self.red), to_channel(self.green), to_channel(self.blue))
    }
}

fn to_channel(v: i32) -> (c: u8)
    ensures
        c == channel(v),
{
    if v < 0 {
        0
    } else if v > 255 {
        255
    } else {
        v as u8
    }
}

/// The sign's colour for each colour role of a token.
#[derive(Clone, Copy, Debug, PartialEq, Eq, Structural)]
pub struct LedPalette {
    pub plain: LedColor,
    pub child: LedColor,
    pub parent: LedColor,
    pub highlight: LedColor,
    pub alert: LedColor,
}

impl LedPalette {
    /// The colour that stands for `accent`.
    pub open spec fn spec_color_of(self, accent: Accent) -> LedColor {
        match accent {
            Accent::Plain => self.plain,
            Accent::Child => self.child,
            Accent::Parent => self.parent,
            Accent::Highlight => self.highlight,
            Accent::Alert => self.alert,
        }
    }

    /// The colour that stands for `accent`.
    #[verifier::when_used_as_spec(spec_color_of)]
    pub fn color_of(self, accent: Accent) -> (c: LedColor)
        ensures
            c == self.spec_color_of(accent),
    {
        match accent {
            Accent::Plain => self.plain,
            Accent::Child => self.child,
            Accent::Parent => self.parent,
            Accent::Highlight => self.highlight,
            Accent::Alert => self.alert,
        }
    }
}

/// A piece of text in one colour of the sign, as contracts see it.
pub struct StyledStringView {
    pub string: Seq<char>,
    pub color: LedColor,
}

/// A piece of text in one colour of the sign.
#[derive(Clone, Debug, PartialEq, Eq)]
pub struct StyledString {
    pub string: String,
    pub color: LedColor,
}

impl View for StyledString {
    type V = StyledStringView;

    open spec fn view(&self) -> StyledStringView {
        StyledStringView { string: self.string@, color: self.color }
    }
}

impl DeepView for StyledString {
    type V = StyledStringView;

    open spec fn deep_view(&self) -> StyledStringView {
        self@
    }
}

impl StyledString {
    /// The empty text, every channel of its colour at zero.
    pub fn new() -> (s: Self)
        ensures
            s@ == (StyledStringView {
                string: Seq::empty(),
                color: LedColor { red: 0, green: 0, blue: 0 },
            }),
    {
        StyledString { string: String::new(), color: LedColor::new() }
    }
}

/// One row of the sign: its pieces of text from left to right.
#[derive(Clone, Debug, PartialEq, Eq)]
pub struct RGBDisplayLine {
    pub line: Vec<StyledString>,
}

impl View for RGBDisplayLine {
    type V = Seq<StyledStringView>;

    open spec fn view(&self) -> Seq<StyledStringView> {
        self.line.deep_view()
    }
}

impl DeepView for RGBDisplayLine {
    type V = Seq<StyledStringView>;

    open spec fn deep_view(&self) -> Seq<StyledStringView> {
        self@
    }
}

impl RGBDisplayLine {
    /// A row without text.
    pub fn new() -> (l: Self)
        ensures
            l@ == Seq::<StyledStringView>::empty(),
    {
        let l = RGBDisplayLine { line: Vec::new() };
        assert(l@ =~= Seq::<StyledStringView>::empty());
        l
    }
}

/// A token in the colours of the sign.
pub open spec fn led_string(token: TokenView, palette: LedPalette) -> StyledStringView {
    StyledStringView { string: token.text, color: palette.spec_color_of(token.style.accent) }
}

/// A row of tokens in the colours of the sign.
pub open spec fn led_line(tokens: Seq<TokenView>, palette: LedPalette) -> Seq<StyledStringView> {
    Seq::new(tokens.len(), |i: int| led_string(tokens[i], palette))
}

/// Rows of tokens in the colours of the sign.
pub open spec fn led_lines(lines: Seq<Seq<TokenView>>, palette: LedPalette) -> Seq<
    Seq<StyledStringView>,
> {
    Seq::new(lines.len(), |i: int| led_line(lines[i], palette))
}

/// The texts of rows of tokens.
pub open spec fn line_texts(lines: Seq<Seq<TokenView>>) -> Seq<Seq<char>> {
    Seq::new(lines.len(), |i: int| line_text(lines[i]))
}

/// The state of the board, as contracts see it.
pub struct BoardView {
    pub display_lines: Option<Rows>,
    pub last_successful_request_time: Option<WallClock>,
    pub last_request_successful: bool,
}

/// Where the board stands in its life.
#[derive(Clone, Copy, Debug, PartialEq, Eq, Structural)]
pub enum BoardPhase {
    /// No poll has succeeded yet: there is nothing to show.
    Empty,
    /// The rows are those of the latest poll.
    Fresh,
    /// The latest poll failed: the rows are those of an earlier one.
    Stale,
}

/// The state of the board: the rows of the latest successful poll, when that
/// poll was made, and whether the latest poll succeeded.
#[derive(Debug)]
pub struct DisplayBoard {
    pub display_lines: Option<DisplayLines>,
    pub last_successful_request_time: Option<WallClock>,
    pub last_request_successful: bool,
}

impl View for DisplayBoard {
    type V = BoardView;

    open spec fn view(&self) -> BoardView {
        BoardView {
            display_lines: match self.display_lines {
                Some(lines) => Some(lines@),
                None => None,
            },
            last_successful_request_time: self.last_successful_request_time,
            last_request_successful: self.last_request_successful,
        }
    }
}

/// The rows that a board shows: those it holds, none while it is empty.
pub open spec fn shown_rows(board: BoardView) -> Rows {
    match board.display_lines {
        Some(rows) => rows,
        None => Seq::empty(),
    }
}

/// The phase of a board with the given state.
pub open spec fn phase_of(board: BoardView) -> BoardPhase {
    if board.display_lines is None {
        BoardPhase::Empty
    } else if board.last_request_successful {
        BoardPhase::Fresh
    } else {
        BoardPhase::Stale
    }
}

impl DisplayBoard {
    /// The board before its first poll: no rows, no time, no success.
    pub fn new() -> (board: Self)
        ensures
            board@ == (BoardView {
                display_lines: None,
                last_successful_request_time: None,
                last_request_successful: false,
            }),
    {
        DisplayBoard {
            display_lines: None,
            last_successful_request_time: None,
            last_request_successful: false,
        }
    }

    /// Where the board stands in its life.
    pub fn phase(&self) -> (phase: BoardPhase)
        ensures
            phase == phase_of(self@),
    {
        if self.display_lines.is_none() {
            BoardPhase::Empty
        } else if self.last_request_successful {
            BoardPhase::Fresh
        } else {
            BoardPhase::Stale
        }
    }

    /// The board's rows as lines of tokens, none while the board is empty.
    pub fn rendered_lines(&self, resolver: &StyleResolver) -> (out: Vec<DisplayLine>)
        ensures
            out.deep_view() == board_lines(shown_rows(self@), resolver@),
    {
        match &self.display_lines {
            Some(lines) => render_lines(lines, resolver),
            None => {
                let out: Vec<DisplayLine> = Vec::new();
                assert(out.deep_view() =~= board_lines(shown_rows(self@), resolver@));
                out
            },
        }
    }

    /// The board's rows as plain text, one string per row.
    pub fn lines_to_write(&self, resolver: &StyleResolver) -> (out: Vec<String>)
        ensures
            out.deep_view() == line_texts(board_lines(shown_rows(self@), resolver@)),
    {
        let lines = self.rendered_lines(resolver);
        let mut out: Vec<String> = Vec::new();
        let mut i: usize = 0;
        while i < lines.len()
            invariant
                i <= lines.len(),
                out.len() == i,
                forall|j: int|
                    0 <= j < i ==> (#[trigger] out.deep_view()[j]) == line_text(
                        lines.deep_view()[j],
                    ),
            decreases lines.len() - i,
        {
            let ghost before = out.deep_view();
            out.push(lines[i].text());
            proof {
                let after = out.deep_view();
                assert forall|j: int| 0 <= j < i + 1 implies (#[trigger] after[j]) == line_text(
                    lines.deep_view()[j],
                ) by {
                    if j < i {
                        assert(after[j] == before[j]);
                    }
                }
            }
            i = i + 1;
        }
        assert(out.deep_view() =~= line_texts(lines.deep_view()));
        out
    }

    /// The board's rows for the sign: every token of every row with the colour
    /// that `palette` gives its role. Empty while the board is empty.
    pub fn get_bus_styled_lines(&self, resolver: &StyleResolver, palette: &LedPalette) -> (out: Vec<
        RGBDisplayLine,
    >)
        ensures
            out.deep_view() == led_lines(board_lines(shown_rows(self@), resolver@), *palette),
    {
        let lines = self.rendered_lines(resolver);
        let mut out: Vec<RGBDisplayLine> = Vec::new();
        let mut i: usize = 0;
        while i < lines.len()
            invariant
                i <= lines.len(),
                out.len() == i,
                forall|j: int|
                    0 <= j < i ==> (#[trigger] out.deep_view()[j]) == led_line(
                        lines.deep_view()[j],
                        *palette,
                    ),
            decreases lines.len() - i,
        {
            let ghost before = out.deep_view();
            let row = colour_line(&lines[i], palette);
            out.push(row);
            proof {
                let after = out.deep_view();
                assert forall|j: int| 0 <= j < i + 1 implies (#[trigger] after[j]) == led_line(
                    lines.deep_view()[j],
                    *palette,
                ) by {
                    if j < i {
                        assert(after[j] == before[j]);
                    }
                }
            }
            i = i + 1;
        }
        assert(out.deep_view() =~= led_lines(lines.deep_view(), *palette));
        out
    }
}

/// A row of tokens in the colours of the sign.
pub fn colour_line(line: &DisplayLine, palette: &LedPalette) -> (out: RGBDisplayLine)
    ensures
        out@ == led_line(line@, *palette),
{
    let mut row: Vec<StyledString> = Vec::new();
    let mut i: usize = 0;
    while i < line.tokens.len()
        invariant
            i <= line.tokens.len(),
            row.len() == i,
            forall|j: int|
                0 <= j < i ==> (#[trigger] row.deep_view()[j]) == led_string(line@[j], *palette),
        decreases line.tokens.len() - i,
    {
        let ghost before = row.deep_view();
        let token = &line.tokens[i];
        row.push(
            StyledString { string: token.text.clone(), color: palette.color_of(token.style.accent) },
        );
        proof {
            let after = row.deep_view();
            assert forall|j: int| 0 <= j < i + 1 implies (#[trigger] after[j]) == led_string(
                line@[j],
                *palette,
            ) by {
                if j < i {
                    assert(after[j] == before[j]);
                }
            }
        }
        i = i + 1;
    }
    let out = RGBDisplayLine { line: row };
    assert(out@ =~= led_line(line@, *palette));
    out
}

} // verus!
