//! Where on the pixel-matrix sign each piece of text goes. The sign has a
//! header row for the times and, below it, the board's rows: one below the
//! other, or, to use the sign's width, in two columns, rows with an even index
//! on the left, those with an odd index on the right, both columns stepping
//! down together.

use crate::clock::{clock_text, format_wall_clock, read_wall_clock, WallClock};
use crate::display_board::{
    led_lines, shown_rows, BoardView, DisplayBoard, LedColor, LedPalette, RGBDisplayLine,
    StyledStringView, COL_WIDTH,
};
use crate::render::board_lines;
use crate::style::StyleResolver;
use crate::terminal::{RenderError, RenderFailure};
use vstd::prelude::*;
use vstd::string::*;

verus! {

/// How text is laid out on the sign: the height of a row of text and the
/// width of one character of the sign's font, in pixels, and whether the rows
/// go into two columns.
#[derive(Clone, Copy, Debug, PartialEq, Eq, Structural)]
pub struct SignLayout {
    pub height: i32,
    pub glyph_width: i32,
    pub two_columns: bool,
}

/// A piece of text at a place on the sign, as contracts see it.
pub struct TextBlockView {
    pub x: i32,
    pub y: i32,
    pub color: LedColor,
    pub text: Seq<char>,
}

/// A piece of text at a place on the sign: `x` is its left edge, `y` its
/// baseline.
#[derive(Clone, Debug, PartialEq, Eq)]
pub struct TextBlock {
    pub x: i32,
    pub y: i32,
    pub color: LedColor,
    pub text: String,
}

impl View for TextBlock {
    type V = TextBlockView;

    open spec fn view(&self) -> TextBlockView {
        TextBlockView { x: self.x, y: self.y, color: self.color, text: self.text@ }
    }
}

impl DeepView for TextBlock {
    type V = TextBlockView;

    open spec fn deep_view(&self) -> TextBlockView {
        self@
    }
}

/// The coordinate nearest to `v` that the sign's driver can be given.
pub open spec fn clamp_i32(v: int) -> i32 {
    if v < i32::MIN {
        i32::MIN
    } else if v > i32::MAX {
        i32::MAX
    } else {
        v as i32
    }
}

/// The left edge of the row with the given index: in two columns the rows
/// with an even index start at the left edge of the sign, the others at the
/// right column.
pub open spec fn column_x(index: int, layout: SignLayout) -> i32 {
    if layout.two_columns && index % 2 != 0 {
        COL_WIDTH
    } else {
        0
    }
}

/// How many steps below the header the row with the given index stands: in
/// two columns every pair of rows shares a step.
pub open spec fn row_step(index: int, layout: SignLayout) -> int {
    if layout.two_columns {
        index / 2
    } else {
        index
    }
}

/// The baseline of the row with the given index. One step is `height + 1`
/// pixels; the header's baseline is at `height`, and the first row is one
/// step below it.
pub open spec fn row_y(index: int, layout: SignLayout) -> i32 {
    clamp_i32(layout.height + (1 + row_step(index, layout)) * (layout.height + 1))
}

/// Where the text behind a piece of `length` characters at `x` begins.
pub open spec fn pen_after(x: i32, length: nat, glyph_width: i32) -> i32 {
    clamp_i32(x + length * glyph_width)
}

/// The pieces of one row, set one behind the other from `x` on.
pub open spec fn row_blocks(line: Seq<StyledStringView>, x: i32, y: i32, glyph_width: i32) -> Seq<
    TextBlockView,
>
    decreases line.len(),
{
    if line.len() == 0 {
        Seq::empty()
    } else {
        seq![TextBlockView { x, y, color: line[0].color, text: line[0].string }] + row_blocks(
            line.drop_first(),
            pen_after(x, line[0].string.len(), glyph_width),
            y,
            glyph_width,
        )
    }
}

/// The pieces of all rows, each row in its column and on its baseline.
pub open spec fn rows_blocks(lines: Seq<Seq<StyledStringView>>, layout: SignLayout) -> Seq<
    TextBlockView,
>
    decreases lines.len(),
{
    if lines.len() == 0 {
        Seq::empty()
    } else {
        let index = lines.len() - 1;
        rows_blocks(lines.drop_last(), layout) + row_blocks(
            lines.last(),
            column_x(index, layout),
            row_y(index, layout),
            layout.glyph_width,
        )
    }
}

/// The pattern under which the sign shows a time of day.
pub open spec fn sign_time_pattern() -> Seq<char> {
    "%H:%M:%S"@
}

/// What the sign shows as the current time: the time of day, and on the
/// second of February a greeting in its place.
pub open spec fn sign_clock(now: WallClock) -> Option<Seq<char>> {
    if now.month == 2 && now.day == 2 {
        Some("YOUR BIRTHDAY!"@)
    } else {
        clock_text(now, sign_time_pattern())
    }
}

/// The header row: the current time on the left and, if a poll has ever
/// succeeded, the time of the last success on the right, in the colour of
/// warnings if the latest poll failed.
pub open spec fn header_blocks(
    now_text: Seq<char>,
    updated: Option<Seq<char>>,
    stale: bool,
    palette: LedPalette,
    height: i32,
) -> Seq<TextBlockView> {
    seq![
        TextBlockView { x: 0, y: height, color: palette.plain, text: "Current Time: "@ + now_text },
    ] + (match updated {
        Some(text) => seq![
            TextBlockView {
                x: COL_WIDTH,
                y: height,
                color: if stale {
                    palette.alert
                } else {
                    palette.plain
                },
                text: "Last Updated: "@ + text,
            },
        ],
        None => Seq::empty(),
    })
}

/// Everything the sign shows for a board, given the times in text.
pub open spec fn sign_blocks(
    board: BoardView,
    highlight: Option<Seq<char>>,
    palette: LedPalette,
    layout: SignLayout,
    now_text: Seq<char>,
    updated: Option<Seq<char>>,
) -> Seq<TextBlockView> {
    header_blocks(now_text, updated, !board.last_request_successful, palette, layout.height)
        + rows_blocks(
        led_lines(board_lines(shown_rows(board), highlight), palette),
        layout,
    )
}

/// What the sign shows for a board at the time `now`, or the failure if a
/// time that it needs has no text.
pub open spec fn written(
    board: BoardView,
    highlight: Option<Seq<char>>,
    palette: LedPalette,
    layout: SignLayout,
    now: WallClock,
) -> Result<Seq<TextBlockView>, RenderFailure> {
    match sign_clock(now) {
        Some(now_text) => match board.last_successful_request_time {
            Some(at) => match clock_text(at, sign_time_pattern()) {
                Some(updated) => Ok(
                    sign_blocks(board, highlight, palette, layout, now_text, Some(updated)),
                ),
                None => Err(RenderFailure::UnformattableTime),
            },
            None => Ok(sign_blocks(board, highlight, palette, layout, now_text, None)),
        },
        None => Err(RenderFailure::UnformattableTime),
    }
}

/// Whether `result` is what `written` gives.
pub open spec fn is_written(
    result: Result<Vec<TextBlock>, RenderError>,
    board: BoardView,
    highlight: Option<Seq<char>>,
    palette: LedPalette,
    layout: SignLayout,
    now: WallClock,
) -> bool {
    match result {
        Ok(blocks) => written(board, highlight, palette, layout, now) == Ok::<
            Seq<TextBlockView>,
            RenderFailure,
        >(blocks.deep_view()),
        Err(error) => written(board, highlight, palette, layout, now) == Err::<
            Seq<TextBlockView>,
            RenderFailure,
        >(error@),
    }
}

fn clamp(v: i128) -> (r: i32)
    ensures
        r == clamp_i32(v as int),
{
    if v < -2147483648 {
        -2147483648
    } else if v > 2147483647 {
        2147483647
    } else {
        v as i32
    }
}

/// The left edge and the baseline of the row with the given index.
pub fn row_origin(index: usize, layout: &SignLayout) -> (at: (i32, i32))
    ensures
        at.0 == column_x(index as int, *layout),
        at.1 == row_y(index as int, *layout),
{
    let x = if layout.two_columns && index % 2 != 0 {
        COL_WIDTH
    } else {
        0
    };
    let below = if layout.two_columns {
        index / 2
    } else {
        index
    };
    let height = layout.height;
    let steps: i128 = 1 + below as i128;
    let step: i128 = height as i128 + 1;
    assert(-0x1_0000_0000_0000_0000_0000_0000 <= steps * step <= 0x1_0000_0000_0000_0000_0000_0000)
        by (nonlinear_arith)
        requires
            0 <= steps <= 0x1_0000_0000_0000_0000,
            -0x1_0000_0000 <= step <= 0x1_0000_0000,
    ;
    (x, clamp(height as i128 + steps * step))
}

/// Appends the pieces of one row to `blocks`, the first at `x`.
fn push_row_blocks(
    blocks: &mut Vec<TextBlock>,
    line: &RGBDisplayLine,
    x: i32,
    y: i32,
    glyph_width: i32,
)
    ensures
        final(blocks).deep_view() == old(blocks).deep_view() + row_blocks(line@, x, y, glyph_width),
{
    let ghost base = blocks.deep_view();
    let ghost mut done: Seq<TextBlockView> = Seq::empty();
    let mut pen = x;
    let mut i: usize = 0;
    proof {
        assert(line@.skip(0) =~= line@);
        assert(done + row_blocks(line@, x, y, glyph_width) =~= row_blocks(line@, x, y, glyph_width));
        assert(blocks.deep_view() =~= base + done);
    }
    while i < line.line.len()
        invariant
            i <= line.line.len(),
            blocks.deep_view() == base + done,
            row_blocks(line@, x, y, glyph_width) == done + row_blocks(
                line@.skip(i as int),
                pen,
                y,
                glyph_width,
            ),
        decreases line.line.len() - i,
    {
        let piece = &line.line[i];
        let ghost rest = line@.skip(i as int);
        let ghost before = blocks.deep_view();
        let ghost block = TextBlockView { x: pen, y, color: piece.color, text: piece.string@ };
        blocks.push(TextBlock { x: pen, y, color: piece.color, text: piece.string.clone() });
        let wide: i128 = piece.string.as_str().unicode_len() as i128;
        let glyph: i128 = glyph_width as i128;
        assert(-0x1_0000_0000_0000_0000_0000_0000 <= wide * glyph
            <= 0x1_0000_0000_0000_0000_0000_0000) by (nonlinear_arith)
            requires
                0 <= wide <= 0x1_0000_0000_0000_0000,
                -0x1_0000_0000 <= glyph <= 0x1_0000_0000,
        ;
        let next = clamp(pen as i128 + wide * glyph);
        proof {
            assert(rest[0] == piece@);
            assert(rest.drop_first() =~= line@.skip(i as int + 1));
            assert(blocks.deep_view() =~= before.push(block));
            assert(before.push(block) =~= base + done.push(block));
            assert(done + (seq![block] + row_blocks(rest.drop_first(), next, y, glyph_width))
                =~= done.push(block) + row_blocks(rest.drop_first(), next, y, glyph_width));
            done = done.push(block);
        }
        pen = next;
        i = i + 1;
    }
    proof {
        assert(line@.skip(line.line.len() as int) =~= Seq::empty());
        assert(done + Seq::<TextBlockView>::empty() =~= done);
    }
}

proof fn lemma_rows_blocks_step(lines: Seq<Seq<StyledStringView>>, layout: SignLayout, i: int)
    requires
        0 <= i < lines.len(),
    ensures
        rows_blocks(lines.take(i + 1), layout) == rows_blocks(lines.take(i), layout) + row_blocks(
            lines[i],
            column_x(i, layout),
            row_y(i, layout),
            layout.glyph_width,
        ),
{
    let next = lines.take(i + 1);
    assert(next.drop_last() =~= lines.take(i));
    assert(next.last() == lines[i]);
}

/// The pieces of all rows, each row in its column and on its baseline.
pub fn layout_rows(lines: &Vec<RGBDisplayLine>, layout: &SignLayout) -> (blocks: Vec<TextBlock>)
    ensures
        blocks.deep_view() == rows_blocks(lines.deep_view(), *layout),
{
    let mut blocks: Vec<TextBlock> = Vec::new();
    let ghost all = lines.deep_view();
    let mut i: usize = 0;
    proof {
        assert(all.take(0) =~= Seq::empty());
        assert(blocks.deep_view() =~= rows_blocks(all.take(0), *layout));
    }
    while i < lines.len()
        invariant
            i <= lines.len(),
            all == lines.deep_view(),
            blocks.deep_view() == rows_blocks(all.take(i as int), *layout),
        decreases lines.len() - i,
    {
        let at = row_origin(i, layout);
        push_row_blocks(&mut blocks, &lines[i], at.0, at.1, layout.glyph_width);
        proof {
            assert(all[i as int] == lines[i as int]@);
            lemma_rows_blocks_step(all, *layout, i as int);
        }
        i = i + 1;
    }
    proof {
        assert(all.take(lines.len() as int) =~= all);
    }
    blocks
}

/// What the sign shows as the current time.
pub fn sign_clock_text(now: &WallClock) -> (r: Option<String>)
    ensures
        match r {
            Some(text) => sign_clock(*now) == Some(text@),
            None => sign_clock(*now) is None,
        },
{
    proof {
        reveal_strlit("%H:%M:%S");
    }
    if now.month == 2 && now.day == 2 {
        Some(String::from_str("YOUR BIRTHDAY!"))
    } else {
        format_wall_clock(now, "%H:%M:%S")
    }
}

impl DisplayBoard {
    /// Everything the sign shows for the board, given the times in text:
    /// `now_text` stands for the current time, `updated` for the time of
    /// last success.
    pub fn sign_blocks(
        &self,
        resolver: &StyleResolver,
        palette: &LedPalette,
        layout: &SignLayout,
        now_text: &str,
        updated: Option<&str>,
    ) -> (blocks: Vec<TextBlock>)
        ensures
            blocks.deep_view() == sign_blocks(
                self@,
                resolver@,
                *palette,
                *layout,
                now_text@,
                match updated {
                    Some(text) => Some(text@),
                    None => None,
                },
            ),
    {
        let mut blocks: Vec<TextBlock> = Vec::new();
        let mut current = String::from_str("Current Time: ");
        current.append(now_text);
        blocks.push(TextBlock { x: 0, y: layout.height, color: palette.plain, text: current });
        match updated {
            Some(text) => {
                let mut last = String::from_str("Last Updated: ");
                last.append(text);
                let color = if self.last_request_successful {
                    palette.plain
                } else {
                    palette.alert
                };
                blocks.push(TextBlock { x: COL_WIDTH, y: layout.height, color, text: last });
            },
            None => {},
        }
        let ghost head = blocks.deep_view();
        assert(head =~= header_blocks(
            now_text@,
            match updated {
                Some(text) => Some(text@),
                None => None,
            },
            !self.last_request_successful,
            *palette,
            layout.height,
        ));
        let lines = self.get_bus_styled_lines(resolver, palette);
        let mut rows = layout_rows(&lines, layout);
        let ghost body = rows.deep_view();
        blocks.append(&mut rows);
        assert(blocks.deep_view() =~= head + body);
        blocks
    }

    /// Everything the sign shows for the board at the time `now`, or why it
    /// cannot be shown.
    pub fn write_times_at(
        &self,
        resolver: &StyleResolver,
        palette: &LedPalette,
        layout: &SignLayout,
        now: &WallClock,
    ) -> (result: Result<Vec<TextBlock>, RenderError>)
        ensures
            is_written(result, self@, resolver@, *palette, *layout, *now),
    {
        proof {
            reveal_strlit("%H:%M:%S");
        }
        let now_text = match sign_clock_text(now) {
            Some(text) => text,
            None => {
                return Err(RenderError::UnformattableTime);
            },
        };
        match &self.last_successful_request_time {
            Some(at) => match format_wall_clock(at, "%H:%M:%S") {
                Some(updated) => Ok(
                    self.sign_blocks(
                        resolver,
                        palette,
                        layout,
                        now_text.as_str(),
                        Some(updated.as_str()),
                    ),
                ),
                None => Err(RenderError::UnformattableTime),
            },
            None => Ok(self.sign_blocks(resolver, palette, layout, now_text.as_str(), None)),
        }
    }

    /// Everything the sign shows for the board at the current time, which is
    /// read from the machine's clock, or why it cannot be shown.
    pub fn write_times(
        &self,
        resolver: &StyleResolver,
        palette: &LedPalette,
        layout: &SignLayout,
    ) -> (result: Result<Vec<TextBlock>, RenderError>)
        ensures
            exists|now: WallClock|
                is_written(result, self@, resolver@, *palette, *layout, now),
    {
        let now = read_wall_clock();
        let result = self.write_times_at(resolver, palette, layout, &now);
        assert(is_written(result, self@, resolver@, *palette, *layout, now));
        result
    }
}

} // verus!
