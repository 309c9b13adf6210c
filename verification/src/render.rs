//! Rendering of the board's rows into styled tokens, independent of the
//! surface that shows them.

use crate::grouping::{DisplayLines, Rows};
use crate::stop_monitor::{ArrivalRecord, MonitoredVehicleJourney};
use crate::style::{journey_style, label_style, Accent, Emphasis, Style, StyleResolver};
use crate::text::{decimal, decimal_text, push_spaces, spaces};
use vstd::prelude::*;
use vstd::string::*;

verus! {

/// A piece of text with its style, as contracts see it.
pub struct TokenView {
    pub text: Seq<char>,
    pub style: Style,
}

/// A piece of text with its style.
#[derive(Clone, Debug, PartialEq, Eq)]
pub struct Token {
    pub text: String,
    pub style: Style,
}

impl View for Token {
    type V = TokenView;

    open spec fn view(&self) -> TokenView {
        TokenView { text: self.text@, style: self.style }
    }
}

impl DeepView for Token {
    type V = TokenView;

    open spec fn deep_view(&self) -> TokenView {
        self@
    }
}

/// One row of output: its tokens from left to right.
#[derive(Clone, Debug, PartialEq, Eq)]
pub struct DisplayLine {
    pub tokens: Vec<Token>,
}

impl View for DisplayLine {
    type V = Seq<TokenView>;

    open spec fn view(&self) -> Seq<TokenView> {
        self.tokens.deep_view()
    }
}

impl DeepView for DisplayLine {
    type V = Seq<TokenView>;

    open spec fn deep_view(&self) -> Seq<TokenView> {
        self@
    }
}

/// The label of a row: its key, strong, highlighted where configured.
pub open spec fn label_token(key: Seq<char>, highlight: Option<Seq<char>>) -> TokenView {
    TokenView { text: key, style: label_style(key, highlight) }
}

/// The spaces that follow a key's colon, so that key and spaces together are
/// one wider than the longest key.
pub open spec fn padding(key: Seq<char>, max_key_length: nat) -> Seq<char> {
    spaces((max_key_length + 1 - key.len()) as nat)
}

/// The colon behind a label, with the padding that aligns the columns.
pub open spec fn separator_token(key: Seq<char>, max_key_length: nat) -> TokenView {
    TokenView {
        text: seq![':'] + padding(key, max_key_length),
        style: Style { accent: Accent::Plain, emphasis: Emphasis::Strong },
    }
}

/// The single space behind each arrival.
pub open spec fn spacer_token() -> TokenView {
    TokenView {
        text: seq![' '],
        style: Style { accent: Accent::Plain, emphasis: Emphasis::Regular },
    }
}

/// The tokens of one record: its minutes in decimal and a spacer; nothing for
/// a record without a prediction.
pub open spec fn arrival_tokens(key: Seq<char>, record: ArrivalRecord) -> Seq<TokenView> {
    match record.time_to_arrival {
        Some(minutes) => seq![
            TokenView { text: decimal(minutes as nat), style: journey_style(key, record) },
            spacer_token(),
        ],
        None => Seq::empty(),
    }
}

/// The tokens of the records of a row, in the order of the records.
pub open spec fn arrivals_tokens(key: Seq<char>, records: Seq<ArrivalRecord>) -> Seq<TokenView>
    decreases records.len(),
{
    if records.len() == 0 {
        Seq::empty()
    } else {
        arrivals_tokens(key, records.drop_last()) + arrival_tokens(key, records.last())
    }
}

/// The tokens of a whole row: label, separator, then the arrivals.
pub open spec fn line_tokens(
    key: Seq<char>,
    records: Seq<ArrivalRecord>,
    max_key_length: nat,
    highlight: Option<Seq<char>>,
) -> Seq<TokenView> {
    seq![label_token(key, highlight), separator_token(key, max_key_length)] + arrivals_tokens(
        key,
        records,
    )
}

/// The length of the longest key among `rows`; 0 without rows.
pub open spec fn longest_key(rows: Rows) -> nat
    decreases rows.len(),
{
    if rows.len() == 0 {
        0
    } else {
        let rest = longest_key(rows.drop_last());
        if rows.last().0.len() > rest {
            rows.last().0.len()
        } else {
            rest
        }
    }
}

/// One render pass over the board: every row rendered against the longest
/// key of the pass, in the order of the rows.
pub open spec fn board_lines(
    rows: Rows,
    highlight: Option<Seq<char>>,
) -> Seq<Seq<TokenView>> {
    Seq::new(
        rows.len(),
        |i: int| line_tokens(rows[i].0, rows[i].1, longest_key(rows), highlight),
    )
}

/// The text of a row as a reader sees it: the texts of its tokens in a row.
pub open spec fn line_text(tokens: Seq<TokenView>) -> Seq<char>
    decreases tokens.len(),
{
    if tokens.len() == 0 {
        Seq::empty()
    } else {
        line_text(tokens.drop_last()) + tokens.last().text
    }
}

/// No key is longer than the longest.
pub proof fn lemma_longest_key_bounds(rows: Rows, i: int)
    requires
        0 <= i < rows.len(),
    ensures
        rows[i].0.len() <= longest_key(rows),
    decreases rows.len(),
{
    if i < rows.len() - 1 {
        lemma_longest_key_bounds(rows.drop_last(), i);
    }
}

impl DisplayLine {
    /// The text of the row: the texts of its tokens one after another.
    pub fn text(&self) -> (r: String)
        ensures
            r@ == line_text(self@),
    {
        let mut out = String::new();
        let mut i: usize = 0;
        proof {
            assert(self@.take(0) =~= Seq::empty());
        }
        while i < self.tokens.len()
            invariant
                i <= self.tokens.len(),
                out@ == line_text(self@.take(i as int)),
            decreases self.tokens.len() - i,
        {
            out.append(self.tokens[i].text.as_str());
            proof {
                let next = self@.take(i as int + 1);
                assert(next.drop_last() =~= self@.take(i as int));
                assert(next.last() == self@[i as int]);
            }
            i = i + 1;
        }
        proof {
            assert(self@.take(self.tokens.len() as int) =~= self@);
        }
        out
    }
}

/// Renders one row: the label, the colon with its padding, and for each
/// record with a prediction its minutes and a space. `max_key_length` is the
/// length of the longest key of the render pass.
pub fn render_line(
    resolver: &StyleResolver,
    key: &str,
    records: &Vec<MonitoredVehicleJourney>,
    max_key_length: usize,
) -> (line: DisplayLine)
    requires
        key@.len() <= max_key_length,
    ensures
        line@ == line_tokens(key@, records.deep_view(), max_key_length as nat, resolver@),
{
    let mut tokens: Vec<Token> = Vec::new();
    tokens.push(Token { text: String::from_str(key), style: resolver.label_style(key) });
    let mut separator = String::from_str(":");
    push_spaces(&mut separator, max_key_length - key.unicode_len());
    separator.append(" ");
    proof {
        reveal_strlit(":");
        reveal_strlit(" ");
        assert(separator@ =~= seq![':'] + padding(key@, max_key_length as nat));
    }
    tokens.push(
        Token { text: separator, style: Style { accent: Accent::Plain, emphasis: Emphasis::Strong } },
    );
    let ghost head = seq![
        label_token(key@, resolver@),
        separator_token(key@, max_key_length as nat),
    ];
    let ghost all = records.deep_view();
    let mut i: usize = 0;
    proof {
        assert(all.take(0) =~= Seq::empty());
        assert(tokens.deep_view() =~= head + arrivals_tokens(key@, all.take(0)));
    }
    while i < records.len()
        invariant
            i <= records.len(),
            all == records.deep_view(),
            tokens.deep_view() == head + arrivals_tokens(key@, all.take(i as int)),
        decreases records.len() - i,
    {
        let ghost before = tokens.deep_view();
        let record = &records[i];
        match record.time_to_arrival() {
            Some(minutes) => {
                tokens.push(
                    Token { text: decimal_text(minutes), style: resolver.journey_style(key, record) },
                );
                tokens.push(
                    Token {
                        text: String::from_str(" "),
                        style: Style { accent: Accent::Plain, emphasis: Emphasis::Regular },
                    },
                );
                proof {
                    reveal_strlit(" ");
                    assert(" "@ =~= seq![' ']);
                    assert(tokens.deep_view() =~= before + arrival_tokens(key@, record@));
                }
            },
            None => {
                assert(tokens.deep_view() =~= before + arrival_tokens(key@, record@));
            },
        }
        proof {
            let next = all.take(i as int + 1);
            assert(next.drop_last() =~= all.take(i as int));
            assert(next.last() == record@);
            assert(before + arrival_tokens(key@, record@) =~= head + (arrivals_tokens(
                key@,
                all.take(i as int),
            ) + arrival_tokens(key@, record@)));
        }
        i = i + 1;
    }
    proof {
        assert(all.take(records.len() as int) =~= all);
    }
    DisplayLine { tokens }
}

/// The length of the longest key of the board, in characters.
pub fn longest_key_length(lines: &DisplayLines) -> (n: usize)
    ensures
        n == longest_key(lines@),
{
    let count = lines.len();
    let mut longest: usize = 0;
    let mut i: usize = 0;
    proof {
        assert(lines@.take(0) =~= Seq::empty());
    }
    while i < count
        invariant
            i <= count,
            count == lines@.len(),
            longest == longest_key(lines@.take(i as int)),
        decreases count - i,
    {
        let length = lines.key(i).as_str().unicode_len();
        proof {
            let next = lines@.take(i as int + 1);
            assert(next.drop_last() =~= lines@.take(i as int));
            assert(next.last() == lines@[i as int]);
        }
        if length > longest {
            longest = length;
        }
        i = i + 1;
    }
    proof {
        assert(lines@.take(count as int) =~= lines@);
    }
    longest
}

/// One render pass: every row of the board as a line of tokens, in the order
/// of the rows, all aligned to the longest key.
pub fn render_lines(lines: &DisplayLines, resolver: &StyleResolver) -> (out: Vec<DisplayLine>)
    ensures
        out.deep_view() == board_lines(lines@, resolver@),
{
    let longest = longest_key_length(lines);
    let count = lines.len();
    let mut out: Vec<DisplayLine> = Vec::new();
    let mut i: usize = 0;
    while i < count
        invariant
            i <= count,
            count == lines@.len(),
            longest == longest_key(lines@),
            out.len() == i,
            forall|j: int|
                0 <= j < i ==> (#[trigger] out.deep_view()[j]) == board_lines(lines@, resolver@)[j],
        decreases count - i,
    {
        proof {
            lemma_longest_key_bounds(lines@, i as int);
        }
        let line = render_line(resolver, lines.key(i).as_str(), lines.records(i), longest);
        let ghost before = out.deep_view();
        out.push(line);
        proof {
            let after = out.deep_view();
            assert forall|j: int| 0 <= j < i + 1 implies (#[trigger] after[j]) == board_lines(
                lines@,
                resolver@,
            )[j] by {
                if j < i {
                    assert(after[j] == before[j]);
                }
            }
        }
        i = i + 1;
    }
    assert(out.deep_view() =~= board_lines(lines@, resolver@));
    out
}

} // verus!
