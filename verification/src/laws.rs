//! What holds of the pipeline as a whole, from the feed to the rendered rows.

use crate::aliases::AliasMap;
use crate::grouping::{
    board_groups, has_key, holds_groups, is_display_lines, is_predicted, keys_ascending,
    lemma_display_lines_well_formed, lemma_keys_distinct, predicted, Rows,
};
use crate::sorting::arrival_rank;
use crate::render::{
    arrival_tokens, arrivals_tokens, board_lines, label_token, lemma_longest_key_bounds,
    line_tokens, longest_key, padding, separator_token, TokenView,
};
use crate::stop_monitor::{ArrivalRecord, Feed};
use crate::text::{lemma_lex_lt_irreflexive, lemma_lex_lt_total, lex_lt};
use vstd::prelude::*;

verus! {

/// A record without a prediction leaves no trace in a rendered row: the row
/// is the same as if only the records with a prediction had been given.
pub proof fn lemma_unpredicted_never_rendered(
    key: Seq<char>,
    records: Seq<ArrivalRecord>,
    max_key_length: nat,
    highlight: Option<Seq<char>>,
)
    ensures
        line_tokens(key, records, max_key_length, highlight) == line_tokens(
            key,
            predicted(records),
            max_key_length,
            highlight,
        ),
    decreases records.len(),
{
    lemma_arrivals_of_predicted(key, records);
}

proof fn lemma_arrivals_of_predicted(key: Seq<char>, records: Seq<ArrivalRecord>)
    ensures
        arrivals_tokens(key, records) == arrivals_tokens(key, predicted(records)),
    decreases records.len(),
{
    let keep = |r: ArrivalRecord| is_predicted(r);
    if records.len() == 0 {
        reveal_with_fuel(Seq::filter, 1);
        assert(predicted(records) =~= records);
    } else {
        let rest = records.drop_last();
        let last = records.last();
        lemma_arrivals_of_predicted(key, rest);
        rest.lemma_filter_push(last, keep);
        assert(rest.push(last) =~= records);
        if is_predicted(last) {
            let kept = predicted(rest).push(last);
            assert(kept.drop_last() =~= predicted(rest));
            assert(kept.last() == last);
        } else {
            assert(arrival_tokens(key, last) =~= Seq::<TokenView>::empty());
            assert(arrivals_tokens(key, rest) + Seq::<TokenView>::empty() =~= arrivals_tokens(
                key,
                rest,
            ));
        }
    }
}

/// Every row of the board of a feed holds records with a prediction only.
pub proof fn lemma_board_holds_predictions_only(
    rows: Rows,
    stops: Feed,
    aliases: AliasMap,
    long_name: bool,
    i: int,
    j: int,
)
    requires
        is_display_lines(rows, stops, aliases, long_name),
        0 <= i < rows.len(),
        0 <= j < rows[i].1.len(),
    ensures
        rows[i].1[j].time_to_arrival is Some,
{
    lemma_display_lines_well_formed(rows, stops, aliases, long_name);
}

/// The labels of the rendered rows stand in ascending lexical order.
pub proof fn lemma_rendered_keys_ascend(
    rows: Rows,
    highlight: Option<Seq<char>>,
    i: int,
    j: int,
)
    requires
        keys_ascending(rows),
        0 <= i < j < rows.len(),
    ensures
        board_lines(rows, highlight).len() == rows.len(),
        lex_lt(board_lines(rows, highlight)[i][0].text, board_lines(rows, highlight)[j][0].text),
{
    assert(board_lines(rows, highlight)[i][0] == label_token(rows[i].0, highlight));
    assert(board_lines(rows, highlight)[j][0] == label_token(rows[j].0, highlight));
}

/// In one render pass every label together with the padding behind its colon
/// is one character wider than the longest key, whatever the row.
pub proof fn lemma_padding_aligns(
    rows: Rows,
    highlight: Option<Seq<char>>,
    i: int,
)
    requires
        0 <= i < rows.len(),
    ensures
        board_lines(rows, highlight)[i][0].text == rows[i].0,
        board_lines(rows, highlight)[i][1].text == seq![':'] + padding(
            rows[i].0,
            longest_key(rows),
        ),
        rows[i].0.len() + padding(rows[i].0, longest_key(rows)).len() == longest_key(rows) + 1,
{
    lemma_longest_key_bounds(rows, i);
    let line = board_lines(rows, highlight)[i];
    assert(line[0] == label_token(rows[i].0, highlight));
    assert(line[1] == separator_token(rows[i].0, longest_key(rows)));
}

proof fn lemma_same_key_at(
    a: Rows,
    b: Rows,
    group: spec_fn(Seq<char>) -> Seq<ArrivalRecord>,
    i: int,
)
    requires
        holds_groups(a, group),
        holds_groups(b, group),
        0 <= i < a.len(),
    ensures
        i < b.len(),
        a[i].0 == b[i].0,
    decreases i,
{
    assert forall|j: int| 0 <= j < i implies j < b.len() && a[j].0 == b[j].0 by {
        lemma_same_key_at(a, b, group, j);
    }
    let key = a[i].0;
    assert(group(key).len() > 0);
    assert(has_key(b, key));
    let jb = choose|j: int| 0 <= j < b.len() && (#[trigger] b[j]).0 == key;
    if jb < i {
        lemma_keys_distinct(a, jb, i);
    }
    assert(group(b[i].0).len() > 0);
    assert(has_key(a, b[i].0));
    let ja = choose|j: int| 0 <= j < a.len() && (#[trigger] a[j]).0 == b[i].0;
    if ja < i {
        lemma_keys_distinct(b, ja, i);
    }
    lemma_lex_lt_total(a[i].0, b[i].0);
    lemma_lex_lt_irreflexive(a[i].0);
    if jb > i {
        assert(lex_lt(b[i].0, b[jb].0));
    }
    if ja > i {
        assert(lex_lt(a[i].0, a[ja].0));
    }
}

/// The board of a feed is determined by the feed: any two boards of the same
/// feed under the same alias table are the same, row for row, and so are
/// their renderings.
pub proof fn lemma_board_determined(
    a: Rows,
    b: Rows,
    stops: Feed,
    aliases: AliasMap,
    long_name: bool,
    highlight: Option<Seq<char>>,
)
    requires
        is_display_lines(a, stops, aliases, long_name),
        is_display_lines(b, stops, aliases, long_name),
    ensures
        a == b,
        board_lines(a, highlight) == board_lines(b, highlight),
{
    let group = board_groups(stops, aliases, long_name);
    if a.len() > 0 {
        lemma_same_key_at(a, b, group, a.len() - 1);
    }
    if b.len() > 0 {
        lemma_same_key_at(b, a, group, b.len() - 1);
    }
    assert forall|i: int| 0 <= i < a.len() implies a[i] == b[i] by {
        lemma_same_key_at(a, b, group, i);
        assert(a[i].1 == group(a[i].0));
        assert(b[i].1 == group(b[i].0));
    }
    assert(a =~= b);
}

/// On the board of a feed no record stands before one of its row that
/// arrives sooner, and a record without a prediction, should one ever be
/// there, stands behind all that have one.
pub proof fn lemma_rows_in_arrival_order(
    rows: Rows,
    stops: Feed,
    aliases: AliasMap,
    long_name: bool,
    i: int,
    j: int,
    k: int,
)
    requires
        is_display_lines(rows, stops, aliases, long_name),
        0 <= i < rows.len(),
        0 <= j < k < rows[i].1.len(),
    ensures
        arrival_rank(rows[i].1[j]) <= arrival_rank(rows[i].1[k]),
        rows[i].1[j].time_to_arrival is None ==> rows[i].1[k].time_to_arrival is None,
{
    lemma_display_lines_well_formed(rows, stops, aliases, long_name);
}

} // verus!
