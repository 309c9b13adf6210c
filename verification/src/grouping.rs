//! Grouping of the feed's records into the rows of the board: one row per
//! display key, its records the predicted arrivals of every line that is shown
//! under that key.

use crate::aliases::{AliasMap, AliasTable};
use crate::sorting::{
    in_arrival_order, insert_position, lemma_insert_position, lemma_sort_in_order, lemma_sort_len,
    sort_by_arrival, sort_by_arrival_time,
};
use crate::stop_monitor::{ArrivalRecord, Feed, LineStop, MonitoredVehicleJourney, StopKey};
use crate::text::{
    lemma_lex_lt_irreflexive, lemma_lex_lt_total, lemma_lex_lt_transitive, lex_lt, str_eq, str_lt,
};
use vstd::prelude::*;

verus! {

/// The rows of a board, as contracts see them: each a display key with the
/// records shown under it.
pub type Rows = Seq<(Seq<char>, Seq<ArrivalRecord>)>;

/// The key of the row in which the records of `stop` are shown: the parent of
/// the stop's line where the alias table names one; else the stop's own label
/// if `long_name` is set, and the line itself if not.
pub open spec fn display_key(
    stop: StopKey,
    aliases: AliasMap,
    long_name: bool,
) -> Seq<char> {
    if aliases.contains_key(stop.line_ref) {
        aliases[stop.line_ref]
    } else if long_name {
        stop.stop_label
    } else {
        stop.line_ref
    }
}

/// Whether the feed predicts an arrival for `r`.
pub open spec fn is_predicted(r: ArrivalRecord) -> bool {
    r.time_to_arrival is Some
}

/// The records of `records` that carry a prediction, in their order.
pub open spec fn predicted(records: Seq<ArrivalRecord>) -> Seq<ArrivalRecord> {
    records.filter(|r: ArrivalRecord| is_predicted(r))
}

/// The predicted records of every entry of `stops` that is shown under `key`,
/// in the order of the feed.
pub open spec fn gathered(
    stops: Feed,
    aliases: AliasMap,
    long_name: bool,
    key: Seq<char>,
) -> Seq<ArrivalRecord>
    decreases stops.len(),
{
    if stops.len() == 0 {
        Seq::empty()
    } else {
        let rest = gathered(stops.drop_last(), aliases, long_name, key);
        if display_key(stops.last().0, aliases, long_name) == key {
            rest + predicted(stops.last().1)
        } else {
            rest
        }
    }
}

/// The keys of `rows` strictly ascend in lexical order.
pub open spec fn keys_ascending(rows: Rows) -> bool {
    forall|i: int, j: int|
        0 <= i < j < rows.len() ==> lex_lt(#[trigger] rows[i].0, #[trigger] rows[j].0)
}

/// Whether `rows` has a row for `key`.
pub open spec fn has_key(rows: Rows, key: Seq<char>) -> bool {
    exists|i: int| 0 <= i < rows.len() && (#[trigger] rows[i]).0 == key
}

/// `rows` holds, in ascending order of key, exactly one row for each key to
/// which `group` assigns any record, and that row holds what `group` assigns.
pub open spec fn holds_groups(
    rows: Rows,
    group: spec_fn(Seq<char>) -> Seq<ArrivalRecord>,
) -> bool {
    &&& keys_ascending(rows)
    &&& forall|i: int|
        0 <= i < rows.len() ==> (#[trigger] rows[i]).1 == group(rows[i].0) && rows[i].1.len() > 0
    &&& forall|key: Seq<char>| (#[trigger] group(key)).len() > 0 ==> has_key(rows, key)
}

/// What a feed holds for each key: the predicted records shown under it, in
/// the order of the feed.
pub open spec fn feed_groups(
    stops: Feed,
    aliases: AliasMap,
    long_name: bool,
) -> spec_fn(Seq<char>) -> Seq<ArrivalRecord> {
    |key: Seq<char>| gathered(stops, aliases, long_name, key)
}

/// The rows with the records of each sorted by arrival.
pub open spec fn sorted_rows(rows: Rows) -> Rows {
    Seq::new(rows.len(), |i: int| (rows[i].0, sort_by_arrival(rows[i].1)))
}

/// What the board shows for a feed: for each key under which the feed has a
/// predicted record, the predicted records shown under it, sorted by arrival.
pub open spec fn board_groups(
    stops: Feed,
    aliases: AliasMap,
    long_name: bool,
) -> spec_fn(Seq<char>) -> Seq<ArrivalRecord> {
    |key: Seq<char>| sort_by_arrival(gathered(stops, aliases, long_name, key))
}

/// `rows` is the board for the feed `stops`: its keys ascend, a key has a row
/// exactly if the feed has a predicted record for it, and each row holds the
/// predicted records of its key sorted by arrival.
pub open spec fn is_display_lines(
    rows: Rows,
    stops: Feed,
    aliases: AliasMap,
    long_name: bool,
) -> bool {
    holds_groups(rows, board_groups(stops, aliases, long_name))
}

/// Every row has a record, every record a prediction, the records of a row
/// are in arrival order, and the keys ascend.
pub open spec fn well_formed(rows: Rows) -> bool {
    &&& keys_ascending(rows)
    &&& forall|i: int|
        0 <= i < rows.len() ==> {
            &&& (#[trigger] rows[i]).1.len() > 0
            &&& in_arrival_order(rows[i].1)
            &&& forall|j: int| 0 <= j < rows[i].1.len() ==> is_predicted(#[trigger] rows[i].1[j])
        }
}

/// The rows of the board, one per display key, in ascending order of key.
#[derive(Debug)]
pub struct DisplayLines {
    rows: Vec<(String, Vec<MonitoredVehicleJourney>)>,
}

impl View for DisplayLines {
    type V = Rows;

    closed spec fn view(&self) -> Rows {
        self.rows.deep_view()
    }
}

impl DisplayLines {
    #[verifier::type_invariant]
    spec fn inv(&self) -> bool {
        well_formed(self.rows.deep_view())
    }

    /// A board without rows.
    pub fn new() -> (r: Self)
        ensures
            r@.len() == 0,
    {
        let rows: Vec<(String, Vec<MonitoredVehicleJourney>)> = Vec::new();
        DisplayLines { rows }
    }

    /// The number of rows.
    pub fn len(&self) -> (n: usize)
        ensures
            n == self@.len(),
            well_formed(self@),
    {
        proof {
            use_type_invariant(self);
        }
        self.rows.len()
    }

    /// The key of row `i`.
    pub fn key(&self, i: usize) -> (k: &String)
        requires
            i < self@.len(),
        ensures
            k@ == self@[i as int].0,
    {
        &self.rows[i].0
    }

    /// The records of row `i`, soonest first.
    pub fn records(&self, i: usize) -> (r: &Vec<MonitoredVehicleJourney>)
        requires
            i < self@.len(),
        ensures
            r.deep_view() == self@[i as int].1,
    {
        &self.rows[i].1
    }

    /// The records shown under `key`, if it has a row.
    pub fn get(&self, key: &str) -> (r: Option<&Vec<MonitoredVehicleJourney>>)
        ensures
            match r {
                Some(records) => exists|i: int|
                    0 <= i < self@.len() && (#[trigger] self@[i]).0 == key@ && records.deep_view()
                        == self@[i].1,
                None => !has_key(self@, key@),
            },
    {
        let mut i: usize = 0;
        while i < self.rows.len()
            invariant
                i <= self.rows.len(),
                forall|j: int| 0 <= j < i ==> (#[trigger] self@[j]).0 != key@,
            decreases self.rows.len() - i,
        {
            if str_eq(self.rows[i].0.as_str(), key) {
                assert(self@[i as int].0 == key@);
                return Some(&self.rows[i].1);
            }
            i = i + 1;
        }
        None
    }
}

/// Two keys of ascending rows are equal only at the same index.
pub proof fn lemma_keys_distinct(rows: Rows, i: int, j: int)
    requires
        keys_ascending(rows),
        0 <= i < rows.len(),
        0 <= j < rows.len(),
        rows[i].0 == rows[j].0,
    ensures
        i == j,
{
    lemma_lex_lt_irreflexive(rows[i].0);
}

proof fn lemma_extend_row(
    rows: Rows,
    group: spec_fn(Seq<char>) -> Seq<ArrivalRecord>,
    next: spec_fn(Seq<char>) -> Seq<ArrivalRecord>,
    i: int,
    x: ArrivalRecord,
)
    requires
        holds_groups(rows, group),
        0 <= i < rows.len(),
        next(rows[i].0) == group(rows[i].0).push(x),
        forall|key: Seq<char>| key != rows[i].0 ==> #[trigger] next(key) == group(key),
    ensures
        holds_groups(rows.update(i, (rows[i].0, rows[i].1.push(x))), next),
{
    let out = rows.update(i, (rows[i].0, rows[i].1.push(x)));
    assert forall|a: int, b: int| 0 <= a < b < out.len() implies lex_lt(
        #[trigger] out[a].0,
        #[trigger] out[b].0,
    ) by {
        assert(out[a].0 == rows[a].0 && out[b].0 == rows[b].0);
    }
    assert forall|j: int| 0 <= j < out.len() implies (#[trigger] out[j]).1 == next(out[j].0)
        && out[j].1.len() > 0 by {
        if j != i {
            assert(out[j] == rows[j]);
            if rows[j].0 == rows[i].0 {
                lemma_keys_distinct(rows, i, j);
            }
        }
    }
    assert forall|key: Seq<char>| (#[trigger] next(key)).len() > 0 implies has_key(out, key) by {
        if key == rows[i].0 {
            assert(out[i].0 == key);
        } else {
            assert(group(key).len() > 0);
            let j = choose|j: int| 0 <= j < rows.len() && (#[trigger] rows[j]).0 == key;
            assert(out[j].0 == key);
        }
    }
}

proof fn lemma_insert_row(
    rows: Rows,
    group: spec_fn(Seq<char>) -> Seq<ArrivalRecord>,
    next: spec_fn(Seq<char>) -> Seq<ArrivalRecord>,
    i: int,
    key: Seq<char>,
    x: ArrivalRecord,
)
    requires
        holds_groups(rows, group),
        0 <= i <= rows.len(),
        forall|j: int| 0 <= j < i ==> lex_lt((#[trigger] rows[j]).0, key),
        i < rows.len() ==> lex_lt(key, rows[i].0),
        next(key) == group(key).push(x),
        forall|other: Seq<char>| other != key ==> #[trigger] next(other) == group(other),
    ensures
        holds_groups(rows.insert(i, (key, seq![x])), next),
{
    let out = rows.insert(i, (key, seq![x]));
    assert forall|j: int| i <= j < rows.len() implies lex_lt(key, (#[trigger] rows[j]).0) by {
        if j > i {
            lemma_lex_lt_transitive(key, rows[i].0, rows[j].0);
        }
    }
    assert forall|j: int| 0 <= j < rows.len() implies (#[trigger] rows[j]).0 != key by {
        lemma_lex_lt_irreflexive(key);
    }
    assert(!has_key(rows, key));
    assert(group(key).len() == 0);
    assert(group(key).push(x) =~= seq![x]);
    assert forall|a: int, b: int| 0 <= a < b < out.len() implies lex_lt(
        #[trigger] out[a].0,
        #[trigger] out[b].0,
    ) by {
        if b < i {
            assert(out[a] == rows[a] && out[b] == rows[b]);
        } else if b == i {
            assert(out[a] == rows[a]);
        } else if a < i {
            assert(out[a] == rows[a] && out[b] == rows[b - 1]);
            lemma_lex_lt_transitive(rows[a].0, key, rows[b - 1].0);
        } else if a == i {
            assert(out[b] == rows[b - 1]);
        } else {
            assert(out[a] == rows[a - 1] && out[b] == rows[b - 1]);
        }
    }
    assert forall|j: int| 0 <= j < out.len() implies (#[trigger] out[j]).1 == next(out[j].0)
        && out[j].1.len() > 0 by {
        if j < i {
            assert(out[j] == rows[j]);
        } else if j > i {
            assert(out[j] == rows[j - 1]);
        }
    }
    assert forall|other: Seq<char>| (#[trigger] next(other)).len() > 0 implies has_key(
        out,
        other,
    ) by {
        if other == key {
            assert(out[i].0 == key);
        } else {
            assert(group(other).len() > 0);
            let j = choose|j: int| 0 <= j < rows.len() && (#[trigger] rows[j]).0 == other;
            if j < i {
                assert(out[j].0 == other);
            } else {
                assert(out[j + 1].0 == other);
            }
        }
    }
}

proof fn lemma_same_groups(
    rows: Rows,
    group: spec_fn(Seq<char>) -> Seq<ArrivalRecord>,
    next: spec_fn(Seq<char>) -> Seq<ArrivalRecord>,
)
    requires
        holds_groups(rows, group),
        forall|key: Seq<char>| #[trigger] next(key) == group(key),
    ensures
        holds_groups(rows, next),
{
    assert forall|key: Seq<char>| (#[trigger] next(key)).len() > 0 implies has_key(rows, key) by {
        assert(group(key).len() > 0);
    }
}

/// What has been gathered for `key` once the first `s` entries of the feed
/// and the first `r` records of the next entry have been read.
spec fn gathered_so_far(
    stops: Feed,
    aliases: AliasMap,
    long_name: bool,
    s: int,
    r: int,
) -> spec_fn(Seq<char>) -> Seq<ArrivalRecord> {
    |key: Seq<char>|
        if 0 <= s < stops.len() && display_key(stops[s].0, aliases, long_name) == key {
            gathered(stops.take(s), aliases, long_name, key) + predicted(stops[s].1.take(r))
        } else {
            gathered(stops.take(s), aliases, long_name, key)
        }
}

proof fn lemma_gathered_entry_read(
    stops: Feed,
    aliases: AliasMap,
    long_name: bool,
    s: int,
    key: Seq<char>,
)
    requires
        0 <= s < stops.len(),
    ensures
        gathered_so_far(stops, aliases, long_name, s, stops[s].1.len() as int)(key)
            == gathered_so_far(stops, aliases, long_name, s + 1, 0)(key),
{
    let next = stops.take(s + 1);
    assert(next.drop_last() =~= stops.take(s));
    assert(next.last() == stops[s]);
    assert(stops[s].1.take(stops[s].1.len() as int) =~= stops[s].1);
    if s + 1 < stops.len() {
        assert(stops[s + 1].1.take(0) =~= Seq::<ArrivalRecord>::empty());
        reveal_with_fuel(Seq::filter, 1);
        assert(predicted(Seq::<ArrivalRecord>::empty()) =~= Seq::<ArrivalRecord>::empty());
        assert(gathered(next, aliases, long_name, key) + Seq::<ArrivalRecord>::empty() =~= gathered(
            next,
            aliases,
            long_name,
            key,
        ));
    }
}

proof fn lemma_gathered_record_read(
    stops: Feed,
    aliases: AliasMap,
    long_name: bool,
    s: int,
    r: int,
    key: Seq<char>,
)
    requires
        0 <= s < stops.len(),
        0 <= r < stops[s].1.len(),
    ensures
        gathered_so_far(stops, aliases, long_name, s, r + 1)(key) == if display_key(
            stops[s].0,
            aliases,
            long_name,
        ) == key && is_predicted(stops[s].1[r]) {
            gathered_so_far(stops, aliases, long_name, s, r)(key).push(stops[s].1[r])
        } else {
            gathered_so_far(stops, aliases, long_name, s, r)(key)
        },
{
    let records = stops[s].1;
    let pred = |x: ArrivalRecord| is_predicted(x);
    assert(records.take(r + 1) =~= records.take(r).push(records[r]));
    records.take(r).lemma_filter_push(records[r], pred);
    if display_key(stops[s].0, aliases, long_name) == key && is_predicted(records[r]) {
        let base = gathered(stops.take(s), aliases, long_name, key);
        assert(base + predicted(records.take(r)).push(records[r]) =~= (base + predicted(
            records.take(r),
        )).push(records[r]));
    }
}

/// Every gathered record carries a prediction.
pub proof fn lemma_gathered_predicted(
    stops: Feed,
    aliases: AliasMap,
    long_name: bool,
    key: Seq<char>,
)
    ensures
        forall|i: int|
            0 <= i < gathered(stops, aliases, long_name, key).len() ==> is_predicted(
                #[trigger] gathered(stops, aliases, long_name, key)[i],
            ),
    decreases stops.len(),
{
    if stops.len() > 0 {
        lemma_gathered_predicted(stops.drop_last(), aliases, long_name, key);
        let rest = gathered(stops.drop_last(), aliases, long_name, key);
        let more = predicted(stops.last().1);
        let pred = |x: ArrivalRecord| is_predicted(x);
        assert forall|i: int| 0 <= i < more.len() implies is_predicted(#[trigger] more[i]) by {
            stops.last().1.lemma_filter_pred(pred, i);
        }
    }
}

/// Where every record carries a prediction, so does every record once they
/// are sorted.
pub proof fn lemma_sort_keeps_predicted(s: Seq<ArrivalRecord>)
    requires
        forall|i: int| 0 <= i < s.len() ==> is_predicted(#[trigger] s[i]),
    ensures
        forall|i: int|
            0 <= i < sort_by_arrival(s).len() ==> is_predicted(#[trigger] sort_by_arrival(s)[i]),
    decreases s.len(),
{
    if s.len() > 0 {
        let t = sort_by_arrival(s.drop_last());
        let p = insert_position(t, s.last());
        lemma_sort_keeps_predicted(s.drop_last());
        lemma_insert_position(t, s.last());
        let out = t.insert(p, s.last());
        assert forall|i: int| 0 <= i < out.len() implies is_predicted(#[trigger] out[i]) by {
            if i < p {
                assert(out[i] == t[i]);
            } else if i > p {
                assert(out[i] == t[i - 1]);
            }
        }
    }
}

/// A board for a feed is well formed.
pub proof fn lemma_display_lines_well_formed(
    rows: Rows,
    stops: Feed,
    aliases: AliasMap,
    long_name: bool,
)
    requires
        is_display_lines(rows, stops, aliases, long_name),
    ensures
        well_formed(rows),
{
    assert forall|i: int| 0 <= i < rows.len() implies {
        &&& (#[trigger] rows[i]).1.len() > 0
        &&& in_arrival_order(rows[i].1)
        &&& forall|j: int| 0 <= j < rows[i].1.len() ==> is_predicted(#[trigger] rows[i].1[j])
    } by {
        let raw = gathered(stops, aliases, long_name, rows[i].0);
        assert(rows[i].1 == board_groups(stops, aliases, long_name)(rows[i].0));
        lemma_sort_in_order(raw);
        lemma_gathered_predicted(stops, aliases, long_name, rows[i].0);
        lemma_sort_keeps_predicted(raw);
    }
}

/// The display key of one feed entry.
pub fn resolve_display_key(
    stop: &LineStop,
    rapid_line_to_parent_map: &AliasTable,
    use_long_name: Option<bool>,
) -> (key: String)
    ensures
        key@ == display_key(stop@, rapid_line_to_parent_map@, use_long_name == Some(true)),
{
    match rapid_line_to_parent_map.get(stop.line_ref.as_str()) {
        Some(parent) => parent.clone(),
        None => match use_long_name {
            Some(true) => stop.screen_display(),
            _ => stop.line_ref.clone(),
        },
    }
}

/// The index of the first row whose key does not come before `key`.
fn find_row(rows: &Vec<(String, Vec<MonitoredVehicleJourney>)>, key: &str) -> (i: usize)
    ensures
        i <= rows.len(),
        forall|j: int| 0 <= j < i ==> lex_lt((#[trigger] rows.deep_view()[j]).0, key@),
        i < rows.len() ==> !lex_lt(rows.deep_view()[i as int].0, key@),
{
    let mut i: usize = 0;
    while i < rows.len() && str_lt(rows[i].0.as_str(), key)
        invariant
            i <= rows.len(),
            forall|j: int| 0 <= j < i ==> lex_lt((#[trigger] rows.deep_view()[j]).0, key@),
        decreases rows.len() - i,
    {
        i = i + 1;
    }
    i
}

/// Groups the records of a feed result by display key.
///
/// Each entry of `stops` is shown under its display key. Of its records those
/// with a prediction are appended to the row of that key, which is made when
/// its first record arrives; the others are dropped. The rows come out in
/// ascending lexical order of key, the records of a row in the order of the
/// feed. An empty feed gives no rows.
pub fn group_by_display_key(
    stops: &Vec<(LineStop, Vec<MonitoredVehicleJourney>)>,
    rapid_line_to_parent_map: &AliasTable,
    use_long_name: Option<bool>,
) -> (rows: Vec<(String, Vec<MonitoredVehicleJourney>)>)
    ensures
        holds_groups(
            rows.deep_view(),
            feed_groups(stops.deep_view(), rapid_line_to_parent_map@, use_long_name == Some(true)),
        ),
{
    let ghost feed = stops.deep_view();
    let ghost table = rapid_line_to_parent_map@;
    let ghost long = use_long_name == Some(true);
    let mut rows: Vec<(String, Vec<MonitoredVehicleJourney>)> = Vec::new();
    let mut s: usize = 0;
    proof {
        assert(feed.take(0) =~= Seq::empty());
        assert(stops.len() > 0 ==> feed[0].1.take(0) =~= Seq::<ArrivalRecord>::empty());
        reveal_with_fuel(Seq::filter, 1);
        assert forall|key: Seq<char>|
            (#[trigger] gathered_so_far(feed, table, long, 0, 0)(key)).len() == 0 by {
            assert(gathered(feed.take(0), table, long, key) =~= Seq::empty());
        }
    }
    while s < stops.len()
        invariant
            s <= stops.len(),
            feed == stops.deep_view(),
            table == rapid_line_to_parent_map@,
            long == (use_long_name == Some(true)),
            holds_groups(rows.deep_view(), gathered_so_far(feed, table, long, s as int, 0)),
        decreases stops.len() - s,
    {
        let key = resolve_display_key(&stops[s].0, rapid_line_to_parent_map, use_long_name);
        let mut r: usize = 0;
        let count = stops[s].1.len();
        assert(feed[s as int].1.len() == count);
        assert(feed[s as int].0 == stops[s as int].0@);
        while r < count
            invariant
                s < stops.len(),
                r <= count,
                count == stops[s as int].1.len(),
                feed == stops.deep_view(),
                key@ == display_key(feed[s as int].0, table, long),
                holds_groups(
                    rows.deep_view(),
                    gathered_so_far(feed, table, long, s as int, r as int),
                ),
            decreases count - r,
        {
            let ghost before = rows.deep_view();
            let ghost group = gathered_so_far(feed, table, long, s as int, r as int);
            let ghost next = gathered_so_far(feed, table, long, s as int, r as int + 1);
            let journey = &stops[s].1[r];
            proof {
                assert(journey@ == feed[s as int].1[r as int]);
                assert forall|k: Seq<char>| #[trigger]
                    next(k) == if key@ == k && is_predicted(journey@) {
                        group(k).push(journey@)
                    } else {
                        group(k)
                    } by {
                    lemma_gathered_record_read(feed, table, long, s as int, r as int, k);
                }
            }
            if journey.time_to_arrival.is_some() {
                let record = journey.clone();
                let i = find_row(&rows, key.as_str());
                if i < rows.len() && str_eq(rows[i].0.as_str(), key.as_str()) {
                    let ghost held = rows@;
                    rows[i].1.push(record);
                    proof {
                        lemma_extend_row(before, group, next, i as int, record@);
                        let after = rows.deep_view();
                        assert(after[i as int].1 =~= before[i as int].1.push(record@));
                        assert forall|j: int| 0 <= j < after.len() && j != i implies after[j]
                            == before[j] by {
                            assert(rows@[j] == held[j]);
                        }
                        assert(after =~= before.update(
                            i as int,
                            (before[i as int].0, before[i as int].1.push(record@)),
                        ));
                    }
                } else {
                    let mut fresh: Vec<MonitoredVehicleJourney> = Vec::new();
                    fresh.push(record);
                    rows.insert(i, (key.clone(), fresh));
                    proof {
                        if (i as int) < before.len() {
                            lemma_lex_lt_total(before[i as int].0, key@);
                        }
                        lemma_insert_row(before, group, next, i as int, key@, record@);
                        assert(fresh.deep_view() =~= seq![record@]);
                        assert(rows.deep_view() =~= before.insert(i as int, (key@, seq![record@])));
                    }
                }
            } else {
                proof {
                    lemma_same_groups(before, group, next);
                }
            }
            r = r + 1;
        }
        proof {
            let group = gathered_so_far(feed, table, long, s as int, count as int);
            let next = gathered_so_far(feed, table, long, s as int + 1, 0);
            assert forall|k: Seq<char>| #[trigger] next(k) == group(k) by {
                lemma_gathered_entry_read(feed, table, long, s as int, k);
            }
            lemma_same_groups(rows.deep_view(), group, next);
        }
        s = s + 1;
    }
    proof {
        assert(feed.take(stops.len() as int) =~= feed);
        lemma_same_groups(
            rows.deep_view(),
            gathered_so_far(feed, table, long, stops.len() as int, 0),
            feed_groups(feed, table, long),
        );
    }
    rows
}

/// Sorts the records of every row by minutes to arrival, ascending; records
/// that tie keep their order. Keys and the order of the rows stay.
pub fn sort_rows(rows: &mut Vec<(String, Vec<MonitoredVehicleJourney>)>)
    ensures
        final(rows).deep_view() == sorted_rows(old(rows).deep_view()),
{
    let ghost given = rows.deep_view();
    let n = rows.len();
    let mut i: usize = 0;
    while i < n
        invariant
            i <= n,
            n == rows.len(),
            n == given.len(),
            forall|j: int| 0 <= j < i ==> #[trigger] rows.deep_view()[j] == sorted_rows(given)[j],
            forall|j: int| i <= j < n ==> #[trigger] rows.deep_view()[j] == given[j],
        decreases n - i,
    {
        let ghost before = rows.deep_view();
        sort_by_arrival_time(&mut rows[i].1);
        proof {
            let after = rows.deep_view();
            assert forall|j: int| 0 <= j < i + 1 implies #[trigger] after[j] == sorted_rows(
                given,
            )[j] by {
                if j < i {
                    assert(after[j] == before[j]);
                } else {
                    assert(before[j] == given[j]);
                    assert(after[j].0 == before[j].0);
                }
            }
            assert forall|j: int| i + 1 <= j < n implies #[trigger] after[j] == given[j] by {
                assert(after[j] == before[j]);
            }
        }
        i = i + 1;
    }
    assert(rows.deep_view() =~= sorted_rows(given));
}

/// Sorting the rows of the groups of a feed gives the board of that feed.
pub proof fn lemma_sorted_groups_are_board(
    rows: Rows,
    stops: Feed,
    aliases: AliasMap,
    long_name: bool,
)
    requires
        holds_groups(rows, feed_groups(stops, aliases, long_name)),
    ensures
        is_display_lines(sorted_rows(rows), stops, aliases, long_name),
{
    let out = sorted_rows(rows);
    let raw = feed_groups(stops, aliases, long_name);
    let board = board_groups(stops, aliases, long_name);
    assert forall|a: int, b: int| 0 <= a < b < out.len() implies lex_lt(
        #[trigger] out[a].0,
        #[trigger] out[b].0,
    ) by {
        assert(lex_lt(rows[a].0, rows[b].0));
    }
    assert forall|j: int| 0 <= j < out.len() implies (#[trigger] out[j]).1 == board(out[j].0)
        && out[j].1.len() > 0 by {
        assert(rows[j].1 == raw(rows[j].0));
        lemma_sort_len(rows[j].1);
    }
    assert forall|k: Seq<char>| (#[trigger] board(k)).len() > 0 implies has_key(out, k) by {
        lemma_sort_len(gathered(stops, aliases, long_name, k));
        assert(raw(k).len() > 0);
        let j = choose|j: int| 0 <= j < rows.len() && (#[trigger] rows[j]).0 == k;
        assert(out[j].0 == k);
    }
}

/// Turns a feed result into the rows of the board: the records are grouped
/// by display key, those without a prediction are dropped, and every row is
/// sorted by minutes to arrival. Rows come out in ascending lexical order of
/// key. An empty feed gives a board without rows.
pub fn get_display_lines(
    stops: Vec<(LineStop, Vec<MonitoredVehicleJourney>)>,
    rapid_line_to_parent_map: &AliasTable,
    use_long_name: Option<bool>,
) -> (lines: DisplayLines)
    ensures
        is_display_lines(
            lines@,
            stops.deep_view(),
            rapid_line_to_parent_map@,
            use_long_name == Some(true),
        ),
{
    let mut rows = group_by_display_key(&stops, rapid_line_to_parent_map, use_long_name);
    let ghost grouped = rows.deep_view();
    sort_rows(&mut rows);
    proof {
        let feed = stops.deep_view();
        let table = rapid_line_to_parent_map@;
        let long = use_long_name == Some(true);
        lemma_sorted_groups_are_board(grouped, feed, table, long);
        lemma_display_lines_well_formed(rows.deep_view(), feed, table, long);
    }
    DisplayLines { rows }
}

} // verus!
