//! Ordering of the arrivals of one line: soonest first, records without a
//! prediction last, and records that tie in the order in which they came.

use crate::stop_monitor::{ArrivalRecord, MonitoredVehicleJourney};
use vstd::prelude::*;

verus! {

/// The number by which a record is ordered: its minutes to arrival, or, for a
/// record without a prediction, a number above every possible prediction.
pub open spec fn arrival_rank(r: ArrivalRecord) -> int {
    match r.time_to_arrival {
        Some(t) => t as int,
        None => u64::MAX as int + 1,
    }
}

/// No record stands before one that arrives sooner.
pub open spec fn in_arrival_order(s: Seq<ArrivalRecord>) -> bool {
    forall|i: int, j: int| 0 <= i < j < s.len() ==> arrival_rank(s[i]) <= arrival_rank(s[j])
}

/// Where `x` goes into `s`: behind the last record that does not arrive later.
pub open spec fn insert_position(s: Seq<ArrivalRecord>, x: ArrivalRecord) -> int
    decreases s.len(),
{
    if s.len() == 0 {
        0
    } else if arrival_rank(s.last()) <= arrival_rank(x) {
        s.len() as int
    } else {
        insert_position(s.drop_last(), x)
    }
}

/// `s` with `x` put in behind the last record that does not arrive later.
pub open spec fn insert_by_arrival(s: Seq<ArrivalRecord>, x: ArrivalRecord) -> Seq<ArrivalRecord> {
    s.insert(insert_position(s, x), x)
}

/// The records of `s` in arrival order, ties in their order in `s`.
pub open spec fn sort_by_arrival(s: Seq<ArrivalRecord>) -> Seq<ArrivalRecord>
    decreases s.len(),
{
    if s.len() == 0 {
        s
    } else {
        insert_by_arrival(sort_by_arrival(s.drop_last()), s.last())
    }
}

/// The insert position lies within the sequence, everything from it on
/// arrives strictly later than `x`, and, in an ordered sequence, nothing
/// before it does.
pub proof fn lemma_insert_position(s: Seq<ArrivalRecord>, x: ArrivalRecord)
    ensures
        0 <= insert_position(s, x) <= s.len(),
        forall|j: int|
            insert_position(s, x) <= j < s.len() ==> arrival_rank(x) < arrival_rank(#[trigger] s[j]),
        in_arrival_order(s) ==> forall|j: int|
            0 <= j < insert_position(s, x) ==> arrival_rank(#[trigger] s[j]) <= arrival_rank(x),
    decreases s.len(),
{
    if s.len() > 0 {
        if arrival_rank(s.last()) <= arrival_rank(x) {
        } else {
            let t = s.drop_last();
            lemma_insert_position(t, x);
            assert forall|j: int| insert_position(s, x) <= j < s.len() implies arrival_rank(x)
                < arrival_rank(#[trigger] s[j]) by {
                if j < t.len() {
                    assert(s[j] == t[j]);
                }
            }
            if in_arrival_order(s) {
                assert forall|i: int, j: int| 0 <= i < j < t.len() implies arrival_rank(t[i])
                    <= arrival_rank(t[j]) by {
                    assert(t[i] == s[i] && t[j] == s[j]);
                }
                assert forall|j: int| 0 <= j < insert_position(s, x) implies arrival_rank(
                    #[trigger] s[j],
                ) <= arrival_rank(x) by {
                    assert(s[j] == t[j]);
                }
            }
        }
    }
}

/// Sorting keeps the number of records.
pub proof fn lemma_sort_len(s: Seq<ArrivalRecord>)
    ensures
        sort_by_arrival(s).len() == s.len(),
    decreases s.len(),
{
    if s.len() > 0 {
        lemma_sort_len(s.drop_last());
        lemma_insert_position(sort_by_arrival(s.drop_last()), s.last());
    }
}

/// The sorted records are in arrival order: minutes never decrease along
/// them, and records without a prediction come last.
pub proof fn lemma_sort_in_order(s: Seq<ArrivalRecord>)
    ensures
        in_arrival_order(sort_by_arrival(s)),
    decreases s.len(),
{
    if s.len() > 0 {
        let t = sort_by_arrival(s.drop_last());
        let x = s.last();
        let p = insert_position(t, x);
        lemma_sort_in_order(s.drop_last());
        lemma_insert_position(t, x);
        let out = t.insert(p, x);
        assert forall|i: int, j: int| 0 <= i < j < out.len() implies arrival_rank(out[i])
            <= arrival_rank(out[j]) by {
            if j < p {
                assert(out[i] == t[i] && out[j] == t[j]);
            } else if j == p {
                assert(out[i] == t[i]);
            } else if i < p {
                assert(out[i] == t[i] && out[j] == t[j - 1]);
            } else if i == p {
                assert(out[j] == t[j - 1]);
            } else {
                assert(out[i] == t[i - 1] && out[j] == t[j - 1]);
            }
        }
    }
}

/// Sorting neither drops nor invents a record, and keeps records of one rank
/// in the order in which they came: for every rank, the records of that rank
/// are the same sequence before and after.
pub proof fn lemma_sort_stable(s: Seq<ArrivalRecord>, rank: int)
    ensures
        sort_by_arrival(s).filter(|r: ArrivalRecord| arrival_rank(r) == rank) == s.filter(
            |r: ArrivalRecord| arrival_rank(r) == rank,
        ),
    decreases s.len(),
{
    let pred = |r: ArrivalRecord| arrival_rank(r) == rank;
    if s.len() == 0 {
    } else {
        let t = sort_by_arrival(s.drop_last());
        let x = s.last();
        let p = insert_position(t, x);
        lemma_sort_stable(s.drop_last(), rank);
        lemma_insert_position(t, x);
        let head = t.take(p);
        let tail = t.skip(p);
        assert(t =~= head + tail);
        assert(t.insert(p, x) =~= head.push(x) + tail);
        Seq::filter_distributes_over_add(head, tail, pred);
        Seq::filter_distributes_over_add(head.push(x), tail, pred);
        head.lemma_filter_push(x, pred);
        s.drop_last().lemma_filter_push(x, pred);
        assert(s.drop_last().push(x) =~= s);
        if pred(x) {
            assert forall|j: int| 0 <= j < tail.len() implies !pred(#[trigger] tail[j]) by {
                assert(tail[j] == t[p + j]);
            }
            tail.lemma_all_neg_filter_empty(pred);
            assert(head.filter(pred).push(x) + tail.filter(pred) =~= (head.filter(pred)
                + tail.filter(pred)).push(x));
        }
    }
}

/// Whether `a` arrives strictly later than `b`, a record without a prediction
/// counting as later than any with one.
pub fn arrives_later(a: &MonitoredVehicleJourney, b: &MonitoredVehicleJourney) -> (r: bool)
    ensures
        r == (arrival_rank(a@) > arrival_rank(b@)),
{
    match (a.time_to_arrival, b.time_to_arrival) {
        (Some(x), Some(y)) => x > y,
        (Some(_), None) => false,
        (None, Some(_)) => true,
        (None, None) => false,
    }
}

/// Sorts the records of one line by minutes to arrival, ascending. Records
/// without a prediction go last; records that tie keep their order.
pub fn sort_by_arrival_time(records: &mut Vec<MonitoredVehicleJourney>)
    ensures
        final(records).deep_view() == sort_by_arrival(old(records).deep_view()),
{
    let n = records.len();
    let ghost before = records.deep_view();
    let mut i: usize = 0;
    proof {
        assert(records.deep_view().take(0) =~= sort_by_arrival(before.take(0)));
        assert(records.deep_view().skip(0) =~= before.skip(0));
    }
    while i < n
        invariant
            i <= n,
            n == records.len(),
            n == before.len(),
            records.deep_view().take(i as int) == sort_by_arrival(before.take(i as int)),
            records.deep_view().skip(i as int) == before.skip(i as int),
        decreases n - i,
    {
        let ghost cur = records.deep_view();
        let ghost done = cur.take(i as int);
        let x = records.remove(i);
        assert(x@ == before[i as int]) by {
            assert(cur.skip(i as int)[0] == before.skip(i as int)[0]);
        }
        let ghost mid = records.deep_view();
        assert(mid =~= done + before.skip(i as int + 1)) by {
            assert forall|j: int| 0 <= j < mid.len() implies mid[j] == (done + before.skip(
                i as int + 1,
            ))[j] by {
                if j >= i {
                    assert(cur.skip(i as int)[j - i + 1] == before.skip(i as int)[j - i + 1]);
                }
            }
        }
        let mut p: usize = i;
        proof {
            assert(mid.take(i as int) =~= done);
            assert(done.take(i as int) =~= done);
        }
        while p > 0 && arrives_later(&records[p - 1], &x)
            invariant
                p <= i,
                i < n,
                records.len() == n - 1,
                records.deep_view() == mid,
                mid.take(i as int) == done,
                insert_position(done, x@) == insert_position(done.take(p as int), x@),
            decreases p,
        {
            proof {
                let pre = done.take(p as int);
                assert(pre.last() == mid[p - 1]);
                assert(pre.drop_last() =~= done.take(p - 1));
            }
            p = p - 1;
        }
        proof {
            assert(mid.take(i as int) =~= done);
            let pre = done.take(p as int);
            if p > 0 {
                assert(pre.last() == mid[p - 1]);
            }
            assert(insert_position(done, x@) == p);
        }
        records.insert(p, x);
        proof {
            let now = records.deep_view();
            let grown = before.take(i as int + 1);
            assert(grown.drop_last() =~= before.take(i as int));
            assert(grown.last() == x@);
            assert(now =~= mid.insert(p as int, x@));
            assert(now.take(i as int + 1) =~= done.insert(p as int, x@));
            assert(now.skip(i as int + 1) =~= before.skip(i as int + 1));
        }
        i = i + 1;
    }
    proof {
        assert(records.deep_view().take(n as int) =~= records.deep_view());
        assert(before.take(n as int) =~= before);
    }
}

} // verus!
