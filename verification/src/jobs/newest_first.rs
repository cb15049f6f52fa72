//! Ordering records by submission time, newest first, and choosing among
//! them.

use crate::jobs::job_parser::JobFields;
use crate::jobs::job_parser::JobFieldsView;
use crate::jobs::job_parser::record_views;
use crate::jobs::submit_time::SubmitTime;
use vstd::prelude::*;

verus! {

/// The records among the first `n` of `s` that `pred` holds of, in order.
pub open spec fn select_first(s: Seq<JobFieldsView>, pred: spec_fn(JobFieldsView) -> bool, n: int) -> Seq<
    JobFieldsView,
>
    decreases n,
{
    if n <= 0 {
        Seq::empty()
    } else if pred(s[n - 1]) {
        select_first(s, pred, n - 1).push(s[n - 1])
    } else {
        select_first(s, pred, n - 1)
    }
}

/// The records of `s` that `pred` holds of, in order.
pub open spec fn select(s: Seq<JobFieldsView>, pred: spec_fn(JobFieldsView) -> bool) -> Seq<JobFieldsView> {
    select_first(s, pred, s.len() as int)
}

/// Selecting from the first `n` records does not look at the others.
pub proof fn lemma_select_first_take(s: Seq<JobFieldsView>, pred: spec_fn(JobFieldsView) -> bool, n: int)
    requires
        0 <= n <= s.len(),
    ensures
        select_first(s, pred, n) == select(s.take(n), pred),
    decreases n,
{
    if n > 0 {
        lemma_select_first_take(s, pred, n - 1);
        lemma_select_first_take(s.take(n), pred, n - 1);
        assert(s.take(n).take(n - 1) =~= s.take(n - 1));
    }
}

/// Selecting from two lists set end to end is selecting from each.
pub proof fn lemma_select_concat(a: Seq<JobFieldsView>, b: Seq<JobFieldsView>, pred: spec_fn(JobFieldsView) -> bool)
    ensures
        select(a + b, pred) == select(a, pred) + select(b, pred),
    decreases b.len(),
{
    if b.len() == 0 {
        assert(a + b =~= a);
        assert(select(a, pred) + select(b, pred) =~= select(a, pred));
    } else {
        let ab = a + b;
        lemma_select_concat(a, b.drop_last(), pred);
        lemma_select_first_take(ab, pred, ab.len() - 1);
        lemma_select_first_take(b, pred, b.len() - 1);
        assert(ab.take(ab.len() - 1) =~= a + b.drop_last());
        assert(b.take(b.len() - 1) =~= b.drop_last());
        assert(ab[ab.len() - 1] == b[b.len() - 1]);
        if pred(b.last()) {
            assert(select(ab, pred) =~= select(a, pred) + select(b, pred));
        }
    }
}

/// What is selected are the records that the predicate holds of: each
/// selected record is one of the list and meets the predicate, and no
/// record is selected where none meets it.
pub proof fn lemma_select_members(s: Seq<JobFieldsView>, pred: spec_fn(JobFieldsView) -> bool, n: int)
    requires
        0 <= n <= s.len(),
    ensures
        select_first(s, pred, n).len() <= n,
        forall|k: int|
            0 <= k < select_first(s, pred, n).len() ==> pred(#[trigger] select_first(s, pred, n)[k])
                && exists|i: int| 0 <= i < n && s[i] == select_first(s, pred, n)[k],
        (forall|i: int| 0 <= i < n ==> !pred(#[trigger] s[i])) ==> select_first(s, pred, n).len()
            == 0,
        (forall|i: int| 0 <= i < n ==> pred(#[trigger] s[i])) ==> select_first(s, pred, n)
            == s.take(n),
    decreases n,
{
    if n > 0 {
        lemma_select_members(s, pred, n - 1);
        let before = select_first(s, pred, n - 1);
        let now = select_first(s, pred, n);
        assert forall|k: int| 0 <= k < now.len() implies pred(#[trigger] now[k]) && exists|i: int|
            0 <= i < n && s[i] == now[k] by {
            if k < before.len() {
                let i = choose|i: int| 0 <= i < n - 1 && s[i] == before[k];
                assert(s[i] == now[k]);
            } else {
                assert(s[n - 1] == now[k]);
            }
        }
        if forall|i: int| 0 <= i < n ==> pred(#[trigger] s[i]) {
            assert(s.take(n - 1).push(s[n - 1]) =~= s.take(n));
        }
    } else {
        assert(s.take(0) =~= Seq::<JobFieldsView>::empty());
    }
}

/// Whether a record submitted at `a` may stand before one submitted at
/// `b` when the newest come first: `a` is not earlier than `b`. A record
/// without a submission time is older than every record that has one.
pub open spec fn not_earlier(a: Option<SubmitTime>, b: Option<SubmitTime>) -> bool {
    match (a, b) {
        (_, None) => true,
        (None, Some(_)) => false,
        (Some(x), Some(y)) => !x.earlier(y),
    }
}

/// Whether a record submitted at `a` may stand before one submitted at `b`.
pub fn is_not_earlier(a: &Option<SubmitTime>, b: &Option<SubmitTime>) -> (r: bool)
    ensures
        r == not_earlier(*a, *b),
{
    match (a, b) {
        (_, None) => true,
        (None, Some(_)) => false,
        (Some(x), Some(y)) => !x.is_earlier(y),
    }
}

/// `not_earlier` orders the submission times: any two can be compared,
/// what follows from two steps follows in one, and two times that may each
/// stand before the other are the same.
pub proof fn lemma_not_earlier_orders(
    a: Option<SubmitTime>,
    b: Option<SubmitTime>,
    c: Option<SubmitTime>,
)
    ensures
        not_earlier(a, b) || not_earlier(b, a),
        not_earlier(a, b) && not_earlier(b, c) ==> not_earlier(a, c),
        not_earlier(a, b) && not_earlier(b, a) ==> a == b,
{
}

/// Whether the newest records of `s` come first.
pub open spec fn is_newest_first(s: Seq<JobFieldsView>) -> bool {
    forall|i: int, j: int|
        0 <= i < j < s.len() ==> not_earlier((#[trigger] s[i]).submit, (#[trigger] s[j]).submit)
}

/// The first place at or after `i` whose record was submitted earlier than
/// `key`, or the length of `s` if there is none.
pub open spec fn insertion_point(s: Seq<JobFieldsView>, key: Option<SubmitTime>, i: int) -> int
    decreases s.len() - i,
{
    if 0 <= i < s.len() && not_earlier(s[i].submit, key) {
        insertion_point(s, key, i + 1)
    } else {
        i
    }
}

/// The records of `s` ordered by submission time, the newest first;
/// records submitted at the same time keep the order that they have in `s`.
pub open spec fn newest_first(s: Seq<JobFieldsView>) -> Seq<JobFieldsView>
    decreases s.len(),
{
    if s.len() == 0 {
        s
    } else {
        let sorted = newest_first(s.drop_last());
        sorted.insert(insertion_point(sorted, s.last().submit, 0), s.last())
    }
}

/// The records submitted at `key`.
pub open spec fn submitted_at(key: Option<SubmitTime>) -> spec_fn(JobFieldsView) -> bool {
    |job: JobFieldsView| job.submit == key
}

/// Where `insertion_point` stops: no record before it was submitted
/// earlier than `key`, and the record at it was.
pub proof fn lemma_insertion_point(s: Seq<JobFieldsView>, key: Option<SubmitTime>, i: int)
    requires
        0 <= i <= s.len(),
    ensures
        i <= insertion_point(s, key, i) <= s.len(),
        forall|k: int| i <= k < insertion_point(s, key, i) ==> not_earlier((#[trigger] s[k]).submit, key),
        insertion_point(s, key, i) < s.len() ==> !not_earlier(
            s[insertion_point(s, key, i)].submit,
            key,
        ),
    decreases s.len() - i,
{
    if i < s.len() && not_earlier(s[i].submit, key) {
        lemma_insertion_point(s, key, i + 1);
    }
}

/// `newest_first` orders the records and loses none: the result has the
/// newest first, and for each submission time it holds the records
/// submitted then, the same ones in the same order as the list.
pub proof fn lemma_newest_first(s: Seq<JobFieldsView>)
    ensures
        newest_first(s).len() == s.len(),
        is_newest_first(newest_first(s)),
        forall|key: Option<SubmitTime>| #[trigger]
            select(newest_first(s), submitted_at(key)) == select(s, submitted_at(key)),
    decreases s.len(),
{
    if s.len() == 0 {
    } else {
        let rest = s.drop_last();
        let job = s.last();
        let sorted = newest_first(rest);
        let p = insertion_point(sorted, job.submit, 0);
        let now = newest_first(s);
        lemma_newest_first(rest);
        lemma_insertion_point(sorted, job.submit, 0);
        assert forall|i: int, j: int| 0 <= i < j < now.len() implies not_earlier(
            (#[trigger] now[i]).submit,
            (#[trigger] now[j]).submit,
        ) by {
            if j < p {
                assert(now[i] == sorted[i] && now[j] == sorted[j]);
            } else if j == p {
                assert(now[i] == sorted[i]);
            } else if i < p {
                assert(now[i] == sorted[i] && now[j] == sorted[j - 1]);
            } else if i == p {
                assert(now[j] == sorted[j - 1]);
                if p < j - 1 {
                    assert(not_earlier(sorted[p].submit, sorted[j - 1].submit));
                }
                lemma_not_earlier_orders(sorted[p].submit, job.submit, sorted[j - 1].submit);
                lemma_not_earlier_orders(job.submit, sorted[p].submit, sorted[j - 1].submit);
            } else {
                assert(now[i] == sorted[i - 1] && now[j] == sorted[j - 1]);
            }
        }
        assert forall|key: Option<SubmitTime>| #[trigger]
            select(now, submitted_at(key)) == select(s, submitted_at(key)) by {
            let pred = submitted_at(key);
            let head = sorted.take(p);
            let tail = sorted.skip(p);
            assert(now =~= head + seq![job] + tail);
            assert(sorted =~= head + tail);
            lemma_select_concat(head + seq![job], tail, pred);
            lemma_select_concat(head, seq![job], pred);
            lemma_select_concat(head, tail, pred);
            lemma_select_first_take(s, pred, s.len() - 1);
            assert(s.take(s.len() - 1) =~= rest);
            assert(select(sorted, pred) == select(rest, pred));
            assert(select(seq![job], pred) =~= if pred(job) {
                seq![job]
            } else {
                Seq::empty()
            }) by {
                assert(select_first(seq![job], pred, 0) =~= Seq::empty());
            }
            if pred(job) {
                assert forall|k: int| 0 <= k < tail.len() implies !pred(#[trigger] tail[k]) by {
                    assert(tail[k] == sorted[p + k]);
                    if k > 0 {
                        assert(not_earlier(sorted[p].submit, sorted[p + k].submit));
                    }
                    lemma_not_earlier_orders(sorted[p].submit, sorted[p + k].submit, job.submit);
                }
                lemma_select_members(tail, pred, tail.len() as int);
                assert(select(tail, pred) =~= Seq::empty());
                assert(select(now, pred) =~= select(head, pred).push(job));
                assert(select(sorted, pred) =~= select(head, pred));
                assert(select(s, pred) =~= select(rest, pred).push(job));
            } else {
                assert(select(now, pred) =~= select(head, pred) + select(tail, pred));
            }
        }
    }
}

/// Ordering yields no record that the list does not hold.
pub proof fn lemma_newest_first_members(s: Seq<JobFieldsView>)
    ensures
        forall|i: int| 0 <= i < newest_first(s).len() ==> s.contains(#[trigger] newest_first(s)[i]),
    decreases s.len(),
{
    if s.len() > 0 {
        let rest = s.drop_last();
        let sorted = newest_first(rest);
        let p = insertion_point(sorted, s.last().submit, 0);
        let now = newest_first(s);
        lemma_newest_first_members(rest);
        lemma_newest_first(rest);
        lemma_insertion_point(sorted, s.last().submit, 0);
        assert forall|i: int| 0 <= i < now.len() implies s.contains(#[trigger] now[i]) by {
            if i == p {
                assert(now[i] == s[s.len() - 1]);
            } else {
                let k = if i < p {
                    i
                } else {
                    i - 1
                };
                assert(now[i] == sorted[k]);
                assert(rest.contains(sorted[k]));
                let j = choose|j: int| 0 <= j < rest.len() && rest[j] == sorted[k];
                assert(s[j] == sorted[k]);
            }
        }
    }
}

/// The records of `all` at the places `places`.
pub open spec fn records_at(all: Seq<JobFieldsView>, places: Seq<usize>) -> Seq<JobFieldsView> {
    Seq::new(places.len(), |k: int| all[places[k] as int])
}

/// Orders the records of `jobs` from place `from` on by submission time,
/// the newest first; records submitted at the same time keep their order.
pub fn sort_newest_first(jobs: &Vec<JobFields>, from: usize) -> (r: Vec<JobFields>)
    requires
        from <= jobs.len(),
    ensures
        record_views(r@) == newest_first(record_views(jobs@).skip(from as int)),
        r.len() == jobs.len() - from,
        is_newest_first(record_views(r@)),
        forall|key: Option<SubmitTime>| #[trigger]
            select(record_views(r@), submitted_at(key)) == select(
                record_views(jobs@).skip(from as int),
                submitted_at(key),
            ),
        (forall|i: int| from <= i < jobs.len() ==> (#[trigger] jobs[i]).wf()) ==> forall|i: int|
            0 <= i < r.len() ==> (#[trigger] r[i]).wf(),
{
    let ghost all = record_views(jobs@);
    let ghost input = all.skip(from as int);
    // the places of the records, in the order that the records are to have
    let mut places: Vec<usize> = Vec::new();
    let mut i: usize = from;
    assert(input.take(0) =~= Seq::<JobFieldsView>::empty());
    assert(records_at(all, places@) =~= Seq::<JobFieldsView>::empty());
    while i < jobs.len()
        invariant
            from <= i <= jobs.len(),
            all == record_views(jobs@),
            input == all.skip(from as int),
            records_at(all, places@) == newest_first(input.take(i - from)),
            places.len() == i - from,
            forall|k: int| 0 <= k < places.len() ==> from <= #[trigger] places[k] < jobs.len(),
        decreases jobs.len() - i,
    {
        let job = &jobs[i];
        let ghost sorted = records_at(all, places@);
        let mut p: usize = 0;
        while p < places.len() && is_not_earlier(&jobs[places[p]].submit, &job.submit)
            invariant
                p <= places.len(),
                all == record_views(jobs@),
                sorted == records_at(all, places@),
                forall|k: int| 0 <= k < places.len() ==> from <= #[trigger] places[k] < jobs.len(),
                insertion_point(sorted, job.submit, 0) == insertion_point(
                    sorted,
                    job.submit,
                    p as int,
                ),
            decreases places.len() - p,
        {
            assert(sorted[p as int] == jobs[places[p as int] as int]@);
            p += 1;
        }
        proof {
            let upto = input.take(i + 1 - from);
            assert(upto.drop_last() =~= input.take(i - from));
            assert(upto.last() == job@);
            if p < places.len() {
                assert(sorted[p as int] == jobs[places[p as int] as int]@);
            }
        }
        places.insert(p, i);
        assert(records_at(all, places@) =~= sorted.insert(p as int, job@));
        i += 1;
    }
    proof {
        assert(input.take(jobs.len() - from) =~= input);
        lemma_newest_first(input);
    }
    let mut r: Vec<JobFields> = Vec::new();
    let mut k: usize = 0;
    while k < places.len()
        invariant
            k <= places.len(),
            all == record_views(jobs@),
            r.len() == k,
            forall|m: int| 0 <= m < places.len() ==> from <= #[trigger] places[m] < jobs.len(),
            forall|m: int| 0 <= m < k ==> #[trigger] r[m] == jobs[places[m] as int],
        decreases places.len() - k,
    {
        r.push(jobs[places[k]].clone());
        k += 1;
    }
    assert(record_views(r@) =~= records_at(all, places@));
    r
}

} // verus!
