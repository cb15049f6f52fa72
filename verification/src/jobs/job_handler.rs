//! One refresh of the list of jobs: what to ask the accounting tool, and
//! what to make of its answer.

use crate::job_query_info::JobTime;
use crate::jobs::job_parser::all_wf;
use crate::jobs::job_parser::JobFields;
use crate::jobs::job_parser::JobFieldsView;
use crate::jobs::job_parser::JobParseError;
use crate::jobs::job_parser::JobState;
use crate::jobs::job_parser::JobStateView;
use crate::jobs::job_parser::NumberOrCol;
use crate::jobs::job_parser::NumberOrColView;
use crate::jobs::job_parser::record_views;
use crate::jobs::job_parser::records_of;
use crate::jobs::job_parser::table_of;
use crate::jobs::newest_first::is_newest_first;
use crate::jobs::newest_first::lemma_newest_first;
use crate::jobs::newest_first::newest_first;
use crate::jobs::newest_first::not_earlier;
use crate::jobs::newest_first::select_first;
use crate::jobs::newest_first::select;
use crate::jobs::newest_first::sort_newest_first;
use crate::jobs::newest_first::submitted_at;
use crate::jobs::submit_time::SubmitTime;
use crate::text::decimal;
use crate::text::find_char;
use crate::text::from_chars;
use crate::text::has_char;
use crate::text::has_prefix;
use crate::text::index_of;
use crate::text::push_decimal;
use crate::text::push_text;
use crate::text::starts_with;
use crate::text::string_of;
use crate::text::texts;
use crate::text::to_chars;
use vstd::prelude::*;

verus! {

/// Why a refresh gave no list.
#[derive(Clone, Copy, Debug, PartialEq, Eq, Structural)]
pub enum FetchError {
    /// The accounting text could not be read.
    Parse(JobParseError),
    /// Neither a job nor any of its steps tells the job's peak memory.
    NoPeakMemory,
}

/// The records that name a partition. The steps of a job name none.
pub open spec fn has_partition() -> spec_fn(JobFieldsView) -> bool {
    |job: JobFieldsView| job.partition.len() > 0
}

/// The greatest peak memory among the first `n` records of `all` whose id
/// begins with `id` and whose peak memory is a number; `None` if there is
/// no such record.
pub open spec fn peak_rss(id: Seq<char>, all: Seq<JobFieldsView>, n: int) -> Option<nat>
    decreases n,
{
    if n <= 0 {
        None
    } else {
        let before = peak_rss(id, all, n - 1);
        match all[n - 1].maxrss {
            NumberOrColView::Value(m) => if starts_with(all[n - 1].job_id, id) {
                match before {
                    Some(p) => if m > p {
                        Some(m)
                    } else {
                        Some(p)
                    },
                    None => Some(m),
                }
            } else {
                before
            },
            NumberOrColView::Col(_) => before,
        }
    }
}

/// Whether the record `job` tells a peak memory for the job `id`.
pub open spec fn tells_peak(id: Seq<char>, job: JobFieldsView) -> bool {
    job.maxrss is Value && starts_with(job.job_id, id)
}

/// `peak_rss` is a maximum: it is the peak memory of one of the records
/// that tell one, no such record tells a greater one, and it is `None`
/// only where no record tells any.
pub proof fn lemma_peak_rss(id: Seq<char>, all: Seq<JobFieldsView>, n: int)
    requires
        0 <= n <= all.len(),
    ensures
        peak_rss(id, all, n) matches Some(p) ==> (exists|i: int|
            0 <= i < n && tells_peak(id, #[trigger] all[i]) && all[i].maxrss
                == NumberOrColView::Value(p)) && forall|i: int|
            0 <= i < n && tells_peak(id, #[trigger] all[i]) ==> all[i].maxrss->Value_0 <= p,
        peak_rss(id, all, n) is None ==> forall|i: int|
            0 <= i < n ==> !tells_peak(id, #[trigger] all[i]),
    decreases n,
{
    if n > 0 {
        lemma_peak_rss(id, all, n - 1);
        if let Some(p) = peak_rss(id, all, n) {
            if tells_peak(id, all[n - 1]) && all[n - 1].maxrss == NumberOrColView::Value(p) {
            } else {
                let i = choose|i: int|
                    0 <= i < n - 1 && tells_peak(id, #[trigger] all[i]) && all[i].maxrss
                        == NumberOrColView::Value(p);
                assert(tells_peak(id, all[i]));
            }
        }
    }
}

/// The record with the peak memory of its job: the header's record as it
/// is, any other with the greatest peak memory that the records of `all`
/// whose id begins with its id tell; `None` where none tells any.
pub open spec fn with_peak(job: JobFieldsView, all: Seq<JobFieldsView>) -> Option<JobFieldsView> {
    if job.state is Header {
        Some(job)
    } else {
        match peak_rss(job.job_id, all, all.len() as int) {
            Some(p) => Some(JobFieldsView { maxrss: NumberOrColView::Value(p), ..job }),
            None => None,
        }
    }
}

/// The first `n` records of `jobs`, each with the peak memory of its job;
/// `None` where one of them has none.
pub open spec fn with_peaks(jobs: Seq<JobFieldsView>, all: Seq<JobFieldsView>, n: int) -> Option<
    Seq<JobFieldsView>,
>
    decreases n,
{
    if n <= 0 {
        Some(Seq::empty())
    } else {
        match (with_peaks(jobs, all, n - 1), with_peak(jobs[n - 1], all)) {
            (Some(before), Some(job)) => Some(before.push(job)),
            _ => None,
        }
    }
}

/// Once one of the first `n` records has no peak memory, the first `m`
/// have none either, for every `m` from `n` on.
pub proof fn lemma_with_peaks_none(
    jobs: Seq<JobFieldsView>,
    all: Seq<JobFieldsView>,
    n: int,
    m: int,
)
    requires
        n <= m,
        with_peaks(jobs, all, n) is None,
    ensures
        with_peaks(jobs, all, m) is None,
    decreases m - n,
{
    if n < m {
        lemma_with_peaks_none(jobs, all, n, m - 1);
    }
}

/// Whether a refresh keeps a record in the state `state`: with `Running`
/// one that runs, with `Finished` one that does not, with `All` every one;
/// the header's always.
pub open spec fn kept(time: JobTime, state: JobStateView) -> bool {
    match time {
        JobTime::Running => state is Running || state is Header,
        JobTime::Finished => !(state is Running) || state is Header,
        JobTime::All => true,
    }
}

/// The records that a refresh keeps.
pub open spec fn keeps(time: JobTime) -> spec_fn(JobFieldsView) -> bool {
    |job: JobFieldsView| kept(time, job.state)
}

/// The first record where it is, the others after it by submission time,
/// the newest first.
pub open spec fn header_first(jobs: Seq<JobFieldsView>) -> Seq<JobFieldsView> {
    if jobs.len() == 0 {
        jobs
    } else {
        seq![jobs[0]] + newest_first(jobs.skip(1))
    }
}

/// How many of `len` records a limit of `job_max_display` leaves: as many
/// as the limit says, but the first one always.
pub open spec fn capped_len(len: nat, job_max_display: Option<u16>) -> nat {
    match job_max_display {
        Some(n) => {
            let most = if n == 0 {
                1nat
            } else {
                n as nat
            };
            if len < most {
                len
            } else {
                most
            }
        },
        None => len,
    }
}

/// The records that a limit leaves: the first ones.
pub open spec fn capped(jobs: Seq<JobFieldsView>, job_max_display: Option<u16>) -> Seq<
    JobFieldsView,
> {
    jobs.take(capped_len(jobs.len(), job_max_display) as int)
}

/// The list that a refresh makes of the records `all` of the accounting
/// tool's answer, the header's record first among them:
/// the records that name a partition, each but the header's with the peak
/// memory of its job, of these the ones that `time` keeps, the header's
/// first and the others by submission time, the newest first, and of this
/// list as many as the limit leaves.
pub open spec fn refreshed(all: Seq<JobFieldsView>, time: JobTime, job_max_display: Option<u16>)
    -> Result<Seq<JobFieldsView>, FetchError> {
    let listed = select(all, has_partition());
    match with_peaks(listed, all, listed.len() as int) {
        None => Err(FetchError::NoPeakMemory),
        Some(jobs) => Ok(capped(header_first(select(jobs, keeps(time))), job_max_display)),
    }
}

/// The list that a refresh makes of the accounting tool's answer `text`.
pub open spec fn fetched(text: Seq<char>, time: JobTime, job_max_display: Option<u16>) -> Result<
    Seq<JobFieldsView>,
    FetchError,
> {
    match records_of(table_of(text)) {
        Err(e) => Err(FetchError::Parse(e)),
        Ok(all) => refreshed(all, time, job_max_display),
    }
}

/// Gives `job_fields` the peak memory of its job: the greatest that the
/// records of `all_job_fields` whose id begins with its id tell. Fails,
/// and leaves the record as it is, where none tells any.
pub fn update_max_rss(job_fields: &mut JobFields, all_job_fields: &Vec<JobFields>) -> (r: Result<
    (),
    FetchError,
>)
    ensures
        match peak_rss(
            old(job_fields).job_id@,
            record_views(all_job_fields@),
            all_job_fields.len() as int,
        ) {
            Some(p) => r is Ok && final(job_fields)@ == (JobFieldsView {
                maxrss: NumberOrColView::Value(p),
                ..old(job_fields)@
            }),
            None => r == Err::<(), FetchError>(FetchError::NoPeakMemory) && *final(job_fields)
                == *old(job_fields),
        },
        final(job_fields).submit == old(job_fields).submit,
{
    let ghost all = record_views(all_job_fields@);
    let id = to_chars(job_fields.job_id.as_str());
    let mut peak: Option<usize> = None;
    let mut i: usize = 0;
    while i < all_job_fields.len()
        invariant
            i <= all_job_fields.len(),
            all == record_views(all_job_fields@),
            match peak_rss(id@, all, i as int) {
                Some(p) => peak == Some(p as usize) && p <= usize::MAX,
                None => peak is None,
            },
        decreases all_job_fields.len() - i,
    {
        let f = &all_job_fields[i];
        assert(all[i as int] == f@);
        let other = to_chars(f.job_id.as_str());
        if has_prefix(&other, &id) {
            if let NumberOrCol::Value(m) = &f.maxrss {
                peak = match peak {
                    Some(p) => if *m > p {
                        Some(*m)
                    } else {
                        Some(p)
                    },
                    None => Some(*m),
                };
            }
        }
        i += 1;
    }
    match peak {
        Some(p) => {
            job_fields.maxrss = NumberOrCol::Value(p);
            Ok(())
        },
        None => Err(FetchError::NoPeakMemory),
    }
}

/// Whether a refresh with `time` keeps a record in the state `state`.
pub fn keeps_state(time: &JobTime, state: &JobState) -> (r: bool)
    ensures
        r == kept(*time, state@),
{
    match time {
        JobTime::Running => matches!(state, JobState::Running | JobState::Header),
        JobTime::Finished => !matches!(state, JobState::Running) || matches!(
            state,
            JobState::Header
        ),
        JobTime::All => true,
    }
}

/// Makes the list of a refresh from the records of the accounting tool's
/// answer.
pub fn refresh(all_job_fields: &Vec<JobFields>, time: &JobTime, job_max_display: Option<u16>) -> (r:
    Result<Vec<JobFields>, FetchError>)
    ensures
        match refreshed(record_views(all_job_fields@), *time, job_max_display) {
            Ok(jobs) => r matches Ok(list) && record_views(list@) == jobs && (all_wf(
                all_job_fields@,
            ) ==> all_wf(list@)),
            Err(e) => r == Err::<Vec<JobFields>, FetchError>(e),
        },
{
    let ghost all = record_views(all_job_fields@);
    let ghost wf = all_wf(all_job_fields@);
    // keep the records with a partition
    let mut with_partition: Vec<JobFields> = Vec::new();
    let mut i: usize = 0;
    assert(record_views(with_partition@) =~= Seq::<JobFieldsView>::empty());
    while i < all_job_fields.len()
        invariant
            i <= all_job_fields.len(),
            all == record_views(all_job_fields@),
            wf == all_wf(all_job_fields@),
            record_views(with_partition@) == select_first(all, has_partition(), i as int),
            wf ==> all_wf(with_partition@),
        decreases all_job_fields.len() - i,
    {
        let job = &all_job_fields[i];
        assert(all[i as int] == job@);
        assert(wf ==> job.wf());
        let ghost done = record_views(with_partition@);
        if !job.partition.as_str().is_empty() {
            with_partition.push(job.clone());
            assert(record_views(with_partition@) =~= done.push(job@));
        }
        i += 1;
    }
    // give each the peak memory of its job
    let ghost listed = record_views(with_partition@);
    let mut job_fields_with_partition: Vec<JobFields> = Vec::new();
    let mut i: usize = 0;
    assert(record_views(job_fields_with_partition@) =~= Seq::<JobFieldsView>::empty());
    while i < with_partition.len()
        invariant
            i <= with_partition.len(),
            all == record_views(all_job_fields@),
            listed == record_views(with_partition@),
            listed == select(all, has_partition()),
            wf ==> all_wf(with_partition@),
            with_peaks(listed, all, i as int) == Some(record_views(job_fields_with_partition@)),
            wf ==> all_wf(job_fields_with_partition@),
        decreases with_partition.len() - i,
    {
        let mut job_fields = with_partition[i].clone();
        assert(listed[i as int] == job_fields@);
        assert(wf ==> job_fields.wf());
        let ghost done = record_views(job_fields_with_partition@);
        if !matches!(job_fields.state, JobState::Header) {
            match update_max_rss(&mut job_fields, all_job_fields) {
                Ok(()) => {},
                Err(e) => {
                    proof {
                        lemma_with_peaks_none(listed, all, i + 1, listed.len() as int);
                    }
                    return Err(e);
                },
            }
        }
        job_fields_with_partition.push(job_fields);
        assert(record_views(job_fields_with_partition@) =~= done.push(job_fields@));
        i += 1;
    }
    // keep the records that the filter asks for
    let ghost peaked = record_views(job_fields_with_partition@);
    let mut kept: Vec<JobFields> = Vec::new();
    let mut i: usize = 0;
    assert(record_views(kept@) =~= Seq::<JobFieldsView>::empty());
    while i < job_fields_with_partition.len()
        invariant
            i <= job_fields_with_partition.len(),
            peaked == record_views(job_fields_with_partition@),
            wf ==> all_wf(job_fields_with_partition@),
            record_views(kept@) == select_first(peaked, keeps(*time), i as int),
            wf ==> all_wf(kept@),
        decreases job_fields_with_partition.len() - i,
    {
        let job = &job_fields_with_partition[i];
        assert(peaked[i as int] == job@);
        assert(wf ==> job.wf());
        let ghost done = record_views(kept@);
        if keeps_state(time, &job.state) {
            kept.push(job.clone());
            assert(record_views(kept@) =~= done.push(job@));
        }
        i += 1;
    }
    if kept.len() == 0 {
        assert(capped(record_views(kept@), job_max_display) =~= record_views(kept@));
        return Ok(kept);
    }
    // the newest first, behind the header
    let ghost chosen = record_views(kept@);
    let mut sorted = sort_newest_first(&kept, 1);
    let mut job_fields: Vec<JobFields> = Vec::new();
    job_fields.push(kept[0].clone());
    let ghost tail = sorted@;
    job_fields.append(&mut sorted);
    assert(record_views(job_fields@) =~= header_first(chosen)) by {
        assert(chosen[0] == kept[0]@);
        assert forall|k: int| 1 <= k < job_fields.len() implies record_views(job_fields@)[k]
            == newest_first(chosen.skip(1))[k - 1] by {
            assert(job_fields[k] == tail[k - 1]);
            assert(record_views(tail)[k - 1] == tail[k - 1]@);
        }
    }
    assert(wf ==> all_wf(job_fields@)) by {
        if wf {
            assert(kept[0].wf());
            assert forall|k: int| 0 <= k < job_fields.len() implies (#[trigger] job_fields[k]).wf() by {
                if k > 0 {
                    assert(job_fields[k] == tail[k - 1]);
                    assert(tail[k - 1].wf());
                }
            }
        }
    }
    if let Some(n) = job_max_display {
        let most: usize = if n == 0 {
            1
        } else {
            n as usize
        };
        if most < job_fields.len() {
            job_fields.truncate(most);
        }
    }
    assert(record_views(job_fields@) =~= capped(header_first(chosen), job_max_display));
    Ok(job_fields)
}

/// Makes the list of a refresh from the accounting tool's answer.
pub fn fetch_jobs(sacct_res: &str, time: &JobTime, job_max_display: Option<u16>) -> (r: Result<
    Vec<JobFields>,
    FetchError,
>)
    ensures
        match fetched(sacct_res@, *time, job_max_display) {
            Ok(jobs) => r matches Ok(list) && record_views(list@) == jobs && all_wf(list@),
            Err(e) => r == Err::<Vec<JobFields>, FetchError>(e),
        },
{
    let all_job_fields = match JobFields::from_sacct_str(sacct_res) {
        Ok(jobs) => jobs,
        Err(e) => {
            return Err(FetchError::Parse(e));
        },
    };
    refresh(&all_job_fields, time, job_max_display)
}

/// Selecting keeps the first record where the predicate holds of it.
pub proof fn lemma_select_keeps_first(
    s: Seq<JobFieldsView>,
    pred: spec_fn(JobFieldsView) -> bool,
    n: int,
)
    requires
        1 <= n <= s.len(),
        pred(s[0]),
    ensures
        select_first(s, pred, n).len() >= 1,
        select_first(s, pred, n)[0] == s[0],
    decreases n,
{
    if n > 1 {
        lemma_select_keeps_first(s, pred, n - 1);
    } else {
        assert(select_first(s, pred, 0) =~= Seq::<JobFieldsView>::empty());
    }
}

/// Ordering leaves the first record first and orders the others: the list
/// keeps its length, the records behind the first have the newest first,
/// and for each submission time they are the records submitted then, in
/// the order that they had.
pub proof fn lemma_header_first(jobs: Seq<JobFieldsView>)
    requires
        jobs.len() >= 1,
    ensures
        header_first(jobs).len() == jobs.len(),
        header_first(jobs)[0] == jobs[0],
        is_newest_first(header_first(jobs).skip(1)),
        forall|key: Option<SubmitTime>| #[trigger]
            select(header_first(jobs).skip(1), submitted_at(key)) == select(
                jobs.skip(1),
                submitted_at(key),
            ),
{
    lemma_newest_first(jobs.skip(1));
    assert(header_first(jobs).skip(1) =~= newest_first(jobs.skip(1)));
}

/// A limit keeps the first record and the newest of the others: of an
/// ordered list with at least one record, what the limit leaves begins
/// with the list's first record, holds as many records as the limit says
/// (one, where it says none) or all where they are fewer, and none of the
/// records left out is newer than any that is kept behind the first.
pub proof fn lemma_capped_keeps_newest(jobs: Seq<JobFieldsView>, n: u16)
    requires
        jobs.len() >= 1,
    ensures
        capped(header_first(jobs), Some(n)).len() == capped_len(jobs.len(), Some(n)),
        1 <= capped_len(jobs.len(), Some(n)) <= jobs.len(),
        n >= 1 && jobs.len() >= n ==> capped_len(jobs.len(), Some(n)) == n,
        capped(header_first(jobs), Some(n)) == header_first(jobs).take(
            capped_len(jobs.len(), Some(n)) as int,
        ),
        capped(header_first(jobs), Some(n))[0] == jobs[0],
        forall|i: int, j: int|
            1 <= i < capped_len(jobs.len(), Some(n)) <= j < jobs.len() ==> not_earlier(
                (#[trigger] header_first(jobs)[i]).submit,
                (#[trigger] header_first(jobs)[j]).submit,
            ),
{
    lemma_header_first(jobs);
    let list = header_first(jobs);
    assert forall|i: int, j: int|
        1 <= i < capped_len(jobs.len(), Some(n)) <= j < jobs.len() implies not_earlier(
        (#[trigger] list[i]).submit,
        (#[trigger] list[j]).submit,
    ) by {
        assert(list.skip(1)[i - 1] == list[i]);
        assert(list.skip(1)[j - 1] == list[j]);
    }
}

/// The header stays first through a refresh: where the first record of
/// the answer is the header's and names a partition, every list that a
/// refresh makes begins with it, whatever the filter and the limit.
pub proof fn lemma_refreshed_header_first(
    all: Seq<JobFieldsView>,
    time: JobTime,
    job_max_display: Option<u16>,
)
    requires
        all.len() >= 1,
        all[0].state is Header,
        all[0].partition.len() > 0,
        refreshed(all, time, job_max_display) is Ok,
    ensures
        refreshed(all, time, job_max_display)->Ok_0.len() >= 1,
        refreshed(all, time, job_max_display)->Ok_0[0] == all[0],
{
    let listed = select(all, has_partition());
    lemma_select_keeps_first(all, has_partition(), all.len() as int);
    let jobs = with_peaks(listed, all, listed.len() as int)->Some_0;
    lemma_with_peaks_first(listed, all, listed.len() as int);
    lemma_select_keeps_first(jobs, keeps(time), jobs.len() as int);
    lemma_header_first(select(jobs, keeps(time)));
}

/// The peak memories change nothing else: the records with their peak
/// memories are as many as the records, and each has the fields of its
/// record but for the peak memory.
pub proof fn lemma_with_peaks_fields(jobs: Seq<JobFieldsView>, all: Seq<JobFieldsView>, n: int)
    requires
        0 <= n <= jobs.len(),
        with_peaks(jobs, all, n) is Some,
    ensures
        with_peaks(jobs, all, n)->Some_0.len() == n,
        forall|i: int|
            0 <= i < n ==> (JobFieldsView {
                maxrss: jobs[i].maxrss,
                ..#[trigger] with_peaks(jobs, all, n)->Some_0[i]
            }) == jobs[i],
    decreases n,
{
    if n > 0 {
        lemma_with_peaks_fields(jobs, all, n - 1);
    }
}

/// A refresh lists only what it is to list: every record of the list
/// names a partition and is one that the filter keeps.
pub proof fn lemma_refreshed_members(
    all: Seq<JobFieldsView>,
    time: JobTime,
    job_max_display: Option<u16>,
)
    requires
        refreshed(all, time, job_max_display) is Ok,
    ensures
        forall|i: int|
            0 <= i < refreshed(all, time, job_max_display)->Ok_0.len() ==> kept(
                time,
                (#[trigger] refreshed(all, time, job_max_display)->Ok_0[i]).state,
            ) && refreshed(all, time, job_max_display)->Ok_0[i].partition.len() > 0,
{
    let listed = select(all, has_partition());
    let jobs = with_peaks(listed, all, listed.len() as int)->Some_0;
    let chosen = select(jobs, keeps(time));
    let ordered = header_first(chosen);
    let list = refreshed(all, time, job_max_display)->Ok_0;
    crate::jobs::newest_first::lemma_select_members(all, has_partition(), all.len() as int);
    lemma_with_peaks_fields(listed, all, listed.len() as int);
    crate::jobs::newest_first::lemma_select_members(jobs, keeps(time), jobs.len() as int);
    assert forall|k: int| 0 <= k < chosen.len() implies kept(time, (#[trigger] chosen[k]).state)
        && chosen[k].partition.len() > 0 by {
        assert(keeps(time)(chosen[k]));
        let m = choose|m: int| 0 <= m < jobs.len() && jobs[m] == chosen[k];
        assert((JobFieldsView { maxrss: listed[m].maxrss, ..jobs[m] }) == listed[m]);
        assert(has_partition()(listed[m]));
    }
    assert forall|i: int| 0 <= i < list.len() implies kept(time, (#[trigger] list[i]).state)
        && list[i].partition.len() > 0 by {
        assert(list[i] == ordered[i]);
        if i == 0 {
            assert(ordered[0] == chosen[0]);
        } else {
            let tail = chosen.skip(1);
            crate::jobs::newest_first::lemma_newest_first_members(tail);
            lemma_newest_first(tail);
            assert(ordered[i] == newest_first(tail)[i - 1]);
            assert(tail.contains(newest_first(tail)[i - 1]));
            let j = choose|j: int| 0 <= j < tail.len() && tail[j] == newest_first(tail)[i - 1];
            assert(tail[j] == chosen[j + 1]);
        }
    }
}

/// The header stays first from the accounting tool's answer to the list:
/// every list that a refresh makes of an answer begins with the record of
/// the answer's header, whatever the filter and the limit.
pub proof fn lemma_fetched_header_first(text: Seq<char>, time: JobTime, job_max_display: Option<u16>)
    requires
        fetched(text, time, job_max_display) is Ok,
    ensures
        fetched(text, time, job_max_display)->Ok_0.len() >= 1,
        fetched(text, time, job_max_display)->Ok_0[0] == records_of(table_of(text))->Ok_0[0],
        fetched(text, time, job_max_display)->Ok_0[0].state is Header,
{
    let table = table_of(text);
    crate::text::lemma_split_on(crate::text::trim_end(text, '\n'), '\n');
    crate::jobs::job_parser::lemma_records_begin_with_header(table);
    lemma_refreshed_header_first(records_of(table)->Ok_0, time, job_max_display);
}

/// The peak memories leave the header's record first.
pub proof fn lemma_with_peaks_first(jobs: Seq<JobFieldsView>, all: Seq<JobFieldsView>, n: int)
    requires
        1 <= n <= jobs.len(),
        jobs[0].state is Header,
        with_peaks(jobs, all, n) is Some,
    ensures
        with_peaks(jobs, all, n)->Some_0.len() == n,
        with_peaks(jobs, all, n)->Some_0[0] == jobs[0],
    decreases n,
{
    if n > 1 {
        lemma_with_peaks_first(jobs, all, n - 1);
    } else {
        assert(with_peaks(jobs, all, 0) == Some(Seq::<JobFieldsView>::empty()));
    }
}

/// The columns that the accounting tool is asked for.
pub const FORMAT_STR: &'static str =
    "--format=JobID,JobName,Partition,Account,AllocCPUS,State,ExitCode,SubmitLine%50,WorkDir%100,Submit%20,ReqMem,MaxRSS,ElapsedRaw,TimelimitRaw,TotalCPU";

/// The arguments with which the accounting tool tells of the jobs of the
/// last `hours_before_now` hours, a line for each and `|` between fields.
pub open spec fn sacct_arguments(hours_before_now: u16) -> Seq<Seq<char>> {
    seq![FORMAT_STR@, "-P"@, "-S"@, "now-"@ + decimal(hours_before_now as nat) + "hours"@]
}

/// The arguments with which the accounting tool tells of the jobs of the
/// last `hours_before_now` hours.
pub fn sacct_args(hours_before_now: u16) -> (r: Vec<String>)
    ensures
        texts(r@) == sacct_arguments(hours_before_now),
{
    let mut fmt_time = string_of("now-");
    push_decimal(&mut fmt_time, hours_before_now as usize);
    push_text(&mut fmt_time, "hours");
    let mut sacct_args: Vec<String> = Vec::new();
    sacct_args.push(string_of(FORMAT_STR));
    sacct_args.push(string_of("-P"));
    sacct_args.push(string_of("-S"));
    sacct_args.push(fmt_time);
    assert(texts(sacct_args@) =~= sacct_arguments(hours_before_now));
    sacct_args
}

/// The pattern that the names of a job's log files match: the id between
/// two `*`; for a range of an array's tasks, what stands before the first
/// `[`, then `_*`, in place of the id.
pub open spec fn log_pattern(job_id: Seq<char>) -> Seq<char> {
    let regex_id = if job_id.contains('[') {
        job_id.take(index_of(job_id, '[', 0)) + "_*"@
    } else {
        job_id
    };
    "*"@ + regex_id + "*"@
}

/// The arguments with which `find` lists a job's log files: those under
/// `workdir`, at most two levels down, whose names match the pattern.
pub open spec fn find_arguments(workdir: Seq<char>, job_id: Seq<char>) -> Seq<Seq<char>> {
    seq![workdir, "-maxdepth"@, "2"@, "-name"@, log_pattern(job_id)]
}

/// The arguments with which `find` lists a job's log files.
pub fn find_args(workdir: &str, job_id: &str) -> (r: Vec<String>)
    ensures
        texts(r@) == find_arguments(workdir@, job_id@),
{
    let id = to_chars(job_id);
    let mut regex = string_of("*");
    if has_char(&id, '[') {
        let bracket = find_char(&id, '[', 0);
        let base = from_chars(&id, 0, bracket);
        assert(id@.subrange(0, bracket as int) =~= id@.take(bracket as int));
        push_text(&mut regex, base.as_str());
        push_text(&mut regex, "_*");
    } else {
        push_text(&mut regex, job_id);
    }
    push_text(&mut regex, "*");
    assert(regex@ =~= log_pattern(job_id@));
    let mut find_args: Vec<String> = Vec::new();
    find_args.push(string_of(workdir));
    find_args.push(string_of("-maxdepth"));
    find_args.push(string_of("2"));
    find_args.push(string_of("-name"));
    find_args.push(regex);
    assert(texts(find_args@) =~= find_arguments(workdir@, job_id@));
    find_args
}

} // verus!
