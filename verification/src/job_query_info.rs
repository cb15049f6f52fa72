//! The list of jobs on the screen: the records of the last refresh and the
//! rows shown for them, the tasks of an array folded into one row.

use crate::app::App;
use crate::jobs::job_parser::all_wf;
use crate::jobs::job_parser::JobFields;
use crate::jobs::job_parser::JobFieldsView;
use crate::jobs::job_parser::record_views;
use crate::text::decimal;
use crate::text::find_char;
use crate::text::from_chars;
use crate::text::has_char;
use crate::text::index_of;
use crate::text::parse_usize;
use crate::text::push_decimal;
use crate::text::push_text;
use crate::text::string_of;
use crate::text::to_chars;
use crate::text::unsigned_within;
use vstd::prelude::*;

verus! {

/// Which jobs a refresh keeps.
#[derive(Clone, Copy, Debug, PartialEq, Eq, Structural)]
pub enum JobTime {
    Finished,
    Running,
    All,
}

/// The base and the index of the id of an array's task: `base_index`, the
/// index an unsigned integer of 32 bits that ends at the next `_` or at the
/// end of the id, and no `[` anywhere in the id.
pub open spec fn array_task(id: Seq<char>) -> Option<(Seq<char>, nat)> {
    if id.contains('_') && !id.contains('[') {
        let first = index_of(id, '_', 0);
        let second = index_of(id, '_', first + 1);
        match unsigned_within(id.subrange(first + 1, second), u32::MAX as nat) {
            Some(n) => Some((id.take(first), n)),
            None => None,
        }
    } else {
        None
    }
}

/// The length of the base and the index of the id of an array's task.
fn array_task_of(id: &Vec<char>) -> (r: Option<(usize, u32)>)
    ensures
        match array_task(id@) {
            Some((base, n)) => r matches Some((len, num)) && len <= id.len() && base == id@.take(
                len as int,
            ) && num == n,
            None => r is None,
        },
{
    if has_char(id, '_') && !has_char(id, '[') {
        let first = find_char(id, '_', 0);
        let second = find_char(id, '_', first + 1);
        match parse_usize(id, first + 1, second) {
            Some(n) => if n <= u32::MAX as usize {
                Some((first, n as u32))
            } else {
                None
            },
            None => None,
        }
    } else {
        None
    }
}

/// The tasks of one array that stand together in the list: the least and
/// the greatest index among them, the array's id, and the first task's
/// record.
pub struct JobArrayDisplay {
    pub min: u32,
    pub max: u32,
    pub id: String,
    pub job_field: JobFields,
}

/// What a `JobArrayDisplay` holds.
pub struct ArrayRange {
    pub min: nat,
    pub max: nat,
    pub id: Seq<char>,
    pub job_field: JobFieldsView,
}

impl View for JobArrayDisplay {
    type V = ArrayRange;

    open spec fn view(&self) -> ArrayRange {
        ArrayRange {
            min: self.min as nat,
            max: self.max as nat,
            id: self.id@,
            job_field: self.job_field@,
        }
    }
}

impl ArrayRange {
    /// The range of the one task `num` of the array `id`.
    pub open spec fn single(id: Seq<char>, num: nat, job_field: JobFieldsView) -> ArrayRange {
        ArrayRange { min: num, max: num, id, job_field }
    }

    /// The range widened to hold the task `num`.
    pub open spec fn with(self, num: nat) -> ArrayRange {
        ArrayRange {
            min: if num < self.min {
                num
            } else {
                self.min
            },
            max: if num > self.max {
                num
            } else {
                self.max
            },
            ..self
        }
    }

    /// The id of the row that stands for the range: `id[min-max]`.
    pub open spec fn name(self) -> Seq<char> {
        self.id + "["@ + decimal(self.min) + "-"@ + decimal(self.max) + "]"@
    }

    /// The row that stands for the range: the first task's record under
    /// the range's id.
    pub open spec fn record(self) -> JobFieldsView {
        JobFieldsView { job_id: self.name(), ..self.job_field }
    }
}

impl JobArrayDisplay {
    /// The range of the one task `num` of the array `id`.
    pub fn new(id: &str, num: u32, job_field: JobFields) -> (r: JobArrayDisplay)
        ensures
            r@ == ArrayRange::single(id@, num as nat, job_field@),
            r.job_field == job_field,
    {
        JobArrayDisplay { min: num, max: num, id: string_of(id), job_field }
    }

    /// Widens the range to hold the task `num`.
    pub fn update(&mut self, num: u32)
        ensures
            final(self)@ == old(self)@.with(num as nat),
            final(self).job_field == old(self).job_field,
    {
        if num > self.max {
            self.max = num;
        }
        if num < self.min {
            self.min = num
        }
    }

    /// The row that stands for the range.
    pub fn get_as_field(self) -> (r: JobFields)
        ensures
            r@ == self@.record(),
            r.submit == self.job_field.submit,
    {
        let mut name = self.id;
        push_text(&mut name, "[");
        push_decimal(&mut name, self.min as usize);
        push_text(&mut name, "-");
        push_decimal(&mut name, self.max as usize);
        push_text(&mut name, "]");
        assert(name@ =~= self@.name());
        let mut job_field = self.job_field;
        job_field.job_id = name;
        job_field
    }
}

/// The rows made so far, and the range that is still open.
pub struct Folding {
    pub shown: Seq<JobFieldsView>,
    pub pending: Option<ArrayRange>,
}

impl Folding {
    /// The rows, with the open range closed and shown.
    pub open spec fn flushed(self) -> Seq<JobFieldsView> {
        match self.pending {
            Some(range) => self.shown.push(range.record()),
            None => self.shown,
        }
    }

    /// The state after the next record. A task of the open range's array
    /// widens the range. A task of another array closes the open range and
    /// opens its own. A record that is no task closes the open range and
    /// is shown as it is.
    pub open spec fn step(self, job: JobFieldsView) -> Folding {
        match array_task(job.job_id) {
            Some((base, num)) => match self.pending {
                Some(range) => if range.id == base {
                    Folding { shown: self.shown, pending: Some(range.with(num)) }
                } else {
                    Folding {
                        shown: self.flushed(),
                        pending: Some(ArrayRange::single(base, num, job)),
                    }
                },
                None => Folding {
                    shown: self.shown,
                    pending: Some(ArrayRange::single(base, num, job)),
                },
            },
            None => Folding { shown: self.flushed().push(job), pending: None },
        }
    }
}

/// The state after the first `n` records of `jobs`.
pub open spec fn folding(jobs: Seq<JobFieldsView>, n: int) -> Folding
    decreases n,
{
    if n <= 0 {
        Folding { shown: Seq::empty(), pending: None }
    } else {
        folding(jobs, n - 1).step(jobs[n - 1])
    }
}

/// The rows shown for `jobs`: each run of tasks of one array as one row
/// under the id `base[min-max]`, every other record as it is, in order.
pub open spec fn folded(jobs: Seq<JobFieldsView>) -> Seq<JobFieldsView> {
    folding(jobs, jobs.len() as int).flushed()
}

/// Where no record is a task of an array, the rows are the records.
pub proof fn lemma_folded_without_tasks(jobs: Seq<JobFieldsView>, n: int)
    requires
        0 <= n <= jobs.len(),
        forall|i: int| 0 <= i < jobs.len() ==> array_task(#[trigger] jobs[i].job_id) is None,
    ensures
        folding(jobs, n) == (Folding { shown: jobs.take(n), pending: None }),
        n == jobs.len() ==> folded(jobs) == jobs,
    decreases n,
{
    if n > 0 {
        lemma_folded_without_tasks(jobs, n - 1);
        assert(jobs.take(n - 1).push(jobs[n - 1]) =~= jobs.take(n));
    } else {
        assert(jobs.take(0) =~= Seq::<JobFieldsView>::empty());
    }
    if n == jobs.len() {
        assert(jobs.take(n) =~= jobs);
    }
}

/// The index of the task that `job` is, where it is one.
pub open spec fn task_index(job: JobFieldsView) -> nat {
    array_task(job.job_id)->Some_0.1
}

/// The least index among the first `n` tasks of `jobs`.
pub open spec fn least_index(jobs: Seq<JobFieldsView>, n: int) -> nat
    decreases n,
{
    if n <= 1 {
        task_index(jobs[0])
    } else if task_index(jobs[n - 1]) < least_index(jobs, n - 1) {
        task_index(jobs[n - 1])
    } else {
        least_index(jobs, n - 1)
    }
}

/// The greatest index among the first `n` tasks of `jobs`.
pub open spec fn greatest_index(jobs: Seq<JobFieldsView>, n: int) -> nat
    decreases n,
{
    if n <= 1 {
        task_index(jobs[0])
    } else if task_index(jobs[n - 1]) > greatest_index(jobs, n - 1) {
        task_index(jobs[n - 1])
    } else {
        greatest_index(jobs, n - 1)
    }
}

/// Tasks of one array that stand together fold into one row: where every
/// record is a task of the array `base`, the rows are the one row of the
/// range from the least to the greatest index, with the fields of the
/// first task.
pub proof fn lemma_folded_one_array(jobs: Seq<JobFieldsView>, base: Seq<char>, n: int)
    requires
        1 <= n <= jobs.len(),
        forall|i: int|
            0 <= i < jobs.len() ==> array_task(#[trigger] jobs[i].job_id) is Some && array_task(
                jobs[i].job_id,
            )->Some_0.0 == base,
    ensures
        folding(jobs, n) == (Folding {
            shown: Seq::empty(),
            pending: Some(
                ArrayRange {
                    min: least_index(jobs, n),
                    max: greatest_index(jobs, n),
                    id: base,
                    job_field: jobs[0],
                },
            ),
        }),
        n == jobs.len() ==> folded(jobs) == seq![
            (ArrayRange {
                min: least_index(jobs, n),
                max: greatest_index(jobs, n),
                id: base,
                job_field: jobs[0],
            }).record(),
        ],
    decreases n,
{
    if n > 1 {
        lemma_folded_one_array(jobs, base, n - 1);
        assert(array_task(jobs[n - 1].job_id) is Some);
    } else {
        assert(array_task(jobs[0].job_id) is Some);
        assert(folding(jobs, 0) == (Folding { shown: Seq::empty(), pending: None }));
    }
    if n == jobs.len() {
        assert(folded(jobs) =~= seq![
            (ArrayRange {
                min: least_index(jobs, n),
                max: greatest_index(jobs, n),
                id: base,
                job_field: jobs[0],
            }).record(),
        ]);
    }
}

/// What an open range holds, if there is one.
pub open spec fn pending_view(pending: Option<JobArrayDisplay>) -> Option<ArrayRange> {
    match pending {
        Some(range) => Some(range@),
        None => None,
    }
}

/// The rows shown for `job_list`.
pub fn fold_arrays(job_list: &Vec<JobFields>) -> (job_display: Vec<JobFields>)
    ensures
        record_views(job_display@) == folded(record_views(job_list@)),
        (forall|i: int| 0 <= i < job_list.len() ==> (#[trigger] job_list[i]).wf()) ==> forall|
            i: int,
        |
            0 <= i < job_display.len() ==> (#[trigger] job_display[i]).wf(),
{
    let ghost jobs = record_views(job_list@);
    let ghost all_wf = forall|i: int| 0 <= i < job_list.len() ==> (#[trigger] job_list[i]).wf();
    let mut job_display: Vec<JobFields> = Vec::new();
    let mut opt_job_array_display: Option<JobArrayDisplay> = None;
    let mut i: usize = 0;
    assert(record_views(job_display@) =~= Seq::<JobFieldsView>::empty());
    while i < job_list.len()
        invariant
            i <= job_list.len(),
            jobs == record_views(job_list@),
            all_wf == forall|i: int| 0 <= i < job_list.len() ==> (#[trigger] job_list[i]).wf(),
            folding(jobs, i as int) == (Folding {
                shown: record_views(job_display@),
                pending: pending_view(opt_job_array_display),
            }),
            all_wf ==> forall|k: int| 0 <= k < job_display.len() ==> (#[trigger] job_display[k]).wf(),
            all_wf ==> (opt_job_array_display matches Some(range) ==> range.job_field.wf()),
        decreases job_list.len() - i,
    {
        let j = &job_list[i];
        assert(jobs[i as int] == j@);
        assert(all_wf ==> j.wf());
        let ghost shown = record_views(job_display@);
        let id = to_chars(j.job_id.as_str());
        match array_task_of(&id) {
            Some((len, array_num)) => {
                let array_jid = from_chars(&id, 0, len);
                assert(id@.subrange(0, len as int) =~= id@.take(len as int));
                let previous = opt_job_array_display;
                opt_job_array_display =
                match previous {
                    None => Some(JobArrayDisplay::new(array_jid.as_str(), array_num, j.clone())),
                    Some(mut jobarr) => {
                        if jobarr.id == array_jid {
                            jobarr.update(array_num);
                            Some(jobarr)
                        } else {
                            let row = jobarr.get_as_field();
                            job_display.push(row);
                            assert(record_views(job_display@) =~= shown.push(row@));
                            Some(JobArrayDisplay::new(array_jid.as_str(), array_num, j.clone()))
                        }
                    },
                };
            },
            None => {
                let previous = opt_job_array_display;
                opt_job_array_display = None;
                if let Some(jobarr) = previous {
                    let row = jobarr.get_as_field();
                    job_display.push(row);
                    assert(record_views(job_display@) =~= shown.push(row@));
                }
                let ghost flushed = record_views(job_display@);
                job_display.push(j.clone());
                assert(record_views(job_display@) =~= flushed.push(j@));
            },
        }
        i += 1;
    }
    let ghost shown = record_views(job_display@);
    if let Some(jobarr) = opt_job_array_display {
        let row = jobarr.get_as_field();
        job_display.push(row);
        assert(record_views(job_display@) =~= shown.push(row@));
    }
    job_display
}

/// The list of jobs on the screen and what the next refresh is to do.
pub struct JobQueryInfo {
    /// Whether the list is fetched anew at every turn.
    pub refresh: bool,
    /// The records of the last refresh.
    pub job_list: Vec<JobFields>,
    /// Which jobs a refresh keeps.
    pub time: JobTime,
    /// Whether a setting has changed since the last refresh.
    pub changed: bool,
    /// The rows shown for the records.
    pub job_display: Vec<JobFields>,
    pub folded_jobs: Vec<bool>,
    /// Whether the rows show the efficiencies.
    pub efficiency_display: bool,
}

impl JobQueryInfo {
    /// Whether the rows are those of the records, and the submission time
    /// of each record and row is well formed.
    pub open spec fn wf(self) -> bool {
        &&& all_wf(self.job_list@)
        &&& all_wf(self.job_display@)
        &&& record_views(self.job_display@) == folded(record_views(self.job_list@))
    }

    /// The list with the records `job_list`, as a session's first refresh
    /// makes it.
    pub fn from_result(job_list: Vec<JobFields>, app: &App) -> (r: Self)
        ensures
            r.job_list == job_list,
            r.refresh == app.cli.refresh,
            r.time == JobTime::All,
            !r.changed,
            !r.efficiency_display,
            r.folded_jobs@ == Seq::new(job_list.len() as nat, |i: int| false),
            record_views(r.job_display@) == folded(record_views(job_list@)),
            all_wf(job_list@) ==> r.wf(),
    {
        let folded_jobs = vec![false; job_list.len()];
        assert(folded_jobs@ =~= Seq::new(job_list.len() as nat, |i: int| false));
        let mut jqi = JobQueryInfo {
            refresh: app.cli.refresh,
            time: JobTime::All,
            job_list,
            changed: false,
            folded_jobs,
            job_display: Vec::new(),
            efficiency_display: false,
        };
        jqi.make_display();
        jqi
    }

    /// Makes the rows anew from the records.
    pub fn make_display(&mut self)
        ensures
            record_views(final(self).job_display@) == folded(record_views(old(self).job_list@)),
            all_wf(old(self).job_list@) ==> final(self).wf(),
            *final(self) == (JobQueryInfo { job_display: final(self).job_display, ..*old(self) }),
    {
        self.job_display = fold_arrays(&self.job_list);
    }

    /// The list before a session's first refresh: no records, no rows.
    pub fn default(app: &App) -> (r: Self)
        ensures
            r.wf(),
            r.refresh == app.cli.refresh,
            r.job_list@.len() == 0,
            r.job_display@.len() == 0,
            r.folded_jobs@.len() == 0,
            r.time == JobTime::All,
            !r.changed,
            !r.efficiency_display,
    {
        let r = JobQueryInfo {
            refresh: app.cli.refresh,
            job_list: Vec::new(),
            time: JobTime::All,
            changed: false,
            job_display: Vec::new(),
            folded_jobs: Vec::new(),
            efficiency_display: false,
        };
        assert(record_views(r.job_display@) =~= folded(record_views(r.job_list@)));
        r
    }
}

} // verus!
