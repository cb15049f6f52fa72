//! Job records and the reading of accounting text into them.

use crate::jobs::submit_time::clock_seconds_of;
use crate::jobs::submit_time::datetime_of;
use crate::jobs::submit_time::datetime_text;
use crate::jobs::submit_time::format_datetime;
use crate::jobs::submit_time::parse_clock_seconds;
use crate::jobs::submit_time::parse_datetime;
use crate::jobs::submit_time::SubmitTime;
use crate::text::blanks;
use crate::text::decimal;
use crate::text::find_char;
use crate::text::first_word_bounds;
use crate::text::first_word;
use crate::text::from_chars;
use crate::text::has_char;
use crate::text::index_of;
use crate::text::join_with;
use crate::text::parse_usize;
use crate::text::push_decimal;
use crate::text::push_text;
use crate::text::same_chars;
use crate::text::split_on;
use crate::text::split;
use crate::text::string_of;
use crate::text::texts;
use crate::text::to_chars;
use crate::text::trim_end_len;
use crate::text::trim_end;
use crate::text::unsigned_within;
use crate::text::views;
use vstd::prelude::*;

verus! {

/// The unit that a quantity of memory is written in.
#[derive(Clone, Copy, Debug, PartialEq, Eq, Structural)]
pub enum Unit {
    Gigabytes,
    Kilobytes,
}

impl Unit {
    /// How many kilobytes one of this unit holds.
    pub open spec fn factor(self) -> nat {
        match self {
            Unit::Kilobytes => 1,
            Unit::Gigabytes => 0x10_0000,
        }
    }

    /// `number` of this unit, in kilobytes.
    pub fn get_result_kilobytes(&self, number: usize) -> (r: usize)
        requires
            self.factor() * number <= usize::MAX,
        ensures
            r == self.factor() * number,
    {
        let multiplicator: usize = match self {
            Unit::Kilobytes => 1,
            Unit::Gigabytes => 0x10_0000,
        };
        multiplicator * number
    }

    /// `number` of this unit, in kilobytes, where that fits a `usize`.
    pub fn checked_kilobytes(&self, number: usize) -> (r: Option<usize>)
        ensures
            r == if self.factor() * number <= usize::MAX {
                Some((self.factor() * number) as usize)
            } else {
                None::<usize>
            },
    {
        let multiplicator: usize = match self {
            Unit::Kilobytes => 1,
            Unit::Gigabytes => 0x10_0000,
        };
        multiplicator.checked_mul(number)
    }
}

/// A number, or the text of a column that holds none.
#[derive(Debug, PartialEq, Eq)]
pub enum NumberOrCol {
    Value(usize),
    Col(String),
}

/// What a `NumberOrCol` holds.
pub enum NumberOrColView {
    Value(nat),
    Col(Seq<char>),
}

impl View for NumberOrCol {
    type V = NumberOrColView;

    open spec fn view(&self) -> NumberOrColView {
        match self {
            NumberOrCol::Value(n) => NumberOrColView::Value(*n as nat),
            NumberOrCol::Col(s) => NumberOrColView::Col(s@),
        }
    }
}

impl Clone for NumberOrCol {
    fn clone(&self) -> (r: Self)
        ensures
            r == *self,
    {
        match self {
            NumberOrCol::Value(n) => NumberOrCol::Value(*n),
            NumberOrCol::Col(s) => NumberOrCol::Col(s.clone()),
        }
    }
}

/// The unit that the suffix `c` names.
pub open spec fn unit_of(c: char) -> Option<Unit> {
    if c == 'K' {
        Some(Unit::Kilobytes)
    } else if c == 'G' {
        Some(Unit::Gigabytes)
    } else {
        None
    }
}

/// What a column's text stands for, with `max` the largest number that can
/// be held.
///
/// The empty text is 0. An unsigned integer is that many kilobytes. An
/// unsigned integer followed by `K` or `G` is that many of the unit, in
/// kilobytes. Any other text, and any number above `max`, is kept as text.
pub open spec fn number_or_col(s: Seq<char>, max: nat) -> NumberOrColView {
    if s.len() == 0 {
        NumberOrColView::Value(0)
    } else if let Some(n) = unsigned_within(s, max) {
        NumberOrColView::Value(n)
    } else if let Some(unit) = unit_of(s.last()) {
        match unsigned_within(s.drop_last(), max) {
            Some(n) => if unit.factor() * n <= max {
                NumberOrColView::Value(unit.factor() * n)
            } else {
                NumberOrColView::Col(s)
            },
            None => NumberOrColView::Col(s),
        }
    } else {
        NumberOrColView::Col(s)
    }
}

impl NumberOrCol {
    /// The number in base ten, or the text.
    pub open spec fn spec_as_string(self) -> Seq<char> {
        match self {
            NumberOrCol::Value(n) => decimal(n as nat),
            NumberOrCol::Col(s) => s@,
        }
    }

    /// The number in base ten, or the text.
    pub fn as_string(&self) -> (r: String)
        ensures
            r@ == self.spec_as_string(),
    {
        match self {
            NumberOrCol::Value(n) => {
                let mut s = String::new();
                push_decimal(&mut s, *n);
                assert(s@ =~= decimal(*n as nat));
                s
            },
            NumberOrCol::Col(s) => s.clone(),
        }
    }

    /// The number, if this is one.
    pub fn take(self) -> (r: Option<usize>)
        ensures
            r == match self {
                NumberOrCol::Value(n) => Some(n),
                NumberOrCol::Col(_) => None,
            },
    {
        match self {
            NumberOrCol::Value(t) => Some(t),
            NumberOrCol::Col(_) => None,
        }
    }

    /// Reads a column's text.
    pub fn from_str(s: &str) -> (r: NumberOrCol)
        ensures
            r@ == number_or_col(s@, usize::MAX as nat),
    {
        let v = to_chars(s);
        NumberOrCol::from_chars(&v)
    }

    /// Reads a column's text.
    pub fn from_chars(v: &Vec<char>) -> (r: NumberOrCol)
        ensures
            r@ == number_or_col(v@, usize::MAX as nat),
    {
        let len = v.len();
        if len == 0 {
            return NumberOrCol::Value(0);
        }
        proof {
            assert(v@.subrange(0, len as int) =~= v@);
            assert(v@.subrange(0, len - 1) =~= v@.drop_last());
        }
        if let Some(n) = parse_usize(v, 0, len) {
            return NumberOrCol::Value(Unit::Kilobytes.get_result_kilobytes(n));
        }
        let last = v[len - 1];
        let unit = if last == 'K' {
            Unit::Kilobytes
        } else if last == 'G' {
            Unit::Gigabytes
        } else {
            return NumberOrCol::Col(from_chars(v, 0, len));
        };
        match parse_usize(v, 0, len - 1) {
            Some(n) => match unit.checked_kilobytes(n) {
                Some(k) => NumberOrCol::Value(k),
                None => NumberOrCol::Col(from_chars(v, 0, len)),
            },
            None => NumberOrCol::Col(from_chars(v, 0, len)),
        }
    }
}

/// What the scheduler says became of a job.
#[derive(Debug, PartialEq, Eq)]
pub enum JobState {
    Running,
    Completed,
    Cancelled(String),
    Pending,
    Failed,
    Header,
    Unknown(String),
}

/// What a `JobState` holds.
pub enum JobStateView {
    Running,
    Completed,
    Cancelled(Seq<char>),
    Pending,
    Failed,
    Header,
    Unknown(Seq<char>),
}

impl View for JobState {
    type V = JobStateView;

    open spec fn view(&self) -> JobStateView {
        match self {
            JobState::Running => JobStateView::Running,
            JobState::Completed => JobStateView::Completed,
            JobState::Cancelled(s) => JobStateView::Cancelled(s@),
            JobState::Pending => JobStateView::Pending,
            JobState::Failed => JobStateView::Failed,
            JobState::Header => JobStateView::Header,
            JobState::Unknown(s) => JobStateView::Unknown(s@),
        }
    }
}

impl Clone for JobState {
    fn clone(&self) -> (r: Self)
        ensures
            r == *self,
    {
        match self {
            JobState::Running => JobState::Running,
            JobState::Completed => JobState::Completed,
            JobState::Cancelled(s) => JobState::Cancelled(s.clone()),
            JobState::Pending => JobState::Pending,
            JobState::Failed => JobState::Failed,
            JobState::Header => JobState::Header,
            JobState::Unknown(s) => JobState::Unknown(s.clone()),
        }
    }
}

/// The state that a status text stands for. Only its first word counts:
/// what follows it, such as the reason of a cancellation, is kept but not
/// read. A text that names no known state is `Unknown`.
pub open spec fn job_state(s: Seq<char>) -> JobStateView {
    let word = first_word(s);
    if word == "COMPLETED"@ {
        JobStateView::Completed
    } else if word == "OUT_OF_MEMORY"@ || word == "CANCELLED"@ || word == "TIMEOUT"@ || word
        == "DEADLINE"@ {
        JobStateView::Cancelled(s)
    } else if word == "PENDING"@ {
        JobStateView::Pending
    } else if word == "RUNNING"@ {
        JobStateView::Running
    } else if word == "FAILED"@ {
        JobStateView::Failed
    } else if word == "State"@ {
        JobStateView::Header
    } else {
        JobStateView::Unknown(s)
    }
}

/// Whether `v[from..to]` holds exactly the characters of `word`.
fn is_word(v: &Vec<char>, from: usize, to: usize, word: &str) -> (r: bool)
    requires
        from <= to <= v.len(),
    ensures
        r == (v@.subrange(from as int, to as int) == word@),
{
    let w = to_chars(word);
    same_chars(v, from, to, &w)
}

impl JobState {
    /// Reads a status text.
    pub fn from_str(s: &str) -> (r: JobState)
        ensures
            r@ == job_state(s@),
    {
        let v = to_chars(s);
        JobState::from_chars(&v)
    }

    /// Reads a status text.
    pub fn from_chars(v: &Vec<char>) -> (r: JobState)
        ensures
            r@ == job_state(v@),
    {
        let (from, to) = first_word_bounds(v);
        proof {
            assert(v@.subrange(0, v.len() as int) =~= v@);
        }
        if is_word(v, from, to, "COMPLETED") {
            JobState::Completed
        } else if is_word(v, from, to, "OUT_OF_MEMORY") || is_word(v, from, to, "CANCELLED")
            || is_word(v, from, to, "TIMEOUT") || is_word(v, from, to, "DEADLINE") {
            JobState::Cancelled(from_chars(v, 0, v.len()))
        } else if is_word(v, from, to, "PENDING") {
            JobState::Pending
        } else if is_word(v, from, to, "RUNNING") {
            JobState::Running
        } else if is_word(v, from, to, "FAILED") {
            JobState::Failed
        } else if is_word(v, from, to, "State") {
            JobState::Header
        } else {
            JobState::Unknown(from_chars(v, 0, v.len()))
        }
    }

    /// The state as the screen shows it.
    pub open spec fn spec_to_string(self) -> Seq<char> {
        match self {
            JobState::Completed => "COMPLETED"@,
            JobState::Running => "RUNNING"@,
            JobState::Failed => "FAILED"@,
            JobState::Pending => "PENDING"@,
            JobState::Header => "State"@,
            JobState::Cancelled(s) => "CANCELLED"@ + "("@ + s@ + ")"@,
            JobState::Unknown(s) => "Unknown("@ + s@ + ")"@,
        }
    }

    /// The state as the screen shows it.
    pub fn to_string(&self) -> (r: String)
        ensures
            r@ == self.spec_to_string(),
    {
        let mut r = String::new();
        match self {
            JobState::Completed => push_text(&mut r, "COMPLETED"),
            JobState::Running => push_text(&mut r, "RUNNING"),
            JobState::Failed => push_text(&mut r, "FAILED"),
            JobState::Pending => push_text(&mut r, "PENDING"),
            JobState::Header => push_text(&mut r, "State"),
            JobState::Cancelled(s) => {
                push_text(&mut r, "CANCELLED");
                push_text(&mut r, "(");
                push_text(&mut r, s.as_str());
                push_text(&mut r, ")");
            },
            JobState::Unknown(s) => {
                push_text(&mut r, "Unknown(");
                push_text(&mut r, s.as_str());
                push_text(&mut r, ")");
            },
        }
        assert(r@ =~= self.spec_to_string());
        r
    }
}

/// Why accounting text could not be read.
#[derive(Clone, Copy, Debug, PartialEq, Eq, Structural)]
pub enum JobParseError {
    /// A line does not hold one field for each column.
    ColumnCountMismatch,
    /// The header names a column that no field of a record stands for.
    UnknownColumn,
    /// The header lacks one of the record's columns.
    MissingColumn,
    /// A submission time is not in the form `%Y-%m-%dT%H:%M:%S`.
    UnparseableTimestamp,
    /// A total CPU time is not in the form `%H:%M:%S` or `%M:%S.fraction`.
    UnparseableCpuTime,
}

/// The number of columns of a record.
pub const COLUMNS: usize = 15;

/// One row of accounting data.
#[derive(Debug, PartialEq, Eq)]
pub struct JobFields {
    pub job_id: String,
    pub job_name: String,
    pub partition: String,
    pub account: String,
    pub alloc_cpus: NumberOrCol,
    pub state: JobState,
    pub exit_code: String,
    pub submit_line: String,
    pub workdir: String,
    pub submit: Option<SubmitTime>,
    pub reqmem: NumberOrCol,
    pub maxrss: NumberOrCol,
    pub elapsed: NumberOrCol,
    pub time_limit: NumberOrCol,
    pub cpu_time_raw: NumberOrCol,
}

/// What a `JobFields` holds.
pub struct JobFieldsView {
    pub job_id: Seq<char>,
    pub job_name: Seq<char>,
    pub partition: Seq<char>,
    pub account: Seq<char>,
    pub alloc_cpus: NumberOrColView,
    pub state: JobStateView,
    pub exit_code: Seq<char>,
    pub submit_line: Seq<char>,
    pub workdir: Seq<char>,
    pub submit: Option<SubmitTime>,
    pub reqmem: NumberOrColView,
    pub maxrss: NumberOrColView,
    pub elapsed: NumberOrColView,
    pub time_limit: NumberOrColView,
    pub cpu_time_raw: NumberOrColView,
}

impl View for JobFields {
    type V = JobFieldsView;

    open spec fn view(&self) -> JobFieldsView {
        JobFieldsView {
            job_id: self.job_id@,
            job_name: self.job_name@,
            partition: self.partition@,
            account: self.account@,
            alloc_cpus: self.alloc_cpus@,
            state: self.state@,
            exit_code: self.exit_code@,
            submit_line: self.submit_line@,
            workdir: self.workdir@,
            submit: self.submit,
            reqmem: self.reqmem@,
            maxrss: self.maxrss@,
            elapsed: self.elapsed@,
            time_limit: self.time_limit@,
            cpu_time_raw: self.cpu_time_raw@,
        }
    }
}

impl Clone for JobFields {
    fn clone(&self) -> (r: Self)
        ensures
            r == *self,
    {
        JobFields {
            job_id: self.job_id.clone(),
            job_name: self.job_name.clone(),
            partition: self.partition.clone(),
            account: self.account.clone(),
            alloc_cpus: self.alloc_cpus.clone(),
            state: self.state.clone(),
            exit_code: self.exit_code.clone(),
            submit_line: self.submit_line.clone(),
            workdir: self.workdir.clone(),
            submit: self.submit,
            reqmem: self.reqmem.clone(),
            maxrss: self.maxrss.clone(),
            elapsed: self.elapsed.clone(),
            time_limit: self.time_limit.clone(),
            cpu_time_raw: self.cpu_time_raw.clone(),
        }
    }
}

/// Whether every record of `jobs` is well formed.
pub open spec fn all_wf(jobs: Seq<JobFields>) -> bool {
    forall|i: int| 0 <= i < jobs.len() ==> (#[trigger] jobs[i]).wf()
}

/// The views of a sequence of records.
pub open spec fn record_views(jobs: Seq<JobFields>) -> Seq<JobFieldsView> {
    Seq::new(jobs.len(), |i: int| jobs[i]@)
}

/// The text that is read as a time of day in place of a total CPU time:
/// where it holds a dot, what stands before the first dot, as minutes and
/// seconds of hour 0.
pub open spec fn elapsed_text(s: Seq<char>) -> Seq<char> {
    if s.contains('.') {
        "00:"@ + s.take(index_of(s, '.', 0))
    } else {
        s
    }
}

/// The submission time that a field stands for: none for the column's
/// title, else what `chrono` reads from it.
pub open spec fn submit_of(field: Seq<char>) -> Result<Option<SubmitTime>, JobParseError> {
    if field == "Submit"@ {
        Ok(None)
    } else {
        match datetime_of(field) {
            Some(t) => Ok(Some(t)),
            None => Err(JobParseError::UnparseableTimestamp),
        }
    }
}

/// The total CPU time that a field stands for: the column's title as text,
/// else the seconds that `chrono` reads from it.
pub open spec fn cpu_time_of(field: Seq<char>) -> Result<NumberOrColView, JobParseError> {
    if field == "TotalCPU"@ {
        Ok(NumberOrColView::Col("TotalCPU"@))
    } else {
        match clock_seconds_of(elapsed_text(field)) {
            Some(n) => Ok(NumberOrColView::Value(n as nat)),
            None => Err(JobParseError::UnparseableCpuTime),
        }
    }
}

/// The record with the fields `fields`, in the order of the record's
/// columns, with its submission time and total CPU time already read.
pub open spec fn record_with(
    fields: Seq<Seq<char>>,
    submit: Option<SubmitTime>,
    cpu_time_raw: NumberOrColView,
) -> JobFieldsView {
    JobFieldsView {
        job_id: fields[0],
        job_name: fields[1],
        partition: fields[2],
        account: fields[3],
        alloc_cpus: number_or_col(fields[4], usize::MAX as nat),
        state: job_state(fields[5]),
        exit_code: fields[6],
        submit_line: fields[7],
        workdir: fields[8],
        submit,
        reqmem: number_or_col(fields[10], usize::MAX as nat),
        maxrss: number_or_col(fields[11], usize::MAX as nat),
        elapsed: number_or_col(fields[12], usize::MAX as nat),
        time_limit: number_or_col(fields[13], usize::MAX as nat),
        cpu_time_raw,
    }
}

/// The record that `fields` stand for, in the order of the record's
/// columns, or why they stand for none.
pub open spec fn record_of(fields: Seq<Seq<char>>) -> Result<JobFieldsView, JobParseError> {
    if fields.len() != COLUMNS {
        Err(JobParseError::ColumnCountMismatch)
    } else {
        match submit_of(fields[9]) {
            Err(e) => Err(e),
            Ok(submit) => match cpu_time_of(fields[14]) {
                Err(e) => Err(e),
                Ok(cpu_time_raw) => Ok(record_with(fields, submit, cpu_time_raw)),
            },
        }
    }
}

/// Reads a total CPU time, `%H:%M:%S` or `%M:%S.fraction`, as seconds.
pub fn parse_elapsed_format_secs(s: &str) -> (r: Result<usize, JobParseError>)
    ensures
        match clock_seconds_of(elapsed_text(s@)) {
            Some(n) => r == Ok::<usize, JobParseError>(n as usize),
            None => r == Err::<usize, JobParseError>(JobParseError::UnparseableCpuTime),
        },
{
    let v = to_chars(s);
    let res = if has_char(&v, '.') {
        let dot = find_char(&v, '.', 0);
        let mut usable_string = String::new();
        push_text(&mut usable_string, "00:");
        let minutes = from_chars(&v, 0, dot);
        push_text(&mut usable_string, minutes.as_str());
        proof {
            assert(v@.subrange(0, dot as int) =~= v@.take(dot as int));
            assert(usable_string@ =~= elapsed_text(s@));
        }
        parse_clock_seconds(usable_string.as_str())
    } else {
        parse_clock_seconds(s)
    };
    match res {
        Ok(t) => Ok(t as usize),
        Err(_) => Err(JobParseError::UnparseableCpuTime),
    }
}

impl JobFields {
    /// Whether the submission time, if there is one, is well formed.
    pub open spec fn wf(self) -> bool {
        self.submit matches Some(t) ==> t.wf()
    }

    /// The record with the fields of `slice`, in the order of the record's
    /// columns, with its submission time and total CPU time already read.
    /// Fails where `slice` does not hold one field for each column.
    pub fn from_parts(
        slice: &Vec<String>,
        submit: Option<SubmitTime>,
        cpu_time_raw: NumberOrCol,
    ) -> (r: Result<JobFields, JobParseError>)
        ensures
            if slice.len() == COLUMNS {
                &&& r matches Ok(job)
                &&& job@ == record_with(texts(slice@), submit, cpu_time_raw@)
                &&& job.submit == submit
                &&& job.cpu_time_raw == cpu_time_raw
            } else {
                r == Err::<JobFields, JobParseError>(JobParseError::ColumnCountMismatch)
            },
    {
        if slice.len() != COLUMNS {
            return Err(JobParseError::ColumnCountMismatch);
        }
        Ok(JobFields {
            job_id: slice[0].clone(),
            job_name: slice[1].clone(),
            partition: slice[2].clone(),
            account: slice[3].clone(),
            alloc_cpus: NumberOrCol::from_str(slice[4].as_str()),
            state: JobState::from_str(slice[5].as_str()),
            exit_code: slice[6].clone(),
            submit_line: slice[7].clone(),
            workdir: slice[8].clone(),
            submit,
            reqmem: NumberOrCol::from_str(slice[10].as_str()),
            maxrss: NumberOrCol::from_str(slice[11].as_str()),
            elapsed: NumberOrCol::from_str(slice[12].as_str()),
            time_limit: NumberOrCol::from_str(slice[13].as_str()),
            cpu_time_raw,
        })
    }

    /// Reads a record from its fields, in the order of the record's columns.
    pub fn from_slice(slice: Vec<String>) -> (r: Result<JobFields, JobParseError>)
        ensures
            match record_of(texts(slice@)) {
                Ok(v) => r matches Ok(j) && j@ == v && j.wf(),
                Err(e) => r == Err::<JobFields, JobParseError>(e),
            },
    {
        if slice.len() != COLUMNS {
            return Err(JobParseError::ColumnCountMismatch);
        }
        let opt_submit_date = if crate::text::same_text(slice[9].as_str(), "Submit") {
            None
        } else {
            match parse_datetime(slice[9].as_str()) {
                Ok(t) => Some(t),
                Err(_) => {
                    return Err(JobParseError::UnparseableTimestamp);
                },
            }
        };
        let cpu_time_raw = if crate::text::same_text(slice[14].as_str(), "TotalCPU") {
            NumberOrCol::Col(slice[14].clone())
        } else {
            match parse_elapsed_format_secs(slice[14].as_str()) {
                Ok(elapsed_cpu) => NumberOrCol::Value(elapsed_cpu),
                Err(e) => {
                    return Err(e);
                },
            }
        };
        JobFields::from_parts(&slice, opt_submit_date, cpu_time_raw)
    }
}

/// How much of what a job was given it used: the amount used and the
/// amount available, which is above 0, or the title of the column where
/// no share can be told: where one of the amounts is not a number, and
/// where nothing was available.
#[derive(Debug, PartialEq, Eq)]
pub enum Efficiency {
    Ratio { used: usize, available: u128 },
    Label(String),
}

/// What an `Efficiency` holds.
pub enum EfficiencyView {
    Ratio { used: nat, available: nat },
    Label(Seq<char>),
}

impl View for Efficiency {
    type V = EfficiencyView;

    open spec fn view(&self) -> EfficiencyView {
        match self {
            Efficiency::Ratio { used, available } => EfficiencyView::Ratio {
                used: *used as nat,
                available: *available as nat,
            },
            Efficiency::Label(s) => EfficiencyView::Label(s@),
        }
    }
}

/// The share of `available` that `used` is, where both are numbers and
/// `available` is above 0, else the column's title `label`.
pub open spec fn efficiency_of(
    used: NumberOrColView,
    available: NumberOrColView,
    label: Seq<char>,
) -> EfficiencyView {
    match (used, available) {
        (NumberOrColView::Value(u), NumberOrColView::Value(a)) => if a > 0 {
            EfficiencyView::Ratio { used: u, available: a }
        } else {
            EfficiencyView::Label(label)
        },
        _ => EfficiencyView::Label(label),
    }
}

/// The share of the CPU time that `elapsed` seconds on `alloc_cpus`
/// processors offer that `cpu_time_raw` seconds are, where all three are
/// numbers and the processors offered any time at all, else the column's
/// title.
pub open spec fn cpu_efficiency_of(
    alloc_cpus: NumberOrColView,
    elapsed: NumberOrColView,
    cpu_time_raw: NumberOrColView,
) -> EfficiencyView {
    match (alloc_cpus, elapsed, cpu_time_raw) {
        (
            NumberOrColView::Value(n),
            NumberOrColView::Value(e),
            NumberOrColView::Value(t),
        ) => if e * n > 0 {
            EfficiencyView::Ratio { used: t, available: e * n }
        } else {
            EfficiencyView::Label("CPUEff"@)
        },
        _ => EfficiencyView::Label("CPUEff"@),
    }
}

/// An efficiency is a label or a share of an amount above 0: where it is
/// a share, every amount that it was told from is a number, and where any
/// of them is not, it is the label.
pub proof fn lemma_efficiency_is_label_or_share(
    used: NumberOrColView,
    available: NumberOrColView,
    label: Seq<char>,
    alloc_cpus: NumberOrColView,
    elapsed: NumberOrColView,
    cpu_time_raw: NumberOrColView,
)
    ensures
        efficiency_of(used, available, label) matches EfficiencyView::Ratio { used: u, available: a }
            ==> a > 0 && used == NumberOrColView::Value(u) && available == NumberOrColView::Value(
            a,
        ),
        used is Col || available is Col ==> efficiency_of(used, available, label)
            == EfficiencyView::Label(label),
        cpu_efficiency_of(alloc_cpus, elapsed, cpu_time_raw) matches EfficiencyView::Ratio {
            used: u,
            available: a,
        } ==> a > 0 && cpu_time_raw == NumberOrColView::Value(u) && alloc_cpus is Value
            && elapsed is Value,
        alloc_cpus is Col || elapsed is Col || cpu_time_raw is Col ==> cpu_efficiency_of(
            alloc_cpus,
            elapsed,
            cpu_time_raw,
        ) == EfficiencyView::Label("CPUEff"@),
{
}

/// The title `label` in place of an efficiency.
fn label_of(label: &str) -> (r: Efficiency)
    ensures
        r@ == EfficiencyView::Label(label@),
{
    Efficiency::Label(string_of(label))
}

/// `s` cut or filled with blanks at its end to `width` characters.
pub open spec fn fitted(s: Seq<char>, width: nat) -> Seq<char> {
    if s.len() >= width {
        s.take(width as int)
    } else {
        s + blanks((width - s.len()) as nat)
    }
}

/// The cells of a row that every view of the list shows.
pub open spec fn leading_cells(job: JobFields) -> Seq<Seq<char>> {
    seq![
        fitted(job.job_id@, 15),
        fitted(job.job_name@, 20),
        fitted(job.partition@, 14),
        fitted(job.alloc_cpus.spec_as_string(), 14),
        fitted(job.state.spec_to_string(), 35),
    ]
}

/// The text of the submission time's cell.
pub open spec fn submit_cell(submit: Option<SubmitTime>) -> Seq<char> {
    match submit {
        Some(t) => datetime_text(t),
        None => "Submit"@,
    }
}

/// The three efficiencies of a row, as the screen writes them.
pub struct EfficiencyCells {
    pub time: String,
    pub cpu: String,
    pub mem: String,
}

/// The cells that follow the leading ones: the efficiencies where they are
/// given, else exit code, submit line and submission time.
pub open spec fn trailing_cells(job: JobFields, efficiency: Option<EfficiencyCells>) -> Seq<
    Seq<char>,
> {
    match efficiency {
        Some(cells) => seq![fitted(cells.time@, 10), fitted(cells.cpu@, 10), fitted(cells.mem@, 10)],
        None => seq![
            fitted(job.exit_code@, 10),
            fitted(job.submit_line@, 25),
            fitted(submit_cell(job.submit), 20),
        ],
    }
}

impl JobFields {
    /// Peak memory as a share of the memory asked for; the label where
    /// one of the two is not a number or no memory was asked for.
    pub fn get_mem_eff(&self) -> (r: Efficiency)
        ensures
            r@ == efficiency_of(self.maxrss@, self.reqmem@, "MemEff"@),
    {
        match (self.reqmem.clone().take(), self.maxrss.clone().take()) {
            (Some(req), Some(max)) => if req > 0 {
                Efficiency::Ratio { used: max, available: req as u128 }
            } else {
                label_of("MemEff")
            },
            (_, _) => label_of("MemEff"),
        }
    }

    /// Run time as a share of the time limit; the label where one of the
    /// two is not a number or the limit is 0.
    pub fn get_time_eff(&self) -> (r: Efficiency)
        ensures
            r@ == efficiency_of(self.elapsed@, self.time_limit@, "TimeEff"@),
    {
        match (self.elapsed.clone().take(), self.time_limit.clone().take()) {
            (Some(elap), Some(limit)) => if limit > 0 {
                Efficiency::Ratio { used: elap, available: limit as u128 }
            } else {
                label_of("TimeEff")
            },
            (_, _) => label_of("TimeEff"),
        }
    }

    /// CPU time as a share of what the processors offered over the run
    /// time; the label where one of the three amounts is not a number or
    /// the processors offered no time.
    pub fn get_cpu_eff(&self) -> (r: Efficiency)
        ensures
            r@ == cpu_efficiency_of(self.alloc_cpus@, self.elapsed@, self.cpu_time_raw@),
    {
        match (
            self.alloc_cpus.clone().take(),
            self.elapsed.clone().take(),
            self.cpu_time_raw.clone().take(),
        ) {
            (Some(num_cpu), Some(elapsed), Some(total)) => {
                assert(elapsed as u128 * num_cpu as u128 <= u128::MAX) by (nonlinear_arith)
                    requires
                        elapsed <= u64::MAX,
                        num_cpu <= u64::MAX,
                ;
                let max: u128 = elapsed as u128 * num_cpu as u128;
                if max > 0 {
                    Efficiency::Ratio { used: total, available: max }
                } else {
                    label_of("CPUEff")
                }
            },
            _ => label_of("CPUEff"),
        }
    }

    /// `s` cut or filled with blanks at its end to `num_c` characters.
    pub fn format_str(s: &str, num_c: usize) -> (r: String)
        ensures
            r@ == fitted(s@, num_c as nat),
    {
        let v = to_chars(s);
        let mut r = String::new();
        let mut i: usize = 0;
        while i < num_c
            invariant
                i <= num_c,
                r@ == fitted(v@, num_c as nat).take(i as int),
                fitted(v@, num_c as nat).len() == num_c,
            decreases num_c - i,
        {
            let c = if i < v.len() {
                v[i]
            } else {
                ' '
            };
            crate::text::push_char(&mut r, c);
            assert(fitted(v@, num_c as nat).take(i + 1) =~= fitted(v@, num_c as nat).take(
                i as int,
            ).push(c));
            i += 1;
        }
        assert(fitted(v@, num_c as nat).take(num_c as int) =~= fitted(v@, num_c as nat));
        r
    }

    /// The text of the row that shows this record: its cells, each of a
    /// fixed width, with a blank between them.
    pub fn display_lines(&self, efficiency: Option<&EfficiencyCells>) -> (r: String)
        requires
            self.wf(),
        ensures
            r@ == join_with(
                leading_cells(*self) + trailing_cells(
                    *self,
                    match efficiency {
                        Some(cells) => Some(*cells),
                        None => None,
                    },
                ),
                ' ',
            ),
    {
        let c0 = Self::format_str(self.job_id.as_str(), 15);
        let c1 = Self::format_str(self.job_name.as_str(), 20);
        let c2 = Self::format_str(self.partition.as_str(), 14);
        let c3 = Self::format_str(self.alloc_cpus.as_string().as_str(), 14);
        let c4 = Self::format_str(self.state.to_string().as_str(), 35);
        let (c5, c6, c7) = match efficiency {
            Some(cells) => (
                Self::format_str(cells.time.as_str(), 10),
                Self::format_str(cells.cpu.as_str(), 10),
                Self::format_str(cells.mem.as_str(), 10),
            ),
            None => {
                let submit_fmt = match &self.submit {
                    Some(date) => format_datetime(date),
                    None => string_of("Submit"),
                };
                (
                    Self::format_str(self.exit_code.as_str(), 10),
                    Self::format_str(self.submit_line.as_str(), 25),
                    Self::format_str(submit_fmt.as_str(), 20),
                )
            },
        };
        let mut cells: Vec<String> = Vec::new();
        cells.push(c0);
        cells.push(c1);
        cells.push(c2);
        cells.push(c3);
        cells.push(c4);
        cells.push(c5);
        cells.push(c6);
        cells.push(c7);
        assert(texts(cells@) =~= leading_cells(*self) + trailing_cells(
            *self,
            match efficiency {
                Some(cells) => Some(*cells),
                None => None,
            },
        ));
        crate::text::join(&cells, ' ')
    }
}

/// The place among a record's fields of the column titled `name`.
pub open spec fn column_index(name: Seq<char>) -> Option<int> {
    if name == "JobID"@ {
        Some(0)
    } else if name == "JobName"@ {
        Some(1)
    } else if name == "Partition"@ {
        Some(2)
    } else if name == "Account"@ {
        Some(3)
    } else if name == "AllocCPUS"@ {
        Some(4)
    } else if name == "State"@ {
        Some(5)
    } else if name == "ExitCode"@ {
        Some(6)
    } else if name == "SubmitLine"@ {
        Some(7)
    } else if name == "WorkDir"@ {
        Some(8)
    } else if name == "Submit"@ {
        Some(9)
    } else if name == "ReqMem"@ {
        Some(10)
    } else if name == "MaxRSS"@ {
        Some(11)
    } else if name == "ElapsedRaw"@ {
        Some(12)
    } else if name == "TimelimitRaw"@ {
        Some(13)
    } else if name == "TotalCPU"@ {
        Some(14)
    } else {
        None
    }
}

/// The place among a record's fields of the column titled `name`.
pub fn column_place(name: &Vec<char>) -> (r: Option<usize>)
    ensures
        r matches Some(c) ==> c < COLUMNS && column_index(name@) == Some(c as int),
        r is None ==> column_index(name@) is None,
{
    let n = name.len();
    proof {
        assert(name@.subrange(0, n as int) =~= name@);
    }
    if is_word(name, 0, n, "JobID") {
        Some(0)
    } else if is_word(name, 0, n, "JobName") {
        Some(1)
    } else if is_word(name, 0, n, "Partition") {
        Some(2)
    } else if is_word(name, 0, n, "Account") {
        Some(3)
    } else if is_word(name, 0, n, "AllocCPUS") {
        Some(4)
    } else if is_word(name, 0, n, "State") {
        Some(5)
    } else if is_word(name, 0, n, "ExitCode") {
        Some(6)
    } else if is_word(name, 0, n, "SubmitLine") {
        Some(7)
    } else if is_word(name, 0, n, "WorkDir") {
        Some(8)
    } else if is_word(name, 0, n, "Submit") {
        Some(9)
    } else if is_word(name, 0, n, "ReqMem") {
        Some(10)
    } else if is_word(name, 0, n, "MaxRSS") {
        Some(11)
    } else if is_word(name, 0, n, "ElapsedRaw") {
        Some(12)
    } else if is_word(name, 0, n, "TimelimitRaw") {
        Some(13)
    } else if is_word(name, 0, n, "TotalCPU") {
        Some(14)
    } else {
        None
    }
}

/// The lines of `text`, each split into its fields: the text without the
/// line breaks at its end, split at line breaks, each line split at `|`.
pub open spec fn table_of(text: Seq<char>) -> Seq<Seq<Seq<char>>> {
    let lines = split_on(trim_end(text, '\n'), '\n');
    Seq::new(lines.len(), |i: int| split_on(lines[i], '|'))
}

/// The last place before `n` at which `header` names the column whose
/// fields stand at place `c` of a record, or -1 if it names it nowhere.
pub open spec fn position_of(header: Seq<Seq<char>>, c: int, n: int) -> int
    decreases n,
{
    if n <= 0 {
        -1
    } else if column_index(header[n - 1]) == Some(c) {
        n - 1
    } else {
        position_of(header, c, n - 1)
    }
}

/// What is wrong with a header, if anything: a title that is no column of
/// a record, or, where all are, a column of a record that has no title.
pub open spec fn header_error(header: Seq<Seq<char>>) -> Option<JobParseError> {
    if exists|k: int| 0 <= k < header.len() && column_index(#[trigger] header[k]) is None {
        Some(JobParseError::UnknownColumn)
    } else if exists|c: int|
        0 <= c < COLUMNS && #[trigger] position_of(header, c, header.len() as int) < 0 {
        Some(JobParseError::MissingColumn)
    } else {
        None
    }
}

/// The fields of `line` in the order of a record's columns, where `header`
/// gives the order that they are written in.
pub open spec fn canonical(header: Seq<Seq<char>>, line: Seq<Seq<char>>) -> Seq<Seq<char>> {
    Seq::new(COLUMNS as nat, |c: int| line[position_of(header, c, header.len() as int)])
}

/// The records of the first `n` rows of `table`, or the error of the first
/// row that stands for none.
pub open spec fn rows_records(header: Seq<Seq<char>>, table: Seq<Seq<Seq<char>>>, n: int) -> Result<
    Seq<JobFieldsView>,
    JobParseError,
>
    decreases n,
{
    if n <= 0 {
        Ok(Seq::empty())
    } else {
        match rows_records(header, table, n - 1) {
            Err(e) => Err(e),
            Ok(records) => match record_of(canonical(header, table[n - 1])) {
                Err(e) => Err(e),
                Ok(record) => Ok(records.push(record)),
            },
        }
    }
}

/// The records that a table stands for, its first row being the header:
/// one for each row, the header's among them and first.
///
/// A row without one field for each column is `ColumnCountMismatch`,
/// wherever it stands; then comes what is wrong with the header; then the
/// error of the first row that stands for no record.
pub open spec fn records_of(table: Seq<Seq<Seq<char>>>) -> Result<Seq<JobFieldsView>, JobParseError> {
    if exists|i: int| 0 <= i < table.len() && (#[trigger] table[i]).len() != COLUMNS {
        Err(JobParseError::ColumnCountMismatch)
    } else if let Some(e) = header_error(table[0]) {
        Err(e)
    } else {
        rows_records(table[0], table, table.len() as int)
    }
}

/// The views of a table of fields.
pub open spec fn table_views(rows: Seq<Vec<Vec<char>>>) -> Seq<Seq<Seq<char>>> {
    Seq::new(rows.len(), |i: int| views(rows[i]@))
}

/// Splits `text` into lines and lines into fields; `None` if a line does
/// not hold one field for each column.
fn read_table(text: &Vec<char>) -> (r: Option<Vec<Vec<Vec<char>>>>)
    ensures
        r matches Some(rows) ==> table_views(rows@) == table_of(text@) && rows.len() >= 1
            && forall|i: int| 0 <= i < rows.len() ==> (#[trigger] rows[i]).len() == COLUMNS,
        r is None ==> exists|i: int|
            0 <= i < table_of(text@).len() && (#[trigger] table_of(text@)[i]).len() != COLUMNS,
{
    let n = trim_end_len(text, '\n');
    let mut trimmed = text.clone();
    trimmed.truncate(n);
    assert(trimmed@ =~= trim_end(text@, '\n'));
    let lines = split(&trimmed, '\n');
    proof {
        crate::text::lemma_split_on(trimmed@, '\n');
    }
    let ghost table = table_of(text@);
    let mut rows: Vec<Vec<Vec<char>>> = Vec::new();
    let mut i: usize = 0;
    while i < lines.len()
        invariant
            i <= lines.len(),
            views(lines@) == split_on(trim_end(text@, '\n'), '\n'),
            table == table_of(text@),
            rows.len() == i,
            forall|k: int| 0 <= k < i ==> views((#[trigger] rows[k])@) == table[k],
            forall|k: int| 0 <= k < i ==> (#[trigger] rows[k]).len() == COLUMNS,
        decreases lines.len() - i,
    {
        let fields = split(&lines[i], '|');
        assert(views(lines@)[i as int] == lines[i as int]@);
        assert(views(fields@) == table[i as int]);
        if fields.len() != COLUMNS {
            return None;
        }
        rows.push(fields);
        i += 1;
    }
    assert(table_views(rows@) =~= table);
    Some(rows)
}

/// Where `position_of` finds a place, the header names the column there.
pub proof fn lemma_position_of(header: Seq<Seq<char>>, c: int, n: int)
    requires
        0 <= n <= header.len(),
    ensures
        -1 <= position_of(header, c, n) < n,
        position_of(header, c, n) >= 0 ==> column_index(header[position_of(header, c, n)])
            == Some(c),
    decreases n,
{
    if n > 0 && column_index(header[n - 1]) != Some(c) {
        lemma_position_of(header, c, n - 1);
    }
}

/// Whether `places` holds, for each column of a record, the place at which
/// `header` names it.
pub open spec fn places_of(header: Seq<Seq<char>>, places: Seq<usize>) -> bool {
    &&& places.len() == COLUMNS
    &&& forall|c: int|
        0 <= c < COLUMNS ==> 0 <= #[trigger] places[c] < header.len() && places[c] == position_of(
            header,
            c,
            header.len() as int,
        )
}

/// For each column of a record, the place at which `header` names it.
fn column_places(header: &Vec<Vec<char>>) -> (r: Result<Vec<usize>, JobParseError>)
    ensures
        match header_error(views(header@)) {
            Some(e) => r == Err::<Vec<usize>, JobParseError>(e),
            None => r matches Ok(places) && places_of(views(header@), places@),
        },
{
    let ghost names = views(header@);
    let unset: usize = header.len();
    let mut places: Vec<usize> = Vec::new();
    let mut c: usize = 0;
    while c < COLUMNS
        invariant
            c <= COLUMNS,
            places.len() == c,
            forall|j: int| 0 <= j < c ==> #[trigger] places[j] == unset,
        decreases COLUMNS - c,
    {
        places.push(unset);
        c += 1;
    }
    let mut k: usize = 0;
    while k < header.len()
        invariant
            k <= header.len(),
            unset == header.len(),
            names == views(header@),
            places.len() == COLUMNS,
            forall|j: int| 0 <= j < k ==> column_index(#[trigger] names[j]) is Some,
            forall|j: int|
                0 <= j < COLUMNS ==> (if position_of(names, j, k as int) < 0 {
                    #[trigger] places[j] == unset
                } else {
                    places[j] == position_of(names, j, k as int)
                }),
        decreases header.len() - k,
    {
        assert(names[k as int] == header[k as int]@);
        match column_place(&header[k]) {
            Some(place) => {
                places.set(place, k);
            },
            None => {
                return Err(JobParseError::UnknownColumn);
            },
        }
        k += 1;
    }
    let mut c: usize = 0;
    while c < COLUMNS
        invariant
            c <= COLUMNS,
            unset == header.len(),
            names == views(header@),
            places.len() == COLUMNS,
            forall|j: int| 0 <= j < names.len() ==> column_index(#[trigger] names[j]) is Some,
            forall|j: int|
                0 <= j < COLUMNS ==> (if position_of(names, j, unset as int) < 0 {
                    #[trigger] places[j] == unset
                } else {
                    places[j] == position_of(names, j, unset as int)
                }),
            forall|j: int| 0 <= j < c ==> #[trigger] position_of(names, j, unset as int) >= 0,
        decreases COLUMNS - c,
    {
        proof {
            lemma_position_of(names, c as int, unset as int);
        }
        if places[c] == unset {
            assert(position_of(names, c as int, names.len() as int) < 0);
            return Err(JobParseError::MissingColumn);
        }
        c += 1;
    }
    proof {
        assert forall|j: int| 0 <= j < COLUMNS implies 0 <= #[trigger] places[j] < names.len()
            && places[j] == position_of(names, j, names.len() as int) by {
            lemma_position_of(names, j, unset as int);
        }
    }
    Ok(places)
}

/// The fields of `line` in the order of a record's columns.
fn reorder(line: &Vec<Vec<char>>, places: &Vec<usize>, Ghost(header): Ghost<Seq<Seq<char>>>) -> (r:
    Vec<String>)
    requires
        places_of(header, places@),
        line.len() == header.len(),
    ensures
        texts(r@) == canonical(header, views(line@)),
{
    let mut r: Vec<String> = Vec::new();
    let mut c: usize = 0;
    while c < COLUMNS
        invariant
            c <= COLUMNS,
            r.len() == c,
            places_of(header, places@),
            line.len() == header.len(),
            forall|j: int| 0 <= j < c ==> (#[trigger] r[j])@ == line[places[j] as int]@,
        decreases COLUMNS - c,
    {
        r.push(crate::text::to_string(&line[places[c]]));
        c += 1;
    }
    assert(texts(r@) =~= canonical(header, views(line@)));
    r
}

impl JobFields {
    /// Reads the records of accounting text: a header line that names the
    /// columns, in any order, and one line for each job, the fields of a
    /// line set apart by `|`. The header itself is the first record.
    pub fn from_sacct_str(sacct_res: &str) -> (r: Result<Vec<JobFields>, JobParseError>)
        ensures
            match records_of(table_of(sacct_res@)) {
                Ok(records) => r matches Ok(jobs) && record_views(jobs@) == records && all_wf(jobs@),
                Err(e) => r == Err::<Vec<JobFields>, JobParseError>(e),
            },
    {
        let text = to_chars(sacct_res);
        let line_vector = match read_table(&text) {
            Some(rows) => rows,
            None => {
                return Err(JobParseError::ColumnCountMismatch);
            },
        };
        let ghost table = table_of(sacct_res@);
        let ghost header = table[0];
        proof {
            assert forall|i: int| 0 <= i < table.len() implies (#[trigger] table[i]).len()
                == COLUMNS by {
                assert(table[i] == views(line_vector[i]@));
            }
            assert(header == views(line_vector[0]@));
        }
        let hash_index = match column_places(&line_vector[0]) {
            Ok(places) => places,
            Err(e) => {
                return Err(e);
            },
        };
        let mut fields_correct_order: Vec<JobFields> = Vec::new();
        let mut i: usize = 0;
        assert(record_views(fields_correct_order@) =~= Seq::empty());
        while i < line_vector.len()
            invariant
                i <= line_vector.len(),
                table == table_views(line_vector@),
                table == table_of(sacct_res@),
                header == table[0],
                header_error(header) is None,
                forall|k: int| 0 <= k < table.len() ==> (#[trigger] table[k]).len() == COLUMNS,
                header.len() == COLUMNS,
                forall|k: int|
                    0 <= k < line_vector.len() ==> (#[trigger] line_vector[k]).len() == COLUMNS,
                places_of(header, hash_index@),
                fields_correct_order.len() == i,
                rows_records(header, table, i as int) == Ok::<Seq<JobFieldsView>, JobParseError>(
                    record_views(fields_correct_order@),
                ),
                forall|k: int| 0 <= k < i ==> (#[trigger] fields_correct_order[k]).wf(),
            decreases line_vector.len() - i,
        {
            let slice = reorder(&line_vector[i], &hash_index, Ghost(header));
            assert(table[i as int] == views(line_vector[i as int]@));
            let ghost before = record_views(fields_correct_order@);
            match JobFields::from_slice(slice) {
                Ok(job) => {
                    fields_correct_order.push(job);
                    assert(record_views(fields_correct_order@) =~= before.push(job@));
                },
                Err(e) => {
                    proof {
                        assert(rows_records(header, table, i as int + 1) == Err::<
                            Seq<JobFieldsView>,
                            JobParseError,
                        >(e));
                        lemma_rows_records_error(header, table, i as int + 1, table.len() as int);
                    }
                    return Err(e);
                },
            }
            i += 1;
        }
        Ok(fields_correct_order)
    }
}

/// Once the first `n` rows hold one that stands for no record, so do the
/// first `m`, for every `m` from `n` on, and with the same error.
pub proof fn lemma_rows_records_error(
    header: Seq<Seq<char>>,
    table: Seq<Seq<Seq<char>>>,
    n: int,
    m: int,
)
    requires
        n <= m,
        rows_records(header, table, n) is Err,
    ensures
        rows_records(header, table, m) == rows_records(header, table, n),
    decreases m - n,
{
    if n < m {
        lemma_rows_records_error(header, table, n, m - 1);
    }
}

/// Whether `header` names each column of a record once, and nothing else.
pub open spec fn full_header(header: Seq<Seq<char>>) -> bool {
    header.len() == COLUMNS && header_error(header) is None
}

/// Whether two lines hold the same data, each in the order of its own
/// header: fields under the same title are equal.
pub open spec fn same_data(
    h1: Seq<Seq<char>>,
    l1: Seq<Seq<char>>,
    h2: Seq<Seq<char>>,
    l2: Seq<Seq<char>>,
) -> bool {
    forall|i: int, j: int|
        0 <= i < COLUMNS && 0 <= j < COLUMNS && #[trigger] h1[i] == #[trigger] h2[j] ==> l1[i]
            == l2[j]
}

/// Two titles of the same column are the same title.
pub proof fn lemma_column_index_injective(a: Seq<char>, b: Seq<char>)
    requires
        column_index(a) is Some,
        column_index(a) == column_index(b),
    ensures
        a == b,
{
}

/// The order of the columns does not matter to a line: two lines that hold
/// the same data under headers that each name every column give the same
/// fields in the order of a record's columns.
pub proof fn lemma_canonical_ignores_column_order(
    h1: Seq<Seq<char>>,
    l1: Seq<Seq<char>>,
    h2: Seq<Seq<char>>,
    l2: Seq<Seq<char>>,
)
    requires
        full_header(h1),
        full_header(h2),
        l1.len() == COLUMNS,
        l2.len() == COLUMNS,
        same_data(h1, l1, h2, l2),
    ensures
        canonical(h1, l1) == canonical(h2, l2),
{
    assert forall|c: int| 0 <= c < COLUMNS implies canonical(h1, l1)[c] == canonical(h2, l2)[c] by {
        let here = position_of(h1, c, h1.len() as int);
        let there = position_of(h2, c, h2.len() as int);
        lemma_position_of(h1, c, h1.len() as int);
        lemma_position_of(h2, c, h2.len() as int);
        lemma_column_index_injective(h1[here], h2[there]);
    }
    assert(canonical(h1, l1) =~= canonical(h2, l2));
}

/// The order of the columns does not matter to the records: two tables
/// whose headers each name every column, and whose rows hold the same data
/// line by line, stand for the same records.
pub proof fn lemma_records_ignore_column_order(
    t1: Seq<Seq<Seq<char>>>,
    t2: Seq<Seq<Seq<char>>>,
)
    requires
        t1.len() == t2.len(),
        t1.len() >= 1,
        full_header(t1[0]),
        full_header(t2[0]),
        forall|r: int| 0 <= r < t1.len() ==> (#[trigger] t1[r]).len() == COLUMNS,
        forall|r: int| 0 <= r < t2.len() ==> (#[trigger] t2[r]).len() == COLUMNS,
        forall|r: int| 0 <= r < t1.len() ==> same_data(t1[0], #[trigger] t1[r], t2[0], t2[r]),
    ensures
        records_of(t1) == records_of(t2),
{
    lemma_rows_ignore_column_order(t1, t2, t1.len() as int);
}

/// `lemma_records_ignore_column_order` for the first `n` rows.
pub proof fn lemma_rows_ignore_column_order(
    t1: Seq<Seq<Seq<char>>>,
    t2: Seq<Seq<Seq<char>>>,
    n: int,
)
    requires
        t1.len() == t2.len(),
        0 <= n <= t1.len(),
        full_header(t1[0]),
        full_header(t2[0]),
        forall|r: int| 0 <= r < t1.len() ==> (#[trigger] t1[r]).len() == COLUMNS,
        forall|r: int| 0 <= r < t2.len() ==> (#[trigger] t2[r]).len() == COLUMNS,
        forall|r: int| 0 <= r < t1.len() ==> same_data(t1[0], #[trigger] t1[r], t2[0], t2[r]),
    ensures
        rows_records(t1[0], t1, n) == rows_records(t2[0], t2, n),
    decreases n,
{
    if n > 0 {
        lemma_rows_ignore_column_order(t1, t2, n - 1);
        assert(same_data(t1[0], t1[n - 1], t2[0], t2[n - 1]));
        lemma_canonical_ignores_column_order(t1[0], t1[n - 1], t2[0], t2[n - 1]);
    }
}

/// The records of rows are one for each row, each the record of its row.
pub proof fn lemma_rows_records(header: Seq<Seq<char>>, table: Seq<Seq<Seq<char>>>, n: int)
    requires
        0 <= n,
        rows_records(header, table, n) is Ok,
    ensures
        rows_records(header, table, n)->Ok_0.len() == n,
        forall|i: int|
            0 <= i < n ==> record_of(canonical(header, table[i])) == Ok::<
                JobFieldsView,
                JobParseError,
            >(#[trigger] rows_records(header, table, n)->Ok_0[i]),
    decreases n,
{
    if n > 0 {
        lemma_rows_records(header, table, n - 1);
    }
}

/// The title `State` is the state of the header's record.
pub proof fn lemma_state_of_header()
    ensures
        job_state("State"@) == JobStateView::Header,
{
    reveal_strlit("State");
    reveal_strlit("COMPLETED");
    reveal_strlit("OUT_OF_MEMORY");
    reveal_strlit("CANCELLED");
    reveal_strlit("TIMEOUT");
    reveal_strlit("DEADLINE");
    reveal_strlit("PENDING");
    reveal_strlit("RUNNING");
    reveal_strlit("FAILED");
    let s = "State"@;
    assert(!crate::text::is_whitespace(s[0]));
    assert(!crate::text::is_whitespace(s[1]));
    assert(!crate::text::is_whitespace(s[2]));
    assert(!crate::text::is_whitespace(s[3]));
    assert(!crate::text::is_whitespace(s[4]));
    reveal_with_fuel(crate::text::skip_word, 7);
    assert(crate::text::skip_whitespace(s, 0) == 0);
    assert(crate::text::skip_word(s, 0) == 5);
    assert(first_word(s) =~= s);
}

/// The records of a table are one for each of its rows, and the first is
/// the header's: its fields are the titles of their columns, its state is
/// `Header`, and it has no submission time.
pub proof fn lemma_records_begin_with_header(table: Seq<Seq<Seq<char>>>)
    requires
        table.len() >= 1,
        records_of(table) is Ok,
    ensures
        records_of(table)->Ok_0.len() == table.len(),
        records_of(table)->Ok_0[0].job_id == "JobID"@,
        records_of(table)->Ok_0[0].partition == "Partition"@,
        records_of(table)->Ok_0[0].partition.len() > 0,
        records_of(table)->Ok_0[0].state is Header,
        records_of(table)->Ok_0[0].submit is None,
{
    let header = table[0];
    let fields = canonical(header, header);
    lemma_rows_records(header, table, table.len() as int);
    assert(header.len() == COLUMNS);
    assert forall|c: int| 0 <= c < COLUMNS implies column_index(#[trigger] fields[c]) == Some(c) by {
        lemma_position_of(header, c, header.len() as int);
    }
    assert(column_index(fields[0]) == Some(0int));
    assert(column_index(fields[2]) == Some(2int));
    assert(column_index(fields[5]) == Some(5int));
    assert(column_index(fields[9]) == Some(9int));
    assert(fields[0] == "JobID"@);
    assert(fields[2] == "Partition"@);
    assert(fields[5] == "State"@);
    assert(fields[9] == "Submit"@);
    lemma_state_of_header();
    reveal_strlit("Partition");
}

/// The paths that the output of a search for log files lists: none for an
/// empty output, else its lines, without the line breaks at its end.
pub open spec fn log_lines(found: Seq<char>) -> Seq<Seq<char>> {
    if found.len() == 0 {
        Seq::empty()
    } else {
        split_on(trim_end(found, '\n'), '\n')
    }
}

/// The paths of the log files that a search has found, from its output.
pub fn fetch_logs(find_result: &str) -> (r: Vec<String>)
    ensures
        texts(r@) == log_lines(find_result@),
{
    let text = to_chars(find_result);
    let mut vec_logs: Vec<String> = Vec::new();
    if text.len() == 0 {
        assert(texts(vec_logs@) =~= log_lines(find_result@));
        return vec_logs;
    }
    let n = trim_end_len(&text, '\n');
    let mut trimmed = text.clone();
    trimmed.truncate(n);
    assert(trimmed@ =~= trim_end(text@, '\n'));
    let lines = split(&trimmed, '\n');
    let mut i: usize = 0;
    while i < lines.len()
        invariant
            i <= lines.len(),
            vec_logs.len() == i,
            forall|k: int| 0 <= k < i ==> (#[trigger] vec_logs[k])@ == lines[k]@,
        decreases lines.len() - i,
    {
        vec_logs.push(crate::text::to_string(&lines[i]));
        i += 1;
    }
    assert(texts(vec_logs@) =~= views(lines@));
    vec_logs
}

} // verus!
