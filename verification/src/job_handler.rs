//! What the scheduler's control tool tells of one job.

use crate::text::find_sub;
use crate::text::find_text;
use crate::text::first_word_bounds;
use crate::text::first_word;
use crate::text::from_chars;
use crate::text::has_prefix;
use crate::text::split_on;
use crate::text::split;
use crate::text::starts_with;
use crate::text::string_of;
use crate::text::to_chars;
use crate::text::trim_bounds;
use crate::text::trimmed;
use crate::text::views;
use vstd::prelude::*;

verus! {

/// Where a job writes.
#[derive(Debug, PartialEq, Eq)]
pub struct JobDetails {
    pub job_id: String,
    pub err_file: String,
    pub log_file: String,
}

/// Why the control tool's answer could not be read.
#[derive(Clone, Copy, Debug, PartialEq, Eq, Structural)]
pub enum JobDetailsError {
    /// A line of the queue holds no word.
    SplitFailed,
    /// No line begins with `StdErr=`.
    StdErrNotFound,
    /// No line begins with `StdOut=`.
    StdOutNotFound,
}

/// The id of the job that a line of the queue tells of: its first word.
pub fn parse_job_id(job_line: &str) -> (r: Result<String, JobDetailsError>)
    ensures
        match r {
            Ok(id) => id@ == first_word(job_line@) && id@.len() > 0,
            Err(e) => e == JobDetailsError::SplitFailed && first_word(job_line@).len() == 0,
        },
{
    let v = to_chars(job_line);
    let (from, to) = first_word_bounds(&v);
    if from == to {
        Err(JobDetailsError::SplitFailed)
    } else {
        Ok(from_chars(&v, from, to))
    }
}

/// What follows the text `p` at the beginning of `line`, up to where `p`
/// stands again, or up to the end of the line.
pub open spec fn after_prefix(line: Seq<char>, p: Seq<char>) -> Seq<char> {
    line.subrange(p.len() as int, find_text(line, p, p.len() as int))
}

/// What follows `p` in the first line at or after `i` that begins with
/// `p`; `None` if no line does.
pub open spec fn first_start(lines: Seq<Seq<char>>, p: Seq<char>, i: int) -> Option<Seq<char>>
    decreases lines.len() - i,
{
    if i < 0 || i >= lines.len() {
        None
    } else if starts_with(lines[i], p) {
        Some(after_prefix(lines[i], p))
    } else {
        first_start(lines, p, i + 1)
    }
}

/// What follows `pattern_start` in the first of `lines` that begins with
/// it.
fn parse_start(lines: &Vec<Vec<char>>, pattern_start: &str) -> (r: Option<String>)
    ensures
        match first_start(views(lines@), pattern_start@, 0) {
            Some(path) => r matches Some(found) && found@ == path,
            None => r is None,
        },
{
    let p = to_chars(pattern_start);
    let mut i: usize = 0;
    while i < lines.len()
        invariant
            i <= lines.len(),
            p@ == pattern_start@,
            first_start(views(lines@), p@, 0) == first_start(views(lines@), p@, i as int),
        decreases lines.len() - i,
    {
        let line = &lines[i];
        assert(views(lines@)[i as int] == line@);
        if has_prefix(line, &p) {
            let end = find_sub(line, p.len(), line.len(), &p);
            assert(line@.take(line.len() as int) =~= line@);
            return Some(from_chars(line, p.len(), end));
        }
        i += 1;
    }
    None
}

/// The lines of `text`, each without the white space at its two ends.
pub open spec fn trimmed_lines(text: Seq<char>) -> Seq<Seq<char>> {
    split_on(text, '\n').map_values(|line: Seq<char>| trimmed(line))
}

/// Reads from the control tool's answer `job_info` where the job `job_id`
/// writes: what follows `StdErr=` and `StdOut=` in the first lines that
/// begin so.
pub fn parse_job_details(job_id: &str, job_info: &str) -> (r: Result<JobDetails, JobDetailsError>)
    ensures
        match (
            first_start(trimmed_lines(job_info@), "StdErr="@, 0),
            first_start(trimmed_lines(job_info@), "StdOut="@, 0),
        ) {
            (Some(err_file), Some(log_file)) => r matches Ok(details) && details.job_id@ == job_id@
                && details.err_file@ == err_file && details.log_file@ == log_file,
            (None, _) => r == Err::<JobDetails, JobDetailsError>(JobDetailsError::StdErrNotFound),
            (Some(_), None) => r == Err::<JobDetails, JobDetailsError>(
                JobDetailsError::StdOutNotFound,
            ),
        },
{
    let text = to_chars(job_info);
    let raw = split(&text, '\n');
    let mut lines: Vec<Vec<char>> = Vec::new();
    let mut i: usize = 0;
    while i < raw.len()
        invariant
            i <= raw.len(),
            lines.len() == i,
            forall|k: int| 0 <= k < i ==> (#[trigger] lines[k])@ == trimmed(raw[k]@),
        decreases raw.len() - i,
    {
        let piece = &raw[i];
        let (from, to) = trim_bounds(piece);
        let mut line: Vec<char> = Vec::new();
        let mut k: usize = from;
        while k < to
            invariant
                from <= k <= to <= piece.len(),
                line@ == piece@.subrange(from as int, k as int),
            decreases to - k,
        {
            line.push(piece[k]);
            assert(piece@.subrange(from as int, k + 1) =~= piece@.subrange(
                from as int,
                k as int,
            ).push(piece@[k as int]));
            k += 1;
        }
        lines.push(line);
        i += 1;
    }
    assert(views(lines@) =~= trimmed_lines(job_info@));
    let err_file = match parse_start(&lines, "StdErr=") {
        Some(path) => path,
        None => {
            return Err(JobDetailsError::StdErrNotFound);
        },
    };
    let log_file = match parse_start(&lines, "StdOut=") {
        Some(path) => path,
        None => {
            return Err(JobDetailsError::StdOutNotFound);
        },
    };
    Ok(JobDetails { job_id: string_of(job_id), err_file, log_file })
}

} // verus!
