//! The session: which screen is shown, which row is highlighted, and what
//! each key does to them.

use crate::editor::Editor;
use crate::job_query_info::JobQueryInfo;
use crate::job_query_info::JobTime;
use crate::jobs::job_handler::fetched;
use crate::jobs::job_handler::FetchError;
use crate::jobs::job_handler::find_args;
use crate::jobs::job_handler::find_arguments;
use crate::jobs::job_parser::all_wf;
use crate::jobs::job_parser::fetch_logs;
use crate::jobs::job_parser::JobFields;
use crate::jobs::job_parser::log_lines;
use crate::jobs::job_parser::record_views;
use crate::jobs::submit_time::SubmitTime;
use crate::parser::Cli;
use crate::text::split_on;
use crate::text::string_of;
use crate::text::texts;
use vstd::prelude::*;

verus! {

/// What the screen shows.
pub enum DisplayState {
    /// Nothing yet.
    Empty,
    /// The list of jobs.
    Jobs(JobQueryInfo),
    /// The paths of a job's log files.
    Logs(Vec<String>),
    /// The text of a log file.
    Editor(Editor),
}

/// A notice that stays on the screen until the next key.
pub struct MyPopup {
    pub popup_text: String,
}

/// How far back a refresh asks for jobs.
#[derive(Clone, Copy, Debug, PartialEq, Eq, Structural)]
pub enum FetchTime {
    Today,
    ThreeDaysAgo,
    AWeekAgo,
    SpecificWindow { start: SubmitTime, end: SubmitTime },
}

impl FetchTime {
    /// The next longer stretch of time, where there is one.
    pub open spec fn spec_older(self) -> FetchTime {
        match self {
            FetchTime::Today => FetchTime::ThreeDaysAgo,
            FetchTime::ThreeDaysAgo => FetchTime::AWeekAgo,
            FetchTime::AWeekAgo => FetchTime::AWeekAgo,
            _ => self,
        }
    }

    /// The next shorter stretch of time, where there is one.
    pub open spec fn spec_newer(self) -> FetchTime {
        match self {
            FetchTime::Today => FetchTime::Today,
            FetchTime::ThreeDaysAgo => FetchTime::Today,
            FetchTime::AWeekAgo => FetchTime::ThreeDaysAgo,
            _ => self,
        }
    }

    /// The hours that the stretch of time lasts; none for a window between
    /// two points in time.
    pub open spec fn spec_hours_before_now(self) -> Option<u16> {
        match self {
            FetchTime::Today => Some(24u16),
            FetchTime::ThreeDaysAgo => Some(72u16),
            FetchTime::AWeekAgo => Some(168u16),
            FetchTime::SpecificWindow { .. } => None,
        }
    }

    /// The next longer stretch of time, where there is one.
    pub fn older(&self) -> (r: FetchTime)
        ensures
            r == self.spec_older(),
    {
        match self {
            FetchTime::Today => FetchTime::ThreeDaysAgo,
            FetchTime::ThreeDaysAgo => FetchTime::AWeekAgo,
            FetchTime::AWeekAgo => FetchTime::AWeekAgo,
            _ => *self,
        }
    }

    /// The next shorter stretch of time, where there is one.
    pub fn newer(&self) -> (r: FetchTime)
        ensures
            r == self.spec_newer(),
    {
        match self {
            FetchTime::Today => FetchTime::Today,
            FetchTime::ThreeDaysAgo => FetchTime::Today,
            FetchTime::AWeekAgo => FetchTime::ThreeDaysAgo,
            _ => *self,
        }
    }

    /// The hours that the stretch of time lasts; none for a window between
    /// two points in time.
    pub fn hours_before_now(&self) -> (r: Option<u16>)
        ensures
            r == self.spec_hours_before_now(),
    {
        match self {
            FetchTime::Today => Some(24),
            FetchTime::ThreeDaysAgo => Some(24 * 3),
            FetchTime::AWeekAgo => Some(24 * 7),
            FetchTime::SpecificWindow { .. } => None,
        }
    }
}

/// A key of the keyboard.
#[derive(Clone, Copy, Debug, PartialEq, Eq, Structural)]
pub enum Key {
    Char(char),
    Enter,
    Down,
    Up,
    Other,
}

/// What the session asks of its surroundings after a key.
#[derive(Debug, PartialEq, Eq)]
pub enum Action {
    /// Nothing: go on.
    Continue,
    /// To end.
    Quit,
    /// To run `find` with these arguments and hand its output to
    /// `App::show_logs`.
    FindLogs(Vec<String>),
    /// To read the file at this path and hand its text to `App::show_file`.
    ReadFile(String),
}

/// Why a key could not be obeyed.
#[derive(Clone, Copy, Debug, PartialEq, Eq, Structural)]
pub enum AppError {
    /// No row is highlighted.
    NoHighlight,
}

/// The session.
pub struct App {
    pub cli: Cli,
    pub display_state: DisplayState,
    /// The screen to come back to from the viewer.
    pub cached_display: Option<DisplayState>,
    pub highlighted: Option<usize>,
    pub cached_highlight: Option<usize>,
    pub popup: Option<MyPopup>,
    pub fetch_time: FetchTime,
}

/// The keys of the list of jobs.
pub const DESCRIPTION_JOB: &'static str =
    "[q]uit [t]oggle_refresh [l]ogs [f]inished [r]unning [a]ll [s]eff [o]lder [n]ewer";

/// The keys of the list of log files.
pub const DESCRIPTION_LOG: &'static str = "[q]uit [v]iew";

/// The row that a move by `offset` rows leads to from row `highlighted`,
/// among the rows from `skip` to `rows`: past the last row comes the first
/// and before the first the last.
pub open spec fn offset_index(highlighted: int, offset: int, rows: int, skip: int) -> int {
    skip + (highlighted - skip + offset) % (rows - skip)
}

/// Moving the highlight keeps it among the rows and goes round them: the
/// row reached lies from `skip` to `rows`, two moves reach what one move by
/// their sum reaches, and a move by as many rows as there are comes back to
/// where it began.
pub proof fn lemma_offset_index(highlighted: int, a: int, b: int, rows: int, skip: int)
    requires
        0 <= skip <= highlighted < rows,
    ensures
        skip <= offset_index(highlighted, a, rows, skip) < rows,
        offset_index(offset_index(highlighted, a, rows, skip), b, rows, skip) == offset_index(
            highlighted,
            a + b,
            rows,
            skip,
        ),
        offset_index(highlighted, rows - skip, rows, skip) == highlighted,
        offset_index(highlighted, 0, rows, skip) == highlighted,
{
    let m = rows - skip;
    let from = highlighted - skip;
    vstd::arithmetic::div_mod::lemma_mod_bound(from + a, m);
    vstd::arithmetic::div_mod::lemma_add_mod_noop(from + a, b, m);
    vstd::arithmetic::div_mod::lemma_mod_twice(from + a, m);
    vstd::arithmetic::div_mod::lemma_add_mod_noop((from + a) % m, b, m);
    vstd::arithmetic::div_mod::lemma_mod_add_multiples_vanish(from, m);
    vstd::arithmetic::div_mod::lemma_small_mod(from as nat, m as nat);
}

/// Whether `highlighted` is a row that the screen `state` can highlight:
/// in the list of jobs any row but the first, which holds the titles; in
/// the list of log files any row. A viewer is to have a window that it can
/// scroll by pages.
pub open spec fn screen_ok(state: DisplayState, highlighted: Option<usize>) -> bool {
    match state {
        DisplayState::Jobs(info) => info.wf() && (highlighted matches Some(h) ==> 1 <= h
            < info.job_display.len()),
        DisplayState::Logs(logs) => highlighted matches Some(h) ==> h < logs.len(),
        DisplayState::Editor(editor) => editor.wf(),
        DisplayState::Empty => true,
    }
}

/// The row that is highlighted after a refresh with `rows` rows: the one
/// that was, where the list of jobs was shown and still has that row, else
/// the first below the titles, if there is one.
pub open spec fn highlight_after_fetch(
    state: DisplayState,
    highlighted: Option<usize>,
    rows: nat,
) -> Option<usize> {
    if state is Jobs && highlighted is Some && 1 <= highlighted->Some_0 < rows {
        highlighted
    } else if rows >= 2 {
        Some(1usize)
    } else {
        None
    }
}

impl JobQueryInfo {
    /// The list after the key `c`: `t` turns the steady refresh on or off,
    /// `f`, `r` and `a` choose which jobs are kept, `s` shows the
    /// efficiencies, `o` and `n` ask for a refresh.
    pub open spec fn after_key(self, c: char) -> JobQueryInfo {
        if c == 'o' || c == 'n' {
            JobQueryInfo { changed: true, ..self }
        } else if c == 't' {
            JobQueryInfo { refresh: !self.refresh, ..self }
        } else if c == 'f' {
            JobQueryInfo { time: JobTime::Finished, changed: true, ..self }
        } else if c == 'r' {
            JobQueryInfo { time: JobTime::Running, changed: true, ..self }
        } else if c == 's' {
            JobQueryInfo { efficiency_display: true, ..self }
        } else if c == 'a' {
            JobQueryInfo { time: JobTime::All, changed: true, ..self }
        } else {
            self
        }
    }
}

impl FetchTime {
    /// The stretch of time after the key `c` in the list of jobs: `o`
    /// lengthens it, `n` shortens it.
    pub open spec fn after_key(self, c: char) -> FetchTime {
        if c == 'o' {
            self.spec_older()
        } else if c == 'n' {
            self.spec_newer()
        } else {
            self
        }
    }
}

impl App {
    /// Whether the highlighted row is one that the screen can highlight
    /// and a viewer's window one that it can scroll, and so for the screen
    /// to come back to.
    pub open spec fn wf(self) -> bool {
        &&& screen_ok(self.display_state, self.highlighted)
        &&& self.cached_display matches Some(state) ==> screen_ok(state, self.cached_highlight)
    }

    /// Whether the key `q` ends the session: it does in the list of jobs
    /// and before there is one.
    pub open spec fn quits(self) -> bool {
        self.display_state is Jobs || self.display_state is Empty
    }

    /// The session after the key `q`: from the list of log files and from
    /// the viewer, the screen to come back to with its highlighted row, or
    /// the empty screen where there is none to come back to.
    pub open spec fn after_quit(self) -> App {
        if self.quits() {
            self
        } else {
            match self.cached_display {
                Some(cached) => App {
                    highlighted: self.cached_highlight,
                    cached_highlight: None,
                    display_state: cached,
                    cached_display: None,
                    ..self
                },
                None => App { display_state: DisplayState::Empty, ..self },
            }
        }
    }

    /// The session with the highlight moved by `offset` among the rows
    /// from `num_skip_line` to `num_results`, if a row is highlighted.
    pub open spec fn with_offset(self, offset: int, num_results: int, num_skip_line: int) -> App {
        match self.highlighted {
            Some(h) => App {
                highlighted: Some(
                    offset_index(h as int, offset, num_results, num_skip_line) as usize,
                ),
                ..self
            },
            None => self,
        }
    }

    /// The session with the highlight moved by `offset` rows: in the list
    /// of jobs among the rows below the titles, in the list of log files
    /// among all rows.
    pub open spec fn moved(self, offset: int) -> App {
        match self.display_state {
            DisplayState::Jobs(info) => self.with_offset(offset, info.job_display.len() as int, 1),
            DisplayState::Logs(logs) => self.with_offset(offset, logs.len() as int, 0),
            _ => self,
        }
    }

    /// A session that shows nothing yet.
    pub fn new(cli: Cli) -> (r: App)
        ensures
            r.wf(),
            r.cli == cli,
            r.display_state is Empty,
            r.cached_display is None,
            r.highlighted is None,
            r.cached_highlight is None,
            r.popup is None,
            r.fetch_time == FetchTime::Today,
    {
        App {
            cli,
            cached_display: None,
            highlighted: None,
            cached_highlight: None,
            popup: None,
            display_state: DisplayState::Empty,
            fetch_time: FetchTime::Today,
        }
    }

    /// The highlighted row.
    pub fn get_highlighted_i(&self) -> (r: Result<usize, AppError>)
        ensures
            r == match self.highlighted {
                Some(h) => Ok::<usize, AppError>(h),
                None => Err::<usize, AppError>(AppError::NoHighlight),
            },
    {
        match self.highlighted {
            Some(h) => Ok(h),
            None => Err(AppError::NoHighlight),
        }
    }

    /// Obeys the key `q`; tells whether the session ends.
    pub fn send_quit(&mut self) -> (r: bool)
        requires
            old(self).wf(),
        ensures
            final(self).wf(),
            *final(self) == old(self).after_quit(),
            r == old(self).quits(),
    {
        match self.display_state {
            DisplayState::Logs(_) | DisplayState::Editor(_) => {
                if let Some(cached) = self.cached_display.take() {
                    self.highlighted = self.cached_highlight;
                    self.cached_highlight = None;
                    self.display_state = cached;
                    self.cached_display = None;
                } else {
                    self.display_state = DisplayState::Empty;
                }
                false
            },
            DisplayState::Jobs(_) | DisplayState::Empty => true,
        }
    }

    /// Moves the highlight by `offset` among the rows from `num_skip_line`
    /// to `num_results`. A row among them must be highlighted.
    pub fn offset_highlighted_with_params(
        &mut self,
        offset: i32,
        num_results: usize,
        num_skip_line: i32,
    )
        requires
            0 <= num_skip_line,
            old(self).highlighted matches Some(h) && num_skip_line <= h < num_results,
        ensures
            *final(self) == old(self).with_offset(
                offset as int,
                num_results as int,
                num_skip_line as int,
            ),
            final(self).highlighted matches Some(h) && num_skip_line <= h < num_results,
    {
        let highlighted_i = self.highlighted.unwrap();
        let skip: u128 = num_skip_line as u128;
        let rows: u128 = num_results as u128 - skip;
        let from: u128 = highlighted_i as u128 - skip;
        let to: u128 = if offset >= 0 {
            let by: u128 = (offset as u128) % rows;
            proof {
                vstd::arithmetic::div_mod::lemma_add_mod_noop_right(
                    from as int,
                    offset as int,
                    rows as int,
                );
            }
            (from + by) % rows
        } else {
            let by: u128 = ((-(offset as i64)) as u128) % rows;
            proof {
                vstd::arithmetic::div_mod::lemma_sub_mod_noop_right(
                    from as int,
                    -(offset as int),
                    rows as int,
                );
                vstd::arithmetic::div_mod::lemma_mod_add_multiples_vanish(
                    from as int - by as int,
                    rows as int,
                );
            }
            (from + rows - by) % rows
        };
        proof {
            vstd::arithmetic::div_mod::lemma_mod_pos_bound((from + rows) as int, rows as int);
        }
        assert(to == (highlighted_i - num_skip_line + offset) % (num_results - num_skip_line));
        let new_value: usize = (to + skip) as usize;
        self.highlighted = Some(new_value);
    }

    /// Whether the highlight can move: a row is highlighted, and the
    /// screen is a list.
    pub open spec fn can_move(self) -> bool {
        self.highlighted is Some && !(self.display_state is Editor)
    }

    /// Moves the highlight by `offset` rows.
    pub fn offset_highlighted(&mut self, offset: i32)
        requires
            old(self).wf(),
            old(self).can_move(),
        ensures
            final(self).wf(),
            *final(self) == old(self).moved(offset as int),
    {
        match &self.display_state {
            DisplayState::Jobs(job_info) => {
                let num_skip_line: i32 = 1;
                let num_results = job_info.job_display.len();
                self.offset_highlighted_with_params(offset, num_results, num_skip_line);
            },
            DisplayState::Logs(strings) => {
                let num_results = strings.len();
                let num_skip_line: i32 = 0;
                self.offset_highlighted_with_params(offset, num_results, num_skip_line);
            },
            DisplayState::Editor(_) => {},
            DisplayState::Empty => {},
        }
    }

    /// Moves the highlight up by a row.
    pub fn decrease_highlighted(&mut self)
        requires
            old(self).wf(),
            old(self).can_move(),
        ensures
            final(self).wf(),
            *final(self) == old(self).moved(-1),
    {
        self.offset_highlighted(-1)
    }

    /// Moves the highlight down by a row.
    pub fn increase_highlighted(&mut self)
        requires
            old(self).wf(),
            old(self).can_move(),
        ensures
            final(self).wf(),
            *final(self) == old(self).moved(1),
    {
        self.offset_highlighted(1)
    }
}

/// The text of the notice that no log file was found.
pub const NO_LOG_FILE: &'static str = "No log file found.";

impl App {
    /// Whether the session `after` and the answer `r` are what the key `c`
    /// makes of the session `self`.
    ///
    /// `q` leaves a screen or ends the session. In the viewer every other
    /// key goes to the viewer, which moves its cursor or its window and
    /// keeps its text. In the list of jobs
    /// `l` asks for the log files of the highlighted row's job, `j` and `k`
    /// move the highlight, and the other keys change what the list shows.
    /// In the list of log files `v` asks for the highlighted file's text,
    /// and `j` and `k` move the highlight.
    pub open spec fn char_step(self, c: char, after: App, r: Result<Action, AppError>) -> bool {
        if c == 'q' {
            &&& after == self.after_quit()
            &&& r == Ok::<Action, AppError>(
                if self.quits() {
                    Action::Quit
                } else {
                    Action::Continue
                },
            )
        } else {
            match self.display_state {
                DisplayState::Editor(editor) => {
                    &&& r == Ok::<Action, AppError>(Action::Continue)
                    &&& after.display_state matches DisplayState::Editor(shown)
                    &&& editor.sent(c, shown)
                    &&& after == (App { display_state: after.display_state, ..self })
                },
                DisplayState::Empty => {
                    &&& r == Ok::<Action, AppError>(Action::Continue)
                    &&& after == self
                },
                DisplayState::Jobs(info) => {
                    if c == 'l' {
                        &&& after == self
                        &&& match self.highlighted {
                            Some(h) => r matches Ok(Action::FindLogs(args)) && texts(args@)
                                == find_arguments(
                                info.job_display[h as int].workdir@,
                                info.job_display[h as int].job_id@,
                            ),
                            None => r == Err::<Action, AppError>(AppError::NoHighlight),
                        }
                    } else if c == 'j' {
                        &&& r == Ok::<Action, AppError>(Action::Continue)
                        &&& after == self.moved(1)
                    } else if c == 'k' {
                        &&& r == Ok::<Action, AppError>(Action::Continue)
                        &&& after == self.moved(-1)
                    } else {
                        &&& r == Ok::<Action, AppError>(Action::Continue)
                        &&& after == (App {
                            display_state: DisplayState::Jobs(info.after_key(c)),
                            fetch_time: self.fetch_time.after_key(c),
                            ..self
                        })
                    }
                },
                DisplayState::Logs(logs) => {
                    if c == 'v' {
                        &&& after == self
                        &&& match self.highlighted {
                            Some(h) => r matches Ok(Action::ReadFile(path)) && path@
                                == logs[h as int]@,
                            None => r == Err::<Action, AppError>(AppError::NoHighlight),
                        }
                    } else if c == 'j' {
                        &&& r == Ok::<Action, AppError>(Action::Continue)
                        &&& after == self.moved(1)
                    } else if c == 'k' {
                        &&& r == Ok::<Action, AppError>(Action::Continue)
                        &&& after == self.moved(-1)
                    } else {
                        &&& r == Ok::<Action, AppError>(Action::Continue)
                        &&& after == self
                    }
                },
            }
        }
    }

    /// Whether the session `after` and the answer `r` are what the key
    /// `key` makes of the session `self`: while a notice is shown, any key
    /// takes the notice away and does nothing else; the enter key stands
    /// for `l` in the list of jobs and for `v` in the list of log files;
    /// the arrows move the highlight.
    pub open spec fn key_step(self, key: Key, after: App, r: Result<Action, AppError>) -> bool {
        if self.popup is Some {
            &&& r == Ok::<Action, AppError>(Action::Continue)
            &&& after == (App { popup: None, ..self })
        } else {
            match key {
                Key::Char(c) => self.char_step(c, after, r),
                Key::Enter => match self.display_state {
                    DisplayState::Jobs(_) => self.char_step('l', after, r),
                    DisplayState::Logs(_) => self.char_step('v', after, r),
                    _ => r == Ok::<Action, AppError>(Action::Continue) && after == self,
                },
                Key::Down => r == Ok::<Action, AppError>(Action::Continue) && after == self.moved(1),
                Key::Up => r == Ok::<Action, AppError>(Action::Continue) && after == self.moved(-1),
                Key::Other => r == Ok::<Action, AppError>(Action::Continue) && after == self,
            }
        }
    }

    /// Whether the session can obey `key`: the arrows move no highlight in
    /// the viewer. Where no row is highlighted they move none either, but
    /// that is no fault.
    pub open spec fn accepts(self, key: Key) -> bool {
        !(self.popup is None && self.display_state is Editor && (key is Down || key is Up))
    }

    /// Obeys the key `c_sent`.
    pub fn send_char(&mut self, c_sent: char) -> (r: Result<Action, AppError>)
        requires
            old(self).wf(),
        ensures
            final(self).wf(),
            old(self).char_step(c_sent, *final(self), r),
    {
        if c_sent == 'q' {
            return Ok(
                if self.send_quit() {
                    Action::Quit
                } else {
                    Action::Continue
                },
            );
        }
        let res_highlighted_i = self.get_highlighted_i();
        match &mut self.display_state {
            DisplayState::Editor(editor) => {
                editor.send_char(c_sent);
                Ok(Action::Continue)
            },
            DisplayState::Empty => Ok(Action::Continue),
            DisplayState::Jobs(job_info) => {
                if c_sent == 'l' {
                    match res_highlighted_i {
                        Ok(i) => {
                            let job_fields = &job_info.job_display[i];
                            Ok(
                                Action::FindLogs(
                                    find_args(
                                        job_fields.workdir.as_str(),
                                        job_fields.job_id.as_str(),
                                    ),
                                ),
                            )
                        },
                        Err(e) => Err(e),
                    }
                } else if c_sent == 'j' {
                    if res_highlighted_i.is_ok() {
                        self.increase_highlighted();
                    }
                    Ok(Action::Continue)
                } else if c_sent == 'k' {
                    if res_highlighted_i.is_ok() {
                        self.decrease_highlighted();
                    }
                    Ok(Action::Continue)
                } else {
                    if c_sent == 'o' {
                        self.fetch_time = self.fetch_time.older();
                        job_info.changed = true;
                    } else if c_sent == 'n' {
                        self.fetch_time = self.fetch_time.newer();
                        job_info.changed = true;
                    } else if c_sent == 't' {
                        job_info.refresh = !job_info.refresh;
                    } else if c_sent == 'f' {
                        job_info.time = JobTime::Finished;
                        job_info.changed = true;
                    } else if c_sent == 'r' {
                        job_info.time = JobTime::Running;
                        job_info.changed = true;
                    } else if c_sent == 's' {
                        job_info.efficiency_display = true;
                    } else if c_sent == 'a' {
                        job_info.time = JobTime::All;
                        job_info.changed = true;
                    }
                    Ok(Action::Continue)
                }
            },
            DisplayState::Logs(logs) => {
                if c_sent == 'v' {
                    match res_highlighted_i {
                        Ok(i) => Ok(Action::ReadFile(logs[i].clone())),
                        Err(e) => Err(e),
                    }
                } else if c_sent == 'j' {
                    if res_highlighted_i.is_ok() {
                        self.increase_highlighted();
                    }
                    Ok(Action::Continue)
                } else if c_sent == 'k' {
                    if res_highlighted_i.is_ok() {
                        self.decrease_highlighted();
                    }
                    Ok(Action::Continue)
                } else {
                    Ok(Action::Continue)
                }
            },
        }
    }

    /// Obeys the enter key.
    pub fn send_enter(&mut self) -> (r: Result<Action, AppError>)
        requires
            old(self).wf(),
        ensures
            final(self).wf(),
            match old(self).display_state {
                DisplayState::Jobs(_) => old(self).char_step('l', *final(self), r),
                DisplayState::Logs(_) => old(self).char_step('v', *final(self), r),
                _ => r == Ok::<Action, AppError>(Action::Continue) && *final(self) == *old(self),
            },
    {
        match self.display_state {
            DisplayState::Empty => Ok(Action::Continue),
            DisplayState::Jobs(_) => self.send_char('l'),
            DisplayState::Logs(_) => self.send_char('v'),
            DisplayState::Editor(_) => Ok(Action::Continue),
        }
    }

    /// Obeys a key.
    pub fn send_keycode(&mut self, keycode: Key) -> (r: Result<Action, AppError>)
        requires
            old(self).wf(),
            old(self).accepts(keycode),
        ensures
            final(self).wf(),
            old(self).key_step(keycode, *final(self), r),
    {
        if self.popup.is_some() {
            self.popup = None;
            Ok(Action::Continue)
        } else {
            match keycode {
                Key::Char(c) => self.send_char(c),
                Key::Enter => self.send_enter(),
                Key::Down => {
                    if self.highlighted.is_some() {
                        self.increase_highlighted();
                    }
                    Ok(Action::Continue)
                },
                Key::Up => {
                    if self.highlighted.is_some() {
                        self.decrease_highlighted();
                    }
                    Ok(Action::Continue)
                },
                Key::Other => Ok(Action::Continue),
            }
        }
    }

    /// Takes the output of the search for a job's log files: shows the
    /// list of the files found, its first row highlighted, or, where none
    /// was found, a notice, and the screen stays.
    pub fn show_logs(&mut self, find_result: &str)
        requires
            old(self).wf(),
        ensures
            final(self).wf(),
            if log_lines(find_result@).len() == 0 {
                &&& final(self).popup matches Some(notice)
                &&& notice.popup_text@ == NO_LOG_FILE@
                &&& *final(self) == (App { popup: final(self).popup, ..*old(self) })
            } else {
                &&& final(self).display_state matches DisplayState::Logs(logs)
                &&& texts(logs@) == log_lines(find_result@)
                &&& *final(self) == (App {
                    display_state: final(self).display_state,
                    highlighted: Some(0usize),
                    ..*old(self)
                })
            },
    {
        let logs = fetch_logs(find_result);
        assert(texts(logs@).len() == logs.len());
        if logs.len() == 0 {
            self.popup = Some(MyPopup { popup_text: string_of(NO_LOG_FILE) });
        } else {
            self.highlighted = Some(0);
            self.display_state = DisplayState::Logs(logs);
        }
    }

    /// Takes the text of a log file: shows it in the viewer, and keeps the
    /// screen and its highlighted row to come back to.
    pub fn show_file(&mut self, text: &str)
        requires
            old(self).wf(),
        ensures
            final(self).wf(),
            final(self).display_state matches DisplayState::Editor(editor) && editor.lines()
                == split_on(text@, '\n'),
            *final(self) == (App {
                display_state: final(self).display_state,
                cached_display: Some(old(self).display_state),
                cached_highlight: old(self).highlighted,
                ..*old(self)
            }),
    {
        let mut shown = DisplayState::Editor(Editor::new(text));
        std::mem::swap(&mut self.display_state, &mut shown);
        self.cached_display = Some(shown);
        self.cached_highlight = self.highlighted;
    }

    /// Tells whether a refresh is due, and with which filter: before there
    /// is a list, and where the list is fetched at every turn or a setting
    /// has changed. The change counts as seen.
    pub fn begin_fetch(&mut self) -> (r: Option<JobTime>)
        requires
            old(self).wf(),
        ensures
            final(self).wf(),
            match old(self).display_state {
                DisplayState::Jobs(info) => {
                    &&& r == if info.refresh || info.changed {
                        Some(info.time)
                    } else {
                        None
                    }
                    &&& *final(self) == (App {
                        display_state: DisplayState::Jobs(JobQueryInfo { changed: false, ..info }),
                        ..*old(self)
                    })
                },
                DisplayState::Empty => r == Some(JobTime::All) && *final(self) == *old(self),
                _ => r is None && *final(self) == *old(self),
            },
    {
        match &mut self.display_state {
            DisplayState::Jobs(j_info) => {
                if j_info.refresh || j_info.changed {
                    j_info.changed = false;
                    Some(j_info.time)
                } else {
                    None
                }
            },
            DisplayState::Empty => Some(JobTime::All),
            _ => None,
        }
    }

    /// Shows the list of jobs with the records `new_results`: in the list
    /// that is shown, where one is, else in a new one.
    pub fn update_job_display(&mut self, new_results: Vec<JobFields>)
        ensures
            final(self).display_state matches DisplayState::Jobs(info) && info.job_list
                == new_results && record_views(info.job_display@)
                == crate::job_query_info::folded(record_views(new_results@)) && (all_wf(
                new_results@,
            ) ==> info.wf()) && match old(self).display_state {
                DisplayState::Jobs(before) => info == (JobQueryInfo {
                    job_list: info.job_list,
                    job_display: info.job_display,
                    ..before
                }),
                _ => info.refresh == old(self).cli.refresh && info.time == JobTime::All
                    && !info.changed && !info.efficiency_display,
            },
            *final(self) == (App { display_state: final(self).display_state, ..*old(self) }),
    {
        if let DisplayState::Jobs(job_info) = &mut self.display_state {
            job_info.job_list = new_results;
            job_info.make_display()
        } else {
            let jqi = JobQueryInfo::from_result(new_results, self);
            self.display_state = DisplayState::Jobs(jqi);
        }
    }

    /// The most records that a refresh leaves: as many as the settings say
    /// where the list is `capped`, else all.
    pub open spec fn limit(self, capped: bool) -> Option<u16> {
        if capped {
            Some(self.cli.job_max_display)
        } else {
            None
        }
    }

    /// Takes the accounting tool's answer: makes the list of the refresh,
    /// shows it, and highlights the row that was highlighted or, where
    /// that cannot be, the first below the titles. An answer that cannot
    /// be read leaves the session as it is.
    pub fn fetch_jobs(&mut self, sacct_res: &str, time: &JobTime, capped: bool) -> (r: Result<
        (),
        FetchError,
    >)
        requires
            old(self).wf(),
        ensures
            final(self).wf(),
            match fetched(sacct_res@, *time, old(self).limit(capped)) {
                Err(e) => r == Err::<(), FetchError>(e) && *final(self) == *old(self),
                Ok(jobs) => {
                    &&& r is Ok
                    &&& final(self).display_state matches DisplayState::Jobs(info)
                    &&& record_views(info.job_list@) == jobs
                    &&& match old(self).display_state {
                        DisplayState::Jobs(before) => info == (JobQueryInfo {
                            job_list: info.job_list,
                            job_display: info.job_display,
                            ..before
                        }),
                        _ => info.refresh == old(self).cli.refresh && info.time == JobTime::All
                            && !info.changed && !info.efficiency_display,
                    }
                    &&& *final(self) == (App {
                        display_state: final(self).display_state,
                        highlighted: highlight_after_fetch(
                            old(self).display_state,
                            old(self).highlighted,
                            info.job_display@.len(),
                        ),
                        ..*old(self)
                    })
                },
            },
    {
        let job_max_display = if capped {
            Some(self.cli.job_max_display)
        } else {
            None
        };
        let job_results = match crate::jobs::job_handler::fetch_jobs(
            sacct_res,
            time,
            job_max_display,
        ) {
            Ok(jobs) => jobs,
            Err(e) => {
                return Err(e);
            },
        };
        let was_jobs = matches!(self.display_state, DisplayState::Jobs(_));
        self.update_job_display(job_results);
        let rows = match &self.display_state {
            DisplayState::Jobs(info) => info.job_display.len(),
            _ => 0,
        };
        let keep = match self.highlighted {
            Some(h) => was_jobs && 1 <= h && h < rows,
            None => false,
        };
        if !keep {
            self.highlighted = if rows >= 2 {
                Some(1)
            } else {
                None
            };
        }
        Ok(())
    }
}

} // verus!
