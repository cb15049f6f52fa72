use slurmdash::app::Action;
use slurmdash::app::App;
use slurmdash::app::AppError;
use slurmdash::app::DisplayState;
use slurmdash::app::FetchTime;
use slurmdash::app::Key;
use slurmdash::display::DisplayMode;
use slurmdash::job_query_info::JobTime;
use slurmdash::jobs::job_handler::FetchError;
use slurmdash::jobs::job_parser::JobParseError;
use slurmdash::parser::Cli;
use slurmdash::parser::RunMode;
use slurmdash::ui::build_list;
use slurmdash::ui::Color;
use slurmdash::ui::Colorable;
use slurmdash::ui::LineType;

const HEADER: &str = "JobID|JobName|Partition|Account|AllocCPUS|State|ExitCode|SubmitLine|WorkDir|Submit|ReqMem|MaxRSS|ElapsedRaw|TimelimitRaw|TotalCPU";

fn row(id: &str, day: u32) -> String {
    format!("{id}|n|main|acc|1|COMPLETED|0:0|sbatch a.sh|/work/{id}|2024-03-{day:02}T10:00:00|1G|5K|60|120|00:00:30")
}

fn three_jobs() -> String {
    format!("{HEADER}\n{}\n{}\n{}\n", row("10", 1), row("11", 2), row("12", 3))
}

fn new_app() -> App {
    App::new(Cli {
        from_file: None,
        refresh: false,
        display_mode: DisplayMode::Cpu,
        job_max_display: 30,
        run_mode: RunMode::Slurm,
    })
}

fn app_with_jobs() -> App {
    let mut app = new_app();
    assert_eq!(app.begin_fetch(), Some(JobTime::All));
    app.fetch_jobs(&three_jobs(), &JobTime::All, false).unwrap();
    app
}

fn app_with_logs() -> App {
    let mut app = app_with_jobs();
    app.show_logs("/work/12/slurm-12.out\n/work/12/slurm-12.err\n/work/12/x.log\n");
    app
}

fn display_ids(app: &App) -> Vec<String> {
    match &app.display_state {
        DisplayState::Jobs(info) => info.job_display.iter().map(|j| j.job_id.clone()).collect(),
        _ => panic!("not the list of jobs"),
    }
}

#[test]
fn a_new_session_shows_nothing() {
    let app = new_app();
    assert!(matches!(app.display_state, DisplayState::Empty));
    assert!(app.cached_display.is_none());
    assert_eq!(app.highlighted, None);
    assert_eq!(app.cached_highlight, None);
    assert!(app.popup.is_none());
    assert_eq!(app.fetch_time, FetchTime::Today);
}

#[test]
fn the_first_fetch_highlights_the_first_job() {
    let app = app_with_jobs();
    assert_eq!(display_ids(&app), vec!["JobID", "12", "11", "10"]);
    assert_eq!(app.highlighted, Some(1));
}

#[test]
fn a_list_with_the_header_alone_has_no_highlight() {
    let mut app = new_app();
    app.fetch_jobs(HEADER, &JobTime::All, false).unwrap();
    assert_eq!(display_ids(&app), vec!["JobID"]);
    assert_eq!(app.highlighted, None);
}

#[test]
fn the_highlight_counts_rows_not_records() {
    // two records under the header fold into one row
    let mut app = new_app();
    let text = format!("{HEADER}\n{}\n{}\n", row("5_1", 1), row("5_2", 1));
    app.fetch_jobs(&text, &JobTime::All, false).unwrap();
    assert_eq!(display_ids(&app), vec!["JobID", "5[1-2]"]);
    assert_eq!(app.highlighted, Some(1));
}

#[test]
fn move_down_three_times_wraps_to_where_it_was() {
    // four rows, the first reserved, highlight on row 1
    let mut app = app_with_jobs();
    assert_eq!(app.send_keycode(Key::Down), Ok(Action::Continue));
    assert_eq!(app.highlighted, Some(2));
    assert_eq!(app.send_keycode(Key::Down), Ok(Action::Continue));
    assert_eq!(app.highlighted, Some(3));
    assert_eq!(app.send_keycode(Key::Down), Ok(Action::Continue));
    assert_eq!(app.highlighted, Some(1));
}

#[test]
fn move_up_wraps_to_the_last_row() {
    let mut app = app_with_jobs();
    assert_eq!(app.send_keycode(Key::Up), Ok(Action::Continue));
    assert_eq!(app.highlighted, Some(3));
    assert_eq!(app.send_keycode(Key::Char('k')), Ok(Action::Continue));
    assert_eq!(app.highlighted, Some(2));
    assert_eq!(app.send_keycode(Key::Char('j')), Ok(Action::Continue));
    assert_eq!(app.highlighted, Some(3));
}

#[test]
fn offsets_of_any_size() {
    let mut app = new_app();
    app.highlighted = Some(1);
    app.offset_highlighted_with_params(1, 4, 1);
    assert_eq!(app.highlighted, Some(2));
    app.offset_highlighted_with_params(-1, 4, 1);
    assert_eq!(app.highlighted, Some(1));
    app.offset_highlighted_with_params(-1, 4, 1);
    assert_eq!(app.highlighted, Some(3));
    app.offset_highlighted_with_params(7, 4, 1);
    assert_eq!(app.highlighted, Some(1));
    app.offset_highlighted_with_params(-8, 4, 1);
    assert_eq!(app.highlighted, Some(2));
    app.offset_highlighted_with_params(i32::MAX, 4, 1);
    assert_eq!(app.highlighted, Some(3));
    app.offset_highlighted_with_params(i32::MIN, 4, 1);
    assert_eq!(app.highlighted, Some(1));
    app.highlighted = Some(0);
    app.offset_highlighted_with_params(-1, 3, 0);
    assert_eq!(app.highlighted, Some(2));
    app.offset_highlighted_with_params(1, 3, 0);
    assert_eq!(app.highlighted, Some(0));
    app.highlighted = Some(5);
    app.offset_highlighted_with_params(1, 6, 5);
    assert_eq!(app.highlighted, Some(5));
}

#[test]
fn moving_without_a_list_does_nothing() {
    let mut app = new_app();
    assert_eq!(app.send_keycode(Key::Down), Ok(Action::Continue));
    assert_eq!(app.send_keycode(Key::Char('j')), Ok(Action::Continue));
    assert_eq!(app.highlighted, None);
    assert!(matches!(app.display_state, DisplayState::Empty));
}

#[test]
fn q_ends_the_session_from_the_list_of_jobs() {
    let mut app = app_with_jobs();
    assert_eq!(app.send_keycode(Key::Char('q')), Ok(Action::Quit));
    let mut app = new_app();
    assert_eq!(app.send_keycode(Key::Char('q')), Ok(Action::Quit));
}

#[test]
fn l_asks_for_the_logs_of_the_highlighted_job() {
    let mut app = app_with_jobs();
    app.send_keycode(Key::Down).unwrap();
    let action = app.send_keycode(Key::Char('l')).unwrap();
    assert_eq!(
        action,
        Action::FindLogs(
            ["/work/11", "-maxdepth", "2", "-name", "*11*"].iter().map(|s| s.to_string()).collect()
        )
    );
    assert_eq!(app.highlighted, Some(2));
    assert!(matches!(app.display_state, DisplayState::Jobs(_)));
    // the enter key does the same
    assert_eq!(app.send_keycode(Key::Enter).unwrap(), action);
}

#[test]
fn l_without_a_highlight_is_an_error() {
    let mut app = new_app();
    app.fetch_jobs(HEADER, &JobTime::All, false).unwrap();
    assert_eq!(app.send_keycode(Key::Char('l')), Err(AppError::NoHighlight));
    assert_eq!(app.get_highlighted_i(), Err(AppError::NoHighlight));
}

#[test]
fn logs_found_are_listed() {
    let app = app_with_logs();
    match &app.display_state {
        DisplayState::Logs(logs) => assert_eq!(
            logs,
            &vec![
                "/work/12/slurm-12.out".to_string(),
                "/work/12/slurm-12.err".to_string(),
                "/work/12/x.log".to_string()
            ]
        ),
        _ => panic!("not the list of log files"),
    }
    assert_eq!(app.highlighted, Some(0));
    assert!(app.popup.is_none());
}

#[test]
fn no_logs_found_is_a_notice_and_the_screen_stays() {
    let mut app = app_with_jobs();
    app.send_keycode(Key::Down).unwrap();
    app.show_logs("");
    assert_eq!(app.popup.as_ref().unwrap().popup_text, "No log file found.");
    assert!(matches!(app.display_state, DisplayState::Jobs(_)));
    assert_eq!(app.highlighted, Some(2));
    // any key takes the notice away and does nothing else
    assert_eq!(app.send_keycode(Key::Char('q')), Ok(Action::Continue));
    assert!(app.popup.is_none());
    assert!(matches!(app.display_state, DisplayState::Jobs(_)));
    assert_eq!(app.highlighted, Some(2));
    assert_eq!(app.send_keycode(Key::Char('q')), Ok(Action::Quit));
}

#[test]
fn the_list_of_logs_wraps_over_all_rows() {
    let mut app = app_with_logs();
    app.send_keycode(Key::Up).unwrap();
    assert_eq!(app.highlighted, Some(2));
    app.send_keycode(Key::Down).unwrap();
    assert_eq!(app.highlighted, Some(0));
    app.send_keycode(Key::Char('j')).unwrap();
    assert_eq!(app.highlighted, Some(1));
}

#[test]
fn v_asks_for_the_highlighted_file() {
    let mut app = app_with_logs();
    app.send_keycode(Key::Down).unwrap();
    assert_eq!(
        app.send_keycode(Key::Char('v')),
        Ok(Action::ReadFile("/work/12/slurm-12.err".to_string()))
    );
    assert_eq!(
        app.send_keycode(Key::Enter),
        Ok(Action::ReadFile("/work/12/slurm-12.err".to_string()))
    );
    assert!(matches!(app.display_state, DisplayState::Logs(_)));
}

#[test]
fn the_viewer_comes_back_to_the_list_of_logs() {
    let mut app = app_with_logs();
    app.send_keycode(Key::Down).unwrap();
    app.send_keycode(Key::Down).unwrap();
    app.show_file("first line\nsecond line\n");
    match &app.display_state {
        DisplayState::Editor(editor) => {
            assert_eq!(editor.textarea.lines(), ["first line", "second line", ""])
        }
        _ => panic!("not the viewer"),
    }
    assert_eq!(app.cached_highlight, Some(2));
    // keys go to the viewer
    assert_eq!(app.send_keycode(Key::Char('j')), Ok(Action::Continue));
    assert_eq!(app.send_keycode(Key::Char('l')), Ok(Action::Continue));
    assert_eq!(app.send_keycode(Key::Enter), Ok(Action::Continue));
    assert!(matches!(app.display_state, DisplayState::Editor(_)));
    match &app.display_state {
        DisplayState::Editor(editor) => assert_eq!(editor.textarea.cursor(), (1, 1)),
        _ => panic!("not the viewer"),
    }
    // q comes back
    assert_eq!(app.send_keycode(Key::Char('q')), Ok(Action::Continue));
    match &app.display_state {
        DisplayState::Logs(logs) => assert_eq!(logs.len(), 3),
        _ => panic!("not the list of log files"),
    }
    assert_eq!(app.highlighted, Some(2));
    assert_eq!(app.cached_highlight, None);
    assert!(app.cached_display.is_none());
}

#[test]
fn q_in_the_list_of_logs_leaves_to_the_empty_screen() {
    let mut app = app_with_logs();
    assert_eq!(app.send_keycode(Key::Char('q')), Ok(Action::Continue));
    assert!(matches!(app.display_state, DisplayState::Empty));
    // and the next turn fetches again
    assert_eq!(app.begin_fetch(), Some(JobTime::All));
}

#[test]
fn keys_that_change_the_list() {
    let mut app = app_with_jobs();
    let flags = |app: &App| match &app.display_state {
        DisplayState::Jobs(info) => (info.refresh, info.time, info.changed, info.efficiency_display),
        _ => panic!("not the list of jobs"),
    };
    assert_eq!(flags(&app), (false, JobTime::All, false, false));
    assert_eq!(app.begin_fetch(), None);
    app.send_keycode(Key::Char('f')).unwrap();
    assert_eq!(flags(&app), (false, JobTime::Finished, true, false));
    assert_eq!(app.begin_fetch(), Some(JobTime::Finished));
    assert_eq!(flags(&app), (false, JobTime::Finished, false, false));
    assert_eq!(app.begin_fetch(), None);
    app.send_keycode(Key::Char('r')).unwrap();
    assert_eq!(flags(&app), (false, JobTime::Running, true, false));
    app.send_keycode(Key::Char('a')).unwrap();
    assert_eq!(flags(&app), (false, JobTime::All, true, false));
    app.begin_fetch();
    app.send_keycode(Key::Char('s')).unwrap();
    assert_eq!(flags(&app), (false, JobTime::All, false, true));
    app.send_keycode(Key::Char('t')).unwrap();
    assert_eq!(flags(&app), (true, JobTime::All, false, true));
    assert_eq!(app.begin_fetch(), Some(JobTime::All));
    assert_eq!(app.begin_fetch(), Some(JobTime::All));
    app.send_keycode(Key::Char('t')).unwrap();
    assert_eq!(flags(&app), (false, JobTime::All, false, true));
    app.send_keycode(Key::Char('o')).unwrap();
    assert_eq!(app.fetch_time, FetchTime::ThreeDaysAgo);
    assert_eq!(flags(&app), (false, JobTime::All, true, true));
    app.send_keycode(Key::Char('o')).unwrap();
    assert_eq!(app.fetch_time, FetchTime::AWeekAgo);
    app.send_keycode(Key::Char('n')).unwrap();
    assert_eq!(app.fetch_time, FetchTime::ThreeDaysAgo);
    app.send_keycode(Key::Char('x')).unwrap();
    app.send_keycode(Key::Other).unwrap();
    assert_eq!(flags(&app), (false, JobTime::All, true, true));
    assert_eq!(app.highlighted, Some(1));
}

#[test]
fn a_refresh_keeps_the_highlight_where_it_can() {
    let mut app = app_with_jobs();
    app.send_keycode(Key::Down).unwrap();
    app.send_keycode(Key::Down).unwrap();
    assert_eq!(app.highlighted, Some(3));
    app.send_keycode(Key::Char('s')).unwrap();
    app.fetch_jobs(&three_jobs(), &JobTime::All, false).unwrap();
    assert_eq!(app.highlighted, Some(3));
    // the settings of the list stay
    match &app.display_state {
        DisplayState::Jobs(info) => assert!(info.efficiency_display),
        _ => panic!("not the list of jobs"),
    }
    // a shorter list cannot keep it
    let shorter = format!("{HEADER}\n{}\n{}\n", row("10", 1), row("11", 2));
    app.fetch_jobs(&shorter, &JobTime::All, false).unwrap();
    assert_eq!(app.highlighted, Some(1));
    app.fetch_jobs(HEADER, &JobTime::All, false).unwrap();
    assert_eq!(app.highlighted, None);
    app.fetch_jobs(&three_jobs(), &JobTime::All, false).unwrap();
    assert_eq!(app.highlighted, Some(1));
}

#[test]
fn an_answer_that_cannot_be_read_changes_nothing() {
    let mut app = app_with_jobs();
    app.send_keycode(Key::Down).unwrap();
    assert_eq!(
        app.fetch_jobs("nonsense", &JobTime::All, false),
        Err(FetchError::Parse(JobParseError::ColumnCountMismatch))
    );
    assert_eq!(display_ids(&app), vec!["JobID", "12", "11", "10"]);
    assert_eq!(app.highlighted, Some(2));
}

#[test]
fn no_fetch_is_due_behind_the_list_of_jobs() {
    let mut app = app_with_logs();
    assert_eq!(app.begin_fetch(), None);
    app.show_file("text");
    assert_eq!(app.begin_fetch(), None);
}

#[test]
fn enter_does_nothing_on_the_empty_screen() {
    let mut app = new_app();
    assert_eq!(app.send_enter(), Ok(Action::Continue));
    assert!(matches!(app.display_state, DisplayState::Empty));
}

#[test]
fn rows_and_their_colours() {
    assert_eq!(
        build_list(3, Some(1)),
        vec![LineType::Normal, LineType::Highlighted, LineType::Normal]
    );
    assert_eq!(build_list(2, None), vec![LineType::Normal, LineType::Normal]);
    assert_eq!(build_list(2, Some(7)), vec![LineType::Normal, LineType::Normal]);
    assert_eq!(build_list(0, Some(0)), vec![]);
    assert_eq!(LineType::Normal.to_color(), Color::Black);
    assert_eq!(LineType::Highlighted.to_color(), Color::DarkGray);
}
