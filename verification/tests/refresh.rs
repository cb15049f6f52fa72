use slurmdash::app::FetchTime;
use slurmdash::job_query_info::JobTime;
use slurmdash::jobs::job_handler::fetch_jobs;
use slurmdash::jobs::job_handler::find_args;
use slurmdash::jobs::job_handler::keeps_state;
use slurmdash::jobs::job_handler::refresh;
use slurmdash::jobs::job_handler::sacct_args;
use slurmdash::jobs::job_handler::update_max_rss;
use slurmdash::jobs::job_handler::FetchError;
use slurmdash::jobs::job_parser::JobFields;
use slurmdash::jobs::job_parser::JobParseError;
use slurmdash::jobs::job_parser::JobState;
use slurmdash::jobs::job_parser::NumberOrCol;
use slurmdash::jobs::newest_first::is_not_earlier;
use slurmdash::jobs::newest_first::sort_newest_first;
use slurmdash::jobs::submit_time::SubmitTime;

fn at(day: u32, hour: u32) -> Option<SubmitTime> {
    Some(SubmitTime { year: 2024, month: 3, day, hour, minute: 0, second: 0, nanosecond: 0 })
}

fn job(id: &str, state: JobState, submit: Option<SubmitTime>) -> JobFields {
    JobFields {
        job_id: id.to_string(),
        job_name: "n".to_string(),
        partition: "main".to_string(),
        account: "acc".to_string(),
        alloc_cpus: NumberOrCol::Value(1),
        state,
        exit_code: "0:0".to_string(),
        submit_line: "sbatch run.sh".to_string(),
        workdir: "/home/me".to_string(),
        submit,
        reqmem: NumberOrCol::Value(100),
        maxrss: NumberOrCol::Value(0),
        elapsed: NumberOrCol::Value(1),
        time_limit: NumberOrCol::Value(1),
        cpu_time_raw: NumberOrCol::Value(1),
    }
}

fn header() -> JobFields {
    let mut h = job("JobID", JobState::Header, None);
    h.partition = "Partition".to_string();
    h.maxrss = NumberOrCol::Col("MaxRSS".to_string());
    h
}

fn ids(jobs: &[JobFields]) -> Vec<String> {
    jobs.iter().map(|j| j.job_id.clone()).collect()
}

fn four_states() -> Vec<JobFields> {
    vec![
        header(),
        job("1", JobState::Running, at(1, 0)),
        job("2", JobState::Completed, at(1, 0)),
        job("3", JobState::Pending, at(1, 0)),
    ]
}

#[test]
fn filter_running_keeps_header_and_running() {
    let list = refresh(&four_states(), &JobTime::Running, None).unwrap();
    assert_eq!(ids(&list), vec!["JobID", "1"]);
}

#[test]
fn filter_finished_keeps_all_but_running() {
    let list = refresh(&four_states(), &JobTime::Finished, None).unwrap();
    assert_eq!(ids(&list), vec!["JobID", "2", "3"]);
}

#[test]
fn filter_all_keeps_all() {
    let list = refresh(&four_states(), &JobTime::All, None).unwrap();
    assert_eq!(ids(&list), vec!["JobID", "1", "2", "3"]);
}

#[test]
fn keeps_state_table() {
    let cancelled = JobState::Cancelled("CANCELLED".to_string());
    assert!(keeps_state(&JobTime::Running, &JobState::Running));
    assert!(keeps_state(&JobTime::Running, &JobState::Header));
    assert!(!keeps_state(&JobTime::Running, &JobState::Completed));
    assert!(!keeps_state(&JobTime::Running, &cancelled));
    assert!(!keeps_state(&JobTime::Finished, &JobState::Running));
    assert!(keeps_state(&JobTime::Finished, &JobState::Header));
    assert!(keeps_state(&JobTime::Finished, &JobState::Failed));
    assert!(keeps_state(&JobTime::Finished, &cancelled));
    assert!(keeps_state(&JobTime::All, &JobState::Running));
    assert!(keeps_state(&JobTime::All, &JobState::Unknown("x".to_string())));
}

#[test]
fn newest_come_first_behind_the_header() {
    // T3 > T1 > T2
    let all = vec![
        header(),
        job("t1", JobState::Completed, at(2, 0)),
        job("t2", JobState::Completed, at(1, 0)),
        job("t3", JobState::Completed, at(3, 0)),
    ];
    let list = refresh(&all, &JobTime::All, None).unwrap();
    assert_eq!(ids(&list), vec!["JobID", "t3", "t1", "t2"]);
}

#[test]
fn the_first_record_stays_first_whatever_its_time() {
    let all = vec![
        job("first", JobState::Completed, at(1, 0)),
        job("b", JobState::Completed, at(5, 0)),
        job("c", JobState::Completed, at(9, 0)),
    ];
    let list = refresh(&all, &JobTime::All, None).unwrap();
    assert_eq!(ids(&list), vec!["first", "c", "b"]);
}

#[test]
fn equal_times_keep_their_order() {
    let all = vec![
        header(),
        job("a", JobState::Completed, at(2, 0)),
        job("b", JobState::Completed, at(3, 0)),
        job("c", JobState::Completed, at(2, 0)),
        job("d", JobState::Completed, at(3, 0)),
        job("e", JobState::Completed, at(2, 0)),
    ];
    let list = refresh(&all, &JobTime::All, None).unwrap();
    assert_eq!(ids(&list), vec!["JobID", "b", "d", "a", "c", "e"]);
}

#[test]
fn records_without_a_time_come_last() {
    let all = vec![
        header(),
        job("none", JobState::Completed, None),
        job("old", JobState::Completed, at(1, 0)),
        job("new", JobState::Completed, at(2, 0)),
    ];
    let list = refresh(&all, &JobTime::All, None).unwrap();
    assert_eq!(ids(&list), vec!["JobID", "new", "old", "none"]);
}

#[test]
fn sort_from_a_place_on() {
    let all = vec![
        job("a", JobState::Completed, at(1, 0)),
        job("b", JobState::Completed, at(2, 0)),
        job("c", JobState::Completed, at(3, 0)),
    ];
    assert_eq!(ids(&sort_newest_first(&all, 0)), vec!["c", "b", "a"]);
    assert_eq!(ids(&sort_newest_first(&all, 1)), vec!["c", "b"]);
    assert_eq!(ids(&sort_newest_first(&all, 3)), Vec::<String>::new());
}

#[test]
fn order_of_submission_times() {
    let t = |month, day, hour, minute, second, nanosecond| {
        Some(SubmitTime { year: 2024, month, day, hour, minute, second, nanosecond })
    };
    let a = t(3, 5, 10, 20, 30, 0);
    assert!(is_not_earlier(&a, &a));
    assert!(is_not_earlier(&a, &None));
    assert!(!is_not_earlier(&None, &a));
    assert!(is_not_earlier(&None, &None));
    for later in [
        t(4, 1, 0, 0, 0, 0),
        t(3, 6, 0, 0, 0, 0),
        t(3, 5, 11, 0, 0, 0),
        t(3, 5, 10, 21, 0, 0),
        t(3, 5, 10, 20, 31, 0),
        t(3, 5, 10, 20, 30, 1),
        Some(SubmitTime {
            year: 2025,
            month: 1,
            day: 1,
            hour: 0,
            minute: 0,
            second: 0,
            nanosecond: 0,
        }),
    ] {
        assert!(is_not_earlier(&later, &a));
        assert!(!is_not_earlier(&a, &later));
        assert!(a.unwrap().is_earlier(&later.unwrap()));
        assert!(!later.unwrap().is_earlier(&a.unwrap()));
    }
}

#[test]
fn a_limit_keeps_the_header_and_the_newest() {
    let all = vec![
        header(),
        job("d1", JobState::Completed, at(1, 0)),
        job("d4", JobState::Completed, at(4, 0)),
        job("d2", JobState::Completed, at(2, 0)),
        job("d5", JobState::Completed, at(5, 0)),
        job("d3", JobState::Completed, at(3, 0)),
    ];
    let list = refresh(&all, &JobTime::All, Some(3)).unwrap();
    assert_eq!(ids(&list), vec!["JobID", "d5", "d4"]);
    let list = refresh(&all, &JobTime::All, Some(1)).unwrap();
    assert_eq!(ids(&list), vec!["JobID"]);
    let list = refresh(&all, &JobTime::All, Some(0)).unwrap();
    assert_eq!(ids(&list), vec!["JobID"]);
    let list = refresh(&all, &JobTime::All, Some(6)).unwrap();
    assert_eq!(ids(&list), vec!["JobID", "d5", "d4", "d3", "d2", "d1"]);
    let list = refresh(&all, &JobTime::All, Some(100)).unwrap();
    assert_eq!(list.len(), 6);
}

#[test]
fn records_without_a_partition_are_dropped() {
    let mut step = job("1.batch", JobState::Completed, at(1, 0));
    step.partition = "".to_string();
    let all = vec![header(), job("1", JobState::Completed, at(1, 0)), step];
    let list = refresh(&all, &JobTime::All, None).unwrap();
    assert_eq!(ids(&list), vec!["JobID", "1"]);
}

#[test]
fn peak_memory_comes_from_the_steps() {
    let mut parent = job("12", JobState::Completed, at(1, 0));
    parent.maxrss = NumberOrCol::Value(0);
    let mut batch = job("12.batch", JobState::Completed, at(1, 0));
    batch.partition = "".to_string();
    batch.maxrss = NumberOrCol::Value(700);
    let mut step = job("12.0", JobState::Completed, at(1, 0));
    step.partition = "".to_string();
    step.maxrss = NumberOrCol::Value(900);
    let mut other = job("13", JobState::Completed, at(1, 0));
    other.maxrss = NumberOrCol::Value(5000);
    let mut longer = job("123", JobState::Completed, at(1, 0));
    longer.maxrss = NumberOrCol::Value(20);
    let all = vec![header(), parent, batch, step, other, longer];
    let list = refresh(&all, &JobTime::All, None).unwrap();
    assert_eq!(ids(&list), vec!["JobID", "12", "13", "123"]);
    assert_eq!(list[0].maxrss, NumberOrCol::Col("MaxRSS".to_string()));
    assert_eq!(list[1].maxrss, NumberOrCol::Value(900));
    assert_eq!(list[2].maxrss, NumberOrCol::Value(5000));
    assert_eq!(list[3].maxrss, NumberOrCol::Value(20));
}

#[test]
fn placeholders_are_passed_over_for_the_peak() {
    let mut parent = job("12", JobState::Completed, at(1, 0));
    parent.maxrss = NumberOrCol::Col("n/a".to_string());
    let mut step = job("12.0", JobState::Completed, at(1, 0));
    step.partition = "".to_string();
    step.maxrss = NumberOrCol::Value(64);
    let all = vec![header(), parent.clone(), step];
    let mut updated = parent;
    assert_eq!(update_max_rss(&mut updated, &all), Ok(()));
    assert_eq!(updated.maxrss, NumberOrCol::Value(64));
}

#[test]
fn no_peak_memory_is_an_error() {
    let mut parent = job("12", JobState::Completed, at(1, 0));
    parent.maxrss = NumberOrCol::Col("n/a".to_string());
    let all = vec![header(), parent.clone()];
    assert_eq!(refresh(&all, &JobTime::All, None), Err(FetchError::NoPeakMemory));
    let mut same = parent.clone();
    assert_eq!(update_max_rss(&mut same, &all), Err(FetchError::NoPeakMemory));
    assert_eq!(same, parent);
    // even where the filter would drop the record
    let mut running = parent;
    running.state = JobState::Running;
    assert_eq!(
        refresh(&vec![header(), running], &JobTime::Finished, None),
        Err(FetchError::NoPeakMemory)
    );
}

#[test]
fn nothing_in_nothing_out() {
    assert_eq!(refresh(&vec![], &JobTime::All, Some(5)), Ok(vec![]));
}

const HEADER: &str = "JobID|JobName|Partition|Account|AllocCPUS|State|ExitCode|SubmitLine|WorkDir|Submit|ReqMem|MaxRSS|ElapsedRaw|TimelimitRaw|TotalCPU";

#[test]
fn fetch_jobs_from_text() {
    let text = format!(
        "{HEADER}\n\
         10|a|main|acc|2|COMPLETED|0:0|sbatch a.sh|/w|2024-03-01T10:00:00|1G||60|120|00:00:30\n\
         10.batch|batch||acc|2|COMPLETED|0:0|||2024-03-01T10:00:00||5000K|60||00:00:30\n\
         11|b|main|acc|1|RUNNING|0:0|sbatch b.sh|/w|2024-03-02T10:00:00|1G||60|120|00:00:30\n\
         12|c|main|acc|1|PENDING|0:0|sbatch c.sh|/w|2024-03-03T10:00:00|1G||0|120|00:00:00\n"
    );
    let list = fetch_jobs(&text, &JobTime::All, None).unwrap();
    assert_eq!(ids(&list), vec!["JobID", "12", "11", "10"]);
    assert_eq!(list[3].maxrss, NumberOrCol::Value(5000));
    assert_eq!(list[3].reqmem, NumberOrCol::Value(1048576));
    assert_eq!(list[0].state, JobState::Header);
    let list = fetch_jobs(&text, &JobTime::Running, None).unwrap();
    assert_eq!(ids(&list), vec!["JobID", "11"]);
    let list = fetch_jobs(&text, &JobTime::Finished, Some(2)).unwrap();
    assert_eq!(ids(&list), vec!["JobID", "12"]);
}

#[test]
fn fetch_jobs_passes_parse_errors_on() {
    assert_eq!(
        fetch_jobs("JobID|JobName", &JobTime::All, None),
        Err(FetchError::Parse(JobParseError::ColumnCountMismatch))
    );
    let text = format!("{}\n", HEADER.replace("WorkDir", "Cwd"));
    assert_eq!(
        fetch_jobs(&text, &JobTime::All, None),
        Err(FetchError::Parse(JobParseError::UnknownColumn))
    );
}

#[test]
fn accounting_arguments() {
    assert_eq!(
        sacct_args(24),
        vec![
            "--format=JobID,JobName,Partition,Account,AllocCPUS,State,ExitCode,SubmitLine%50,WorkDir%100,Submit%20,ReqMem,MaxRSS,ElapsedRaw,TimelimitRaw,TotalCPU",
            "-P",
            "-S",
            "now-24hours"
        ]
    );
    assert_eq!(sacct_args(168)[3], "now-168hours");
    assert_eq!(sacct_args(0)[3], "now-0hours");
    assert_eq!(sacct_args(65535)[3], "now-65535hours");
}

#[test]
fn search_arguments() {
    assert_eq!(
        find_args("/home/me/run", "4242"),
        vec!["/home/me/run", "-maxdepth", "2", "-name", "*4242*"]
    );
    assert_eq!(find_args("/w", "77[1-9]")[4], "*77_**");
    assert_eq!(find_args("/w", "77_3")[4], "*77_3*");
    assert_eq!(find_args("", "")[4], "**");
}

#[test]
fn hours_of_a_stretch_of_time() {
    assert_eq!(FetchTime::Today.hours_before_now(), Some(24));
    assert_eq!(FetchTime::ThreeDaysAgo.hours_before_now(), Some(72));
    assert_eq!(FetchTime::AWeekAgo.hours_before_now(), Some(168));
    let t = SubmitTime { year: 2024, month: 1, day: 1, hour: 0, minute: 0, second: 0, nanosecond: 0 };
    assert_eq!(FetchTime::SpecificWindow { start: t, end: t }.hours_before_now(), None);
}

#[test]
fn older_and_newer() {
    assert_eq!(FetchTime::Today.older(), FetchTime::ThreeDaysAgo);
    assert_eq!(FetchTime::ThreeDaysAgo.older(), FetchTime::AWeekAgo);
    assert_eq!(FetchTime::AWeekAgo.older(), FetchTime::AWeekAgo);
    assert_eq!(FetchTime::Today.newer(), FetchTime::Today);
    assert_eq!(FetchTime::ThreeDaysAgo.newer(), FetchTime::Today);
    assert_eq!(FetchTime::AWeekAgo.newer(), FetchTime::ThreeDaysAgo);
    let t = SubmitTime { year: 2024, month: 1, day: 1, hour: 0, minute: 0, second: 0, nanosecond: 0 };
    let window = FetchTime::SpecificWindow { start: t, end: t };
    assert_eq!(window.older(), window);
    assert_eq!(window.newer(), window);
}
