use slurmdash::jobs::job_parser::Efficiency;
use slurmdash::jobs::job_parser::JobFields;
use slurmdash::jobs::job_parser::JobState;
use slurmdash::jobs::job_parser::NumberOrCol;
use slurmdash::jobs::job_parser::Unit;
use slurmdash::ui::Color;
use slurmdash::ui::Colorable;

fn record(alloc_cpus: NumberOrCol, reqmem: NumberOrCol, maxrss: NumberOrCol, elapsed: NumberOrCol, time_limit: NumberOrCol, cpu_time_raw: NumberOrCol) -> JobFields {
    JobFields {
        job_id: "1".to_string(),
        job_name: "name".to_string(),
        partition: "main".to_string(),
        account: "acc".to_string(),
        alloc_cpus,
        state: JobState::Completed,
        exit_code: "0:0".to_string(),
        submit_line: "sbatch run.sh".to_string(),
        workdir: "/home/me".to_string(),
        submit: None,
        reqmem,
        maxrss,
        elapsed,
        time_limit,
        cpu_time_raw,
    }
}

fn percent(e: &Efficiency) -> String {
    match e {
        Efficiency::Ratio { used, available } => {
            format!("{:.1}%", (*used as f64 / *available as f64) * 100f64)
        }
        Efficiency::Label(label) => label.clone(),
    }
}

#[test]
fn empty_text_is_zero() {
    assert_eq!(NumberOrCol::from_str(""), NumberOrCol::Value(0));
}

#[test]
fn plain_integer_is_its_value() {
    assert_eq!(NumberOrCol::from_str("12"), NumberOrCol::Value(12));
    assert_eq!(NumberOrCol::from_str("0"), NumberOrCol::Value(0));
    assert_eq!(NumberOrCol::from_str("007"), NumberOrCol::Value(7));
    assert_eq!(NumberOrCol::from_str("+5"), NumberOrCol::Value(5));
}

#[test]
fn gigabytes_are_normalised_to_kilobytes() {
    assert_eq!(NumberOrCol::from_str("4G"), NumberOrCol::Value(4 * (1 << 20)));
    assert_eq!(NumberOrCol::from_str("4G"), NumberOrCol::Value(4194304));
}

#[test]
fn kilobytes_are_kept() {
    assert_eq!(NumberOrCol::from_str("1234K"), NumberOrCol::Value(1234));
}

#[test]
fn other_text_is_a_placeholder() {
    assert_eq!(NumberOrCol::from_str("abc"), NumberOrCol::Col("abc".to_string()));
    assert_eq!(NumberOrCol::from_str("N/A"), NumberOrCol::Col("N/A".to_string()));
    assert_eq!(NumberOrCol::from_str("ReqMem"), NumberOrCol::Col("ReqMem".to_string()));
    assert_eq!(NumberOrCol::from_str("K"), NumberOrCol::Col("K".to_string()));
    assert_eq!(NumberOrCol::from_str("G"), NumberOrCol::Col("G".to_string()));
    assert_eq!(NumberOrCol::from_str("-5"), NumberOrCol::Col("-5".to_string()));
    assert_eq!(NumberOrCol::from_str("12.5M"), NumberOrCol::Col("12.5M".to_string()));
    assert_eq!(NumberOrCol::from_str("4 G"), NumberOrCol::Col("4 G".to_string()));
    assert_eq!(NumberOrCol::from_str("5é"), NumberOrCol::Col("5é".to_string()));
}

#[test]
fn numbers_too_large_are_placeholders() {
    let huge = "999999999999999999999999999999";
    assert_eq!(NumberOrCol::from_str(huge), NumberOrCol::Col(huge.to_string()));
    let max = usize::MAX.to_string();
    assert_eq!(NumberOrCol::from_str(&max), NumberOrCol::Value(usize::MAX));
    let too_many_gigabytes = format!("{}G", usize::MAX);
    assert_eq!(
        NumberOrCol::from_str(&too_many_gigabytes),
        NumberOrCol::Col(too_many_gigabytes.clone())
    );
}

#[test]
fn take_gives_the_number_only() {
    assert_eq!(NumberOrCol::Value(3).take(), Some(3));
    assert_eq!(NumberOrCol::Col("x".to_string()).take(), None);
}

#[test]
fn as_string_writes_the_number_or_the_text() {
    assert_eq!(NumberOrCol::Value(0).as_string(), "0");
    assert_eq!(NumberOrCol::Value(1205).as_string(), "1205");
    assert_eq!(NumberOrCol::Value(usize::MAX).as_string(), usize::MAX.to_string());
    assert_eq!(NumberOrCol::Col("AllocCPUS".to_string()).as_string(), "AllocCPUS");
}

#[test]
fn unit_factors() {
    assert_eq!(Unit::Kilobytes.get_result_kilobytes(7), 7);
    assert_eq!(Unit::Gigabytes.get_result_kilobytes(2), 2097152);
    assert_eq!(Unit::Gigabytes.checked_kilobytes(usize::MAX), None);
    assert_eq!(Unit::Gigabytes.checked_kilobytes(1), Some(1048576));
}

#[test]
fn classify_cancelled_keeps_the_reason() {
    assert_eq!(
        JobState::from_str("CANCELLED by 0"),
        JobState::Cancelled("CANCELLED by 0".to_string())
    );
}

#[test]
fn classify_header() {
    assert_eq!(JobState::from_str("State"), JobState::Header);
}

#[test]
fn classify_unknown_keeps_the_text() {
    assert_eq!(
        JobState::from_str("WEIRD_STATUS"),
        JobState::Unknown("WEIRD_STATUS".to_string())
    );
    assert_eq!(JobState::from_str(""), JobState::Unknown("".to_string()));
    assert_eq!(JobState::from_str("   "), JobState::Unknown("   ".to_string()));
    assert_eq!(JobState::from_str("running"), JobState::Unknown("running".to_string()));
    assert_eq!(JobState::from_str("NODE_FAIL"), JobState::Unknown("NODE_FAIL".to_string()));
}

#[test]
fn classify_known_states() {
    assert_eq!(JobState::from_str("COMPLETED"), JobState::Completed);
    assert_eq!(JobState::from_str("PENDING"), JobState::Pending);
    assert_eq!(JobState::from_str("RUNNING"), JobState::Running);
    assert_eq!(JobState::from_str("FAILED"), JobState::Failed);
    assert_eq!(JobState::from_str("  RUNNING  "), JobState::Running);
    assert_eq!(JobState::from_str("\tFAILED now"), JobState::Failed);
    assert_eq!(
        JobState::from_str("OUT_OF_MEMORY"),
        JobState::Cancelled("OUT_OF_MEMORY".to_string())
    );
    assert_eq!(JobState::from_str("TIMEOUT"), JobState::Cancelled("TIMEOUT".to_string()));
    assert_eq!(JobState::from_str("DEADLINE"), JobState::Cancelled("DEADLINE".to_string()));
    assert_eq!(
        JobState::from_str("CANCELLED+"),
        JobState::Unknown("CANCELLED+".to_string())
    );
}

#[test]
fn state_texts() {
    assert_eq!(JobState::Completed.to_string(), "COMPLETED");
    assert_eq!(JobState::Running.to_string(), "RUNNING");
    assert_eq!(JobState::Failed.to_string(), "FAILED");
    assert_eq!(JobState::Pending.to_string(), "PENDING");
    assert_eq!(JobState::Header.to_string(), "State");
    assert_eq!(
        JobState::Cancelled("CANCELLED by 0".to_string()).to_string(),
        "CANCELLED(CANCELLED by 0)"
    );
    assert_eq!(JobState::Unknown("X".to_string()).to_string(), "Unknown(X)");
}

#[test]
fn state_colours() {
    assert_eq!(JobState::Completed.to_color(), Color::Green);
    assert_eq!(JobState::Running.to_color(), Color::LightGreen);
    assert_eq!(JobState::Failed.to_color(), Color::Red);
    assert_eq!(JobState::Pending.to_color(), Color::White);
    assert_eq!(JobState::Header.to_color(), Color::White);
    assert_eq!(JobState::Cancelled("c".to_string()).to_color(), Color::LightRed);
    assert_eq!(JobState::Unknown("u".to_string()).to_color(), Color::Cyan);
}

#[test]
fn memory_efficiency_of_half() {
    let job = record(
        NumberOrCol::Value(1),
        NumberOrCol::Value(100),
        NumberOrCol::Value(50),
        NumberOrCol::Value(1),
        NumberOrCol::Value(1),
        NumberOrCol::Value(1),
    );
    let eff = job.get_mem_eff();
    assert_eq!(eff, Efficiency::Ratio { used: 50, available: 100 });
    assert_eq!(percent(&eff), "50.0%");
}

#[test]
fn time_efficiency() {
    let job = record(
        NumberOrCol::Value(1),
        NumberOrCol::Value(1),
        NumberOrCol::Value(1),
        NumberOrCol::Value(30),
        NumberOrCol::Value(120),
        NumberOrCol::Value(1),
    );
    let eff = job.get_time_eff();
    assert_eq!(eff, Efficiency::Ratio { used: 30, available: 120 });
    assert_eq!(percent(&eff), "25.0%");
}

#[test]
fn cpu_efficiency() {
    let job = record(
        NumberOrCol::Value(4),
        NumberOrCol::Value(1),
        NumberOrCol::Value(1),
        NumberOrCol::Value(100),
        NumberOrCol::Value(1),
        NumberOrCol::Value(300),
    );
    let eff = job.get_cpu_eff();
    assert_eq!(eff, Efficiency::Ratio { used: 300, available: 400 });
    assert_eq!(percent(&eff), "75.0%");
}

#[test]
fn cpu_efficiency_does_not_overflow() {
    let job = record(
        NumberOrCol::Value(usize::MAX),
        NumberOrCol::Value(1),
        NumberOrCol::Value(1),
        NumberOrCol::Value(usize::MAX),
        NumberOrCol::Value(1),
        NumberOrCol::Value(1),
    );
    assert_eq!(
        job.get_cpu_eff(),
        Efficiency::Ratio { used: 1, available: usize::MAX as u128 * usize::MAX as u128 }
    );
}

#[test]
fn efficiency_falls_back_to_the_label() {
    let col = |s: &str| NumberOrCol::Col(s.to_string());
    let job = record(
        col("AllocCPUS"),
        col("ReqMem"),
        col("MaxRSS"),
        col("ElapsedRaw"),
        col("TimelimitRaw"),
        col("TotalCPU"),
    );
    assert_eq!(job.get_mem_eff(), Efficiency::Label("MemEff".to_string()));
    assert_eq!(job.get_time_eff(), Efficiency::Label("TimeEff".to_string()));
    assert_eq!(job.get_cpu_eff(), Efficiency::Label("CPUEff".to_string()));
    assert_eq!(percent(&job.get_mem_eff()), "MemEff");
}

#[test]
fn efficiency_falls_back_when_one_operand_is_missing() {
    let col = |s: &str| NumberOrCol::Col(s.to_string());
    let v = NumberOrCol::Value(5);
    let job = record(v.clone(), col("x"), v.clone(), v.clone(), v.clone(), v.clone());
    assert_eq!(job.get_mem_eff(), Efficiency::Label("MemEff".to_string()));
    let job = record(v.clone(), v.clone(), col("x"), v.clone(), v.clone(), v.clone());
    assert_eq!(job.get_mem_eff(), Efficiency::Label("MemEff".to_string()));
    let job = record(v.clone(), v.clone(), v.clone(), col("x"), v.clone(), v.clone());
    assert_eq!(job.get_time_eff(), Efficiency::Label("TimeEff".to_string()));
    assert_eq!(job.get_cpu_eff(), Efficiency::Label("CPUEff".to_string()));
    let job = record(v.clone(), v.clone(), v.clone(), v.clone(), col("x"), v.clone());
    assert_eq!(job.get_time_eff(), Efficiency::Label("TimeEff".to_string()));
    let job = record(col("x"), v.clone(), v.clone(), v.clone(), v.clone(), v.clone());
    assert_eq!(job.get_cpu_eff(), Efficiency::Label("CPUEff".to_string()));
    let job = record(v.clone(), v.clone(), v.clone(), v.clone(), v.clone(), col("x"));
    assert_eq!(job.get_cpu_eff(), Efficiency::Label("CPUEff".to_string()));
}

#[test]
fn nothing_available_is_the_label() {
    let v = |n: usize| NumberOrCol::Value(n);
    // two empty fields are two zeros
    let job = record(v(1), NumberOrCol::from_str(""), NumberOrCol::from_str(""), v(1), v(1), v(1));
    assert_eq!(job.get_mem_eff(), Efficiency::Label("MemEff".to_string()));
    let job = record(v(1), v(0), v(50), v(1), v(1), v(1));
    assert_eq!(job.get_mem_eff(), Efficiency::Label("MemEff".to_string()));
    let job = record(v(1), v(1), v(1), v(0), v(0), v(1));
    assert_eq!(job.get_time_eff(), Efficiency::Label("TimeEff".to_string()));
    let job = record(v(1), v(1), v(1), v(30), v(0), v(1));
    assert_eq!(job.get_time_eff(), Efficiency::Label("TimeEff".to_string()));
    let job = record(v(4), v(1), v(1), v(0), v(1), v(300));
    assert_eq!(job.get_cpu_eff(), Efficiency::Label("CPUEff".to_string()));
    let job = record(v(0), v(1), v(1), v(100), v(1), v(300));
    assert_eq!(job.get_cpu_eff(), Efficiency::Label("CPUEff".to_string()));
    let job = record(v(0), v(1), v(1), v(0), v(1), v(0));
    assert_eq!(job.get_cpu_eff(), Efficiency::Label("CPUEff".to_string()));
}

#[test]
fn nothing_used_is_a_share_of_zero() {
    let v = |n: usize| NumberOrCol::Value(n);
    let job = record(v(2), v(100), v(0), v(0), v(60), v(0));
    assert_eq!(job.get_mem_eff(), Efficiency::Ratio { used: 0, available: 100 });
    assert_eq!(percent(&job.get_mem_eff()), "0.0%");
    assert_eq!(job.get_time_eff(), Efficiency::Ratio { used: 0, available: 60 });
    let job = record(v(2), v(100), v(0), v(10), v(60), v(0));
    assert_eq!(job.get_cpu_eff(), Efficiency::Ratio { used: 0, available: 20 });
    assert_eq!(percent(&job.get_cpu_eff()), "0.0%");
}

#[test]
fn a_percentage_is_never_without_a_number() {
    let amounts = [
        NumberOrCol::Value(0),
        NumberOrCol::Value(1),
        NumberOrCol::Value(7),
        NumberOrCol::Value(usize::MAX),
        NumberOrCol::Col("x".to_string()),
        NumberOrCol::from_str(""),
    ];
    for a in &amounts {
        for b in &amounts {
            for c in &amounts {
                let job = record(a.clone(), b.clone(), c.clone(), a.clone(), b.clone(), c.clone());
                for shown in [
                    percent(&job.get_mem_eff()),
                    percent(&job.get_time_eff()),
                    percent(&job.get_cpu_eff()),
                ] {
                    assert!(!shown.contains("NaN") && !shown.contains("inf"), "{}", shown);
                    assert!(
                        shown.ends_with('%') || ["MemEff", "TimeEff", "CPUEff"].contains(&shown.as_str())
                    );
                }
            }
        }
    }
}
