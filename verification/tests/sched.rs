use testnice::nice::GetniceError;
use testnice::sched::{Decimal, Row, Sched, SchedCreationError, SchedPolicy};
use testnice::style::Color;

const SAMPLE: &str = "\
worker (4711, #threads: 1)
-------------------------------------------------------------------
se.exec_start                                :     123456789.123456
se.vruntime                                  :               123.45
se.sum_exec_runtime                          :          1234.500000
se.nr_migrations                             :                   12
nr_switches                                  :                  345
nr_voluntary_switches                        :                  300
nr_involuntary_switches                      :                   45
se.load.weight                               :              1048576
se.avg.load_sum                              :                47000
se.avg.runnable_sum                          :             48128000
se.avg.util_sum                              :             48127999
se.avg.load_avg                              :                 1023
se.avg.runnable_avg                          :                 1024
se.avg.util_avg                              :                 1022
se.avg.last_update_time                      :      123456789123072
se.avg.util_est.ewma                         :                  512
se.avg.util_est.enqueued                     :                  513
uclamp.min                                   :                    1
uclamp.max                                   :                 1024
effective uclamp.min                         :                    2
effective uclamp.max                         :                 1000
policy                                       :                    0
prio                                         :                  120
clock-delta                                  :                   30
mm->numa_scan_seq                            :                    4
numa_pages_migrated                          :                    5
numa_preferred_nid                           :                   -1
total_numa_faults                            :                    6
current_node=0, numa_group_id=0
";

fn decimal(d: &Decimal) -> f64 {
    std::str::from_utf8(d.as_bytes()).unwrap().parse().unwrap()
}

#[test]
fn stats_text_parses() {
    let sched = Sched::parse(SAMPLE.as_bytes()).unwrap();
    assert_eq!(sched.exec_start.as_bytes(), b"123456789.123456");
    assert_eq!(decimal(&sched.exec_start), 123456789.123456);
    assert_eq!(decimal(&sched.vruntime), 123.45);
    assert_eq!(decimal(&sched.sum_exec_runtime), 1234.5);
    assert_eq!(sched.nr_migrations, 12);
    assert_eq!(sched.nr_switches, 345);
    assert_eq!(sched.nr_voluntary_switches, 300);
    assert_eq!(sched.nr_involuntary_switches, 45);
    assert_eq!(sched.load_weight, 1048576);
    assert_eq!(sched.avg_load_sum, 47000);
    assert_eq!(sched.avg_runnable_sum, 48128000);
    assert_eq!(sched.avg_util_sum, 48127999);
    assert_eq!(sched.avg_load_avg, 1023);
    assert_eq!(sched.avg_runnable_avg, 1024);
    assert_eq!(sched.avg_util_avg, 1022);
    assert_eq!(sched.avg_last_update_time, 123456789123072);
    assert_eq!(sched.avg_util_est_ewma, 512);
    assert_eq!(sched.avg_util_est_enqueued, 513);
    assert_eq!(sched.uclamp_min, 1);
    assert_eq!(sched.uclamp_max, 1024);
    assert_eq!(sched.effective_uclamp_min, 2);
    assert_eq!(sched.effective_uclamp_max, 1000);
    assert_eq!(sched.policy, SchedPolicy::Other);
    assert_eq!(sched.prio, 120);
    assert_eq!(sched.clock_delta, 30);
    assert_eq!(sched.numa_scan_seq, 4);
    assert_eq!(sched.numa_pages_migrated, 5);
    assert_eq!(sched.numa_preferred_nid, -1);
    assert_eq!(sched.total_numa_faults, 6);
    assert_eq!(sched.ni, 0);
}

#[test]
fn vruntime_and_policy() {
    let text = SAMPLE.replace("123.45", "  123.45  ");
    let sched = Sched::parse(text.as_bytes()).unwrap();
    assert_eq!(decimal(&sched.vruntime), 123.45);
    assert_eq!(sched.policy, SchedPolicy::Other);
    let text = SAMPLE.replace("policy                                       :                    0", "policy: 99");
    assert_eq!(Sched::parse(text.as_bytes()).unwrap().policy, SchedPolicy::Unknown);
}

#[test]
fn values_are_found_by_their_keys_in_any_order() {
    let mut lines: Vec<&str> = SAMPLE.lines().collect();
    lines.reverse();
    let text = lines.join("\n");
    let sched = Sched::parse(text.as_bytes()).unwrap();
    assert_eq!(sched.nr_migrations, 12);
    assert_eq!(sched.uclamp_min, 1);
    assert_eq!(sched.prio, 120);
    assert_eq!(sched.total_numa_faults, 6);
    assert_eq!(decimal(&sched.exec_start), 123456789.123456);
}

#[test]
fn a_missing_or_bad_value_is_a_format_error() {
    let format_error = Err(SchedCreationError::UnexpectedFileFormat);
    assert_eq!(Sched::parse(b"").map(|_| ()), format_error);
    for line in SAMPLE.lines().skip(2).take(28) {
        let without = SAMPLE.replace(&format!("\n{line}\n"), "\n");
        assert_eq!(Sched::parse(without.as_bytes()).map(|_| ()), format_error, "{line}");
        // A key counts only where a line begins with it.
        let indented = SAMPLE.replace(&format!("\n{line}\n"), &format!("\n {line}\n"));
        assert_eq!(Sched::parse(indented.as_bytes()).map(|_| ()), format_error, "{line}");
    }
    // The last value of all, without a colon after its key.
    let text = SAMPLE.replace("total_numa_faults                            :", "total_numa_faults")
        .replace("current_node", "");
    assert_eq!(Sched::parse(text.as_bytes()).map(|_| ()), format_error);
    for (good, bad) in [
        ("               123.45", "abc"),
        ("                   12\n", "-12\n"),
        ("                   -1", "- 1"),
        (":                    0", ":                    x"),
        ("                  120", "                  1 2 0"),
        ("                    6", "18446744073709551616"),
        ("     123456789.123456", ""),
    ] {
        assert!(SAMPLE.contains(good));
        let text = SAMPLE.replace(good, bad);
        assert_eq!(Sched::parse(text.as_bytes()).map(|_| ()), format_error, "{bad}");
    }
    // The last line needs no line feed, and a value may hold a colon's worth of spaces.
    let text = SAMPLE.trim_end().replace("current_node=0, numa_group_id=0", "");
    assert!(Sched::parse(text.trim_end().as_bytes()).is_ok());
}

#[test]
fn snapshot_of_what_was_read() {
    assert_eq!(Sched::of(None).map(|_| ()), Err(SchedCreationError::FileError));
    assert_eq!(
        Sched::of(Some(b"nothing")).map(|_| ()),
        Err(SchedCreationError::UnexpectedFileFormat)
    );
    let sched = Sched::of(Some(SAMPLE.as_bytes())).unwrap();
    assert_eq!(sched.ni, 0);
    assert_eq!(
        sched.clone().with_nice(Err(GetniceError::Permission)).map(|_| ()),
        Err(SchedCreationError::GetniceError(GetniceError::Permission))
    );
    let sched = sched.with_nice(Ok(-5)).unwrap();
    assert_eq!(sched.ni, -5);
    assert_eq!(sched.prio, 120);
    assert_eq!(sched.vruntime.as_bytes(), b"123.45");
}

#[test]
fn policies() {
    let table = [
        (0, SchedPolicy::Other, "SCHED_OTHER"),
        (1, SchedPolicy::Fifo, "SCHED_FIFO"),
        (2, SchedPolicy::RoundRobin, "SCHED_RR"),
        (3, SchedPolicy::Batch, "SCHED_BATCH"),
        (5, SchedPolicy::Idle, "SCHED_IDLE"),
        (6, SchedPolicy::Deadline, "SCHED_DEADLINE"),
        (4, SchedPolicy::Unknown, "unknown schedule"),
        (7, SchedPolicy::Unknown, "unknown schedule"),
        (99, SchedPolicy::Unknown, "unknown schedule"),
        (-1, SchedPolicy::Unknown, "unknown schedule"),
        (i32::MAX, SchedPolicy::Unknown, "unknown schedule"),
    ];
    for (code, policy, name) in table {
        assert_eq!(SchedPolicy::from_code(code), policy);
        assert_eq!(SchedPolicy::parse(code.to_string().as_bytes()), Ok(policy));
        assert_eq!(code.to_string().parse::<SchedPolicy>(), Ok(policy));
        assert_eq!(policy.name(), name);
        assert_eq!(policy.to_string(), name);
    }
    assert_eq!(SchedPolicy::parse(b"x"), Err(()));
    assert_eq!(SchedPolicy::parse(b""), Err(()));
    assert_eq!(SchedPolicy::parse(b" 0"), Err(()));
    assert_eq!("2147483648".parse::<SchedPolicy>(), Err(()));
    assert_eq!(SchedPolicy::default(), SchedPolicy::Other);
}

#[test]
fn sched_error_messages() {
    assert_eq!(SchedCreationError::FileError.to_string(), "could not read sched file");
    assert_eq!(
        SchedCreationError::UnexpectedFileFormat.to_string(),
        "sched file contained unexpected format"
    );
    let error = SchedCreationError::from(GetniceError::Permission);
    assert_eq!(error, SchedCreationError::GetniceError(GetniceError::Permission));
    assert_eq!(error.to_string(), "user lacks permissions to /sched info");
}

#[test]
fn decimals() {
    assert_eq!(Decimal::parse(b"123.45").unwrap().as_bytes(), b"123.45");
    assert_eq!(Decimal::parse(b"-inf").unwrap().clone().as_bytes(), b"-inf");
    assert!(Decimal::parse(b"12 3").is_none());
    assert!(Decimal::parse(b"").is_none());
    assert_eq!(Decimal::default().as_bytes(), b"0");
    assert_eq!(decimal(&Decimal::default()), 0.0);
}

fn shown(row: &Row) -> String {
    format!("{}{}{}", row.label, " ".repeat(row.gap), std::str::from_utf8(&row.value).unwrap())
}

#[test]
fn rows_of_a_snapshot() {
    let sched = Sched::parse(SAMPLE.as_bytes()).unwrap().with_nice(Ok(-20)).unwrap();
    let rows = sched.as_rows(40);
    assert_eq!(rows.len(), 29);
    let labels: Vec<&str> = rows.iter().map(|row| row.label).collect();
    assert_eq!(
        labels,
        vec![
            "ni", "se.exec_start", "se.vruntime", "se.sum_exec_runtime", "se.nr_migrations",
            "nr_switches", "nr_voluntary_switches", "nr_involuntary_switches", "se.load.weight",
            "se.avg.load_sum", "se.avg.runnable_sum", "se.avg.util_sum", "se.avg.load_avg",
            "se.avg.runnable_avg", "se.avg.util_avg", "se.avg.last_update_time",
            "se.avg.util_est.ewma", "se.avg.util_est.enqueued", "uclamp.min", "uclamp.max",
            "effective uclamp.min", "effective uclamp.max", "policy", "prio", "clock-delta",
            "mm->numa_scan_seq", "numa_pages_migrated", "numa_preferred_nid", "total_numa_faults",
        ]
    );
    for (i, row) in rows.iter().enumerate() {
        let color = match i {
            0 | 27 => Color::LightBlue,
            1..=3 => Color::Red,
            22 => Color::Reset,
            _ => Color::Green,
        };
        assert_eq!(row.color, color, "{}", row.label);
        assert_eq!(shown(row).len(), 40, "{}", row.label);
    }
    assert_eq!(shown(&rows[0]), "ni                                   -20");
    assert_eq!(shown(&rows[2]), "se.vruntime                       123.45");
    assert_eq!(shown(&rows[22]), "policy                       SCHED_OTHER");
    assert_eq!(shown(&rows[27]), "numa_preferred_nid                    -1");
    assert_eq!(rows[1].gap, 40 - 13 - 16);
}

#[test]
fn rows_that_do_not_fit_keep_one_space() {
    let sched = Sched::parse(SAMPLE.as_bytes()).unwrap().with_nice(Ok(7)).unwrap();
    for width in [0, 1, 2, 3, 10] {
        let rows = sched.as_rows(width);
        assert_eq!(shown(&rows[22]), "policy SCHED_OTHER");
        assert_eq!(rows[15].gap, 1);
    }
    // "ni" and "7" take three of the width.
    assert_eq!(sched.as_rows(3)[0].gap, 1);
    assert_eq!(sched.as_rows(4)[0].gap, 1);
    assert_eq!(sched.as_rows(5)[0].gap, 2);
    assert_eq!(sched.as_rows(usize::MAX)[0].gap, usize::MAX - 3);
    let rows = Sched::default().as_rows(12);
    assert_eq!(shown(&rows[0]), "ni         0");
    assert_eq!(shown(&rows[1]), "se.exec_start 0");
    assert_eq!(shown(&rows[23]), "prio       0");
}
