use testnice::cli::{Cli, Command, FloodCommand, TuiCommand};
use testnice::command::{join_outcome, slow_black_box, DEFAULT_STEPS};
use testnice::nice::NiceLevel;

fn flood(ni: i32, thread_count: usize, steps: Option<usize>) -> FloodCommand {
    FloodCommand {
        ni: NiceLevel::new(ni).unwrap(),
        thread_count,
        steps,
        logfile: String::from("/tmp/nicelog"),
    }
}

#[test]
fn flood_process_arguments() {
    assert_eq!(
        flood(-5, 1, Some(1000)).process_args(),
        vec!["flood", "--ni=-5", "--thread-count=1", "--steps=1000", "--logfile=/tmp/nicelog"]
    );
    assert_eq!(
        flood(19, 12, None).process_args(),
        vec!["flood", "--ni=19", "--thread-count=12", "--logfile=/tmp/nicelog"]
    );
    assert_eq!(
        flood(0, usize::MAX, Some(0)).process_args(),
        vec![
            String::from("flood"),
            String::from("--ni=0"),
            format!("--thread-count={}", usize::MAX),
            String::from("--steps=0"),
            String::from("--logfile=/tmp/nicelog"),
        ]
    );
}

#[test]
fn flood_threads() {
    assert!(!flood(0, 0, None).spawns_threads());
    assert!(!flood(0, 1, None).spawns_threads());
    assert!(flood(0, 2, None).spawns_threads());
    assert!(flood(0, usize::MAX, None).spawns_threads());
}

#[test]
fn tui_workers() {
    let tui = TuiCommand {
        ni1: NiceLevel::new(-3).unwrap(),
        ni2: NiceLevel::new(10).unwrap(),
        steps: Some(77),
        logfile: String::from("/tmp/log file"),
        this: String::from("/usr/local/bin/testnice"),
    };
    let (first, second) = tui.workers();
    assert_eq!(first.ni.get(), -3);
    assert_eq!(second.ni.get(), 10);
    for worker in [&first, &second] {
        assert_eq!(worker.thread_count, 1);
        assert_eq!(worker.steps, Some(77));
        assert_eq!(worker.logfile, "/tmp/log file");
    }
    assert_eq!(first.process_args()[1], "--ni=-3");
    assert_eq!(second.process_args()[4], "--logfile=/tmp/log file");
    let cli = Cli { command: Command::Tui(tui) };
    assert!(matches!(cli.clone().command, Command::Tui(_)));
    assert!(matches!(Command::Flood(first), Command::Flood(_)));
}

#[test]
fn work_gives_its_argument_back() {
    assert_eq!(DEFAULT_STEPS, 100_000_000);
    let pid = 4711;
    assert_eq!(*slow_black_box(&pid, Some(0)), 4711);
    assert_eq!(*slow_black_box(&pid, Some(1000)), 4711);
    let text = String::from("same");
    let back = slow_black_box(&text, Some(3));
    assert!(std::ptr::eq(back, &text));
}

#[test]
fn outcome_of_the_threads() {
    assert_eq!(join_outcome(vec![]), Ok(()));
    assert_eq!(join_outcome(vec![Some(Ok(())), Some(Ok(()))]), Ok(()));
    assert_eq!(
        join_outcome(vec![Some(Ok(())), Some(Err(String::from("first"))), Some(Err(String::from("second")))]),
        Err(String::from("first"))
    );
    assert_eq!(
        join_outcome(vec![Some(Ok(())), None, Some(Err(String::from("later")))]),
        Err(String::from("please submit a bug report"))
    );
    assert_eq!(
        join_outcome(vec![Some(Err(String::from("corrupted logfile"))), None]),
        Err(String::from("corrupted logfile"))
    );
}
