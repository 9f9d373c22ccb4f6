use applier::config::{Admission, CliParsed};
use applier::errors::{OsError, ProcessError};
use applier::json::{Mode, ProcessedEntries, ProcessedEntry, ProcessedError};
use applier::run::{CommandOutput, RunEvent, RunOutcome};

fn success(entry: &str, stdout: &[u8]) -> RunOutcome {
    Ok((entry.to_string(), CommandOutput { stdout: stdout.to_vec(), stderr: Vec::new() }))
}

#[test]
fn ignored_sibling_leaves_a_report_of_the_other_two() {
    let cli = CliParsed {
        command: ("pwd".to_string(), Vec::new()),
        directory: "/parent".to_string(),
        ignored_subdirectories: vec!["/parent/b".to_string()],
        jobs: 2,
        timeout: None,
        mode: Mode::Json,
    };
    let mut report = ProcessedEntries::new();
    for name in ["/parent/a", "/parent/b", "/parent/c"] {
        match cli.admit_entry(&Some(name.to_string()), true) {
            Admission::Dispatch => {
                let event = RunEvent::Completed(CommandOutput {
                    stdout: format!("{}\n", name).into_bytes(),
                    stderr: Vec::new(),
                });
                report.insert(cli.classify_run(name.to_string(), event));
            },
            Admission::Skip => (),
            Admission::Modified => report.insert(Err(ProcessError::ModifiedEntry)),
        }
    }
    assert_eq!(report.entry_count(), 2);
    assert_eq!(report.unknown_count(), 0);
    assert!(report.get(&"/parent/b".to_string()).is_none());
    match report.get(&"/parent/a".to_string()) {
        Some(ProcessedEntry::Success { stdout, stderr }) => {
            assert_eq!(stdout, "/parent/a\n");
            assert_eq!(stderr, "");
        },
        _ => panic!("expected a reported success for /parent/a"),
    }
    assert!(matches!(
        report.get(&"/parent/c".to_string()),
        Some(ProcessedEntry::Success { .. })
    ));
}

#[test]
fn an_absent_executable_still_fills_the_whole_report() {
    let cli = CliParsed {
        command: ("no-such-command".to_string(), Vec::new()),
        directory: "/parent".to_string(),
        ignored_subdirectories: Vec::new(),
        jobs: 4,
        timeout: None,
        mode: Mode::Json,
    };
    let mut report = ProcessedEntries::new();
    for name in ["/parent/a", "/parent/b", "/parent/c"] {
        let origin = OsError { code: Some(2), description: "no such file".to_string() };
        report.insert(cli.classify_run(name.to_string(), RunEvent::SpawnFailed(origin)));
    }
    assert_eq!(report.entry_count(), 3);
    assert_eq!(report.unknown_count(), 0);
    for name in ["/parent/a", "/parent/b", "/parent/c"] {
        match report.get(&name.to_string()) {
            Some(ProcessedEntry::Failure(ProcessedError::Spawn { process, code, .. })) => {
                assert_eq!(process, "no-such-command");
                assert_eq!(*code, Some(2));
            },
            _ => panic!("every dispatched entry must classify as a spawn failure"),
        }
    }
}

#[test]
fn modified_entries_are_counted_not_reported() {
    let mut report = ProcessedEntries::new();
    report.insert(Err(ProcessError::ModifiedEntry));
    report.insert(Err(ProcessError::ModifiedEntry));
    assert_eq!(report.unknown_count(), 2);
    assert_eq!(report.entry_count(), 0);
}

#[test]
fn the_last_write_wins_on_a_path_collision() {
    let mut report = ProcessedEntries::new();
    report.insert(success("/parent/a", b"one\n"));
    report.insert(success("/parent/a", b"two\n"));
    assert_eq!(report.entry_count(), 1);
    match report.get(&"/parent/a".to_string()) {
        Some(ProcessedEntry::Success { stdout, .. }) => assert_eq!(stdout, "two\n"),
        _ => panic!("expected the second write"),
    }
}

#[test]
fn captured_bytes_are_decoded_lossily() {
    let mut report = ProcessedEntries::new();
    report.insert(Ok((
        "/parent/a".to_string(),
        CommandOutput { stdout: vec![0x68, 0x69, 0xFF], stderr: b"warn".to_vec() },
    )));
    match report.get(&"/parent/a".to_string()) {
        Some(ProcessedEntry::Success { stdout, stderr }) => {
            assert_eq!(stdout, "hi\u{FFFD}");
            assert_eq!(stderr, "warn");
        },
        _ => panic!("expected a reported success"),
    }
}

#[test]
fn extend_merges_outcomes_in_order() {
    let mut report = ProcessedEntries::new();
    report.extend(vec![
        success("/parent/a", b"first\n"),
        Err(ProcessError::ModifiedEntry),
        success("/parent/b", b"second\n"),
        success("/parent/a", b"third\n"),
    ]);
    assert_eq!(report.unknown_count(), 1);
    assert_eq!(report.entry_count(), 2);
    match report.get(&"/parent/a".to_string()) {
        Some(ProcessedEntry::Success { stdout, .. }) => assert_eq!(stdout, "third\n"),
        _ => panic!("expected the last write for /parent/a"),
    }
}

#[test]
fn identical_outcomes_in_another_order_aggregate_identically() {
    let one = vec![
        success("/parent/a", b"a\n"),
        Err(ProcessError::ModifiedEntry),
        success("/parent/b", b"b\n"),
    ];
    let two = vec![
        success("/parent/b", b"b\n"),
        success("/parent/a", b"a\n"),
        Err(ProcessError::ModifiedEntry),
    ];
    let mut first = ProcessedEntries::new();
    first.extend(one);
    let mut second = ProcessedEntries::new();
    second.extend(two);
    assert_eq!(first.unknown_count(), second.unknown_count());
    assert_eq!(first.entry_count(), second.entry_count());
    for name in ["/parent/a", "/parent/b"] {
        match (report_text(&first, name), report_text(&second, name)) {
            (Some(a), Some(b)) => assert_eq!(a, b),
            _ => panic!("both reports must hold {}", name),
        }
    }
}

fn report_text(report: &ProcessedEntries, name: &str) -> Option<String> {
    match report.get(&name.to_string()) {
        Some(ProcessedEntry::Success { stdout, .. }) => Some(stdout.clone()),
        _ => None,
    }
}

#[test]
fn timeouts_and_lost_output_land_in_the_report_as_failures() {
    let mut report = ProcessedEntries::new();
    report.insert(Err(ProcessError::Timeout {
        process: "sleep".to_string(),
        entry: "/parent/slow".to_string(),
        duration: "1s".to_string(),
    }));
    report.insert(Err(ProcessError::ProcessOutput {
        process: "pwd".to_string(),
        entry: "/parent/a".to_string(),
        origin: OsError { code: None, description: "broken pipe".to_string() },
    }));
    match report.get(&"/parent/slow".to_string()) {
        Some(ProcessedEntry::Failure(ProcessedError::Timeout { process, duration })) => {
            assert_eq!(process, "sleep");
            assert_eq!(duration, "1s");
        },
        _ => panic!("expected a reported timeout"),
    }
    match report.get(&"/parent/a".to_string()) {
        Some(ProcessedEntry::Failure(ProcessedError::Output { process, code, description })) => {
            assert_eq!(process, "pwd");
            assert_eq!(*code, None);
            assert_eq!(description, "broken pipe");
        },
        _ => panic!("expected a reported output failure"),
    }
}

#[test]
fn reported_items_carry_each_key_once() {
    let mut report = ProcessedEntries::new();
    report.insert(success("/parent/a", b"one\n"));
    report.insert(success("/parent/a", b"two\n"));
    report.insert(success("/parent/b", b"three\n"));
    let items = report.items();
    assert_eq!(items.len(), 2);
    assert!(items.iter().any(|(k, _)| k == "/parent/a"));
    assert!(items.iter().any(|(k, _)| k == "/parent/b"));
}
