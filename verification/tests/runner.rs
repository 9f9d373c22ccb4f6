use applier::config::{CliParsed, TimeLimit};
use applier::errors::{OsError, ProcessError};
use applier::json::Mode;
use applier::run::{CommandOutput, RunEvent};

fn parsed(timeout: Option<TimeLimit>) -> CliParsed {
    CliParsed {
        command: ("sleep".to_string(), vec!["10".to_string()]),
        directory: "/parent".to_string(),
        ignored_subdirectories: Vec::new(),
        jobs: 1,
        timeout,
        mode: Mode::Standard,
    }
}

#[test]
fn a_command_outrunning_its_limit_times_out_and_never_succeeds() {
    let cli = parsed(Some(TimeLimit { secs: 1, nanos: 0 }));
    let r = cli.classify_run("/parent/slow".to_string(), RunEvent::TimedOut);
    match r {
        Err(ProcessError::Timeout { process, entry, duration }) => {
            assert_eq!(process, "sleep");
            assert_eq!(entry, "/parent/slow");
            assert_eq!(duration, "1s");
        },
        Err(_) => panic!("expected a timeout classification"),
        Ok(_) => panic!("a timed-out invocation must never classify as a success"),
    }
}

#[test]
fn timeouts_render_compound_durations() {
    let cli = parsed(Some(TimeLimit { secs: 90, nanos: 0 }));
    let r = cli.classify_run("/parent/slow".to_string(), RunEvent::TimedOut);
    match r {
        Err(ProcessError::Timeout { duration, .. }) => assert_eq!(duration, "1m 30s"),
        _ => panic!("expected a timeout classification"),
    }
}

#[test]
fn an_absent_executable_classifies_as_spawn_failure() {
    let cli = parsed(None);
    let origin = OsError { code: Some(2), description: "No such file or directory (os error 2)".to_string() };
    let r = cli.classify_run("/parent/a".to_string(), RunEvent::SpawnFailed(origin));
    match r {
        Err(ProcessError::ProcessSpawn { process, entry, origin }) => {
            assert_eq!(process, "sleep");
            assert_eq!(entry, "/parent/a");
            assert_eq!(origin.code, Some(2));
        },
        _ => panic!("expected a spawn-failure classification"),
    }
}

#[test]
fn lost_output_classifies_as_output_failure() {
    let cli = parsed(None);
    let origin = OsError { code: None, description: "broken pipe".to_string() };
    let r = cli.classify_run("/parent/a".to_string(), RunEvent::OutputFailed(origin));
    match r {
        Err(ProcessError::ProcessOutput { process, entry, origin }) => {
            assert_eq!(process, "sleep");
            assert_eq!(entry, "/parent/a");
            assert_eq!(origin.description, "broken pipe");
        },
        _ => panic!("expected an output-failure classification"),
    }
}

#[test]
fn completion_succeeds_whatever_the_exit_status() {
    let cli = parsed(None);
    let output = CommandOutput { stdout: b"done\n".to_vec(), stderr: b"grumble\n".to_vec() };
    let r = cli.classify_run("/parent/a".to_string(), RunEvent::Completed(output));
    match r {
        Ok((entry, output)) => {
            assert_eq!(entry, "/parent/a");
            assert_eq!(output.stdout, b"done\n".to_vec());
            assert_eq!(output.stderr, b"grumble\n".to_vec());
        },
        Err(_) => panic!("a completed process is a success"),
    }
}

#[test]
fn process_error_messages_name_command_entry_and_cause() {
    let e = ProcessError::ProcessSpawn {
        process: "pwd".to_string(),
        entry: "/parent/a".to_string(),
        origin: OsError { code: Some(2), description: "missing".to_string() },
    };
    assert_eq!(e.message(), "process pwd for /parent/a made unavailable as: missing");
    let e = ProcessError::Timeout {
        process: "sleep".to_string(),
        entry: "/parent/slow".to_string(),
        duration: "1s".to_string(),
    };
    assert_eq!(e.message(), "process sleep for /parent/slow could not complete in 1s");
    assert_eq!(
        ProcessError::ModifiedEntry.message(),
        "invalid directory entry from likely modification"
    );
}
