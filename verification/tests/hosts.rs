//! What readings of the host mean.

use lm_provision::condition::{ArgvReading, CheckError, CheckErrorCategory};
use lm_provision::effects::{exec_outcome, start_failure};
use lm_provision::observe::{
    command_status, process_alive, process_argv, read_pid_file, split_cmdline, unobservable,
    CmdlineReading, FileReading, PidFile,
};

/// A command line as the host keeps it: a zero byte behind each argument.
fn cmdline(argv: &[&str]) -> Vec<u8> {
    let mut bytes = Vec::new();
    for arg in argv {
        bytes.extend_from_slice(arg.as_bytes());
        bytes.push(0);
    }
    bytes
}

#[test]
fn a_pid_file_reads_as_absent_a_pid_or_unusable() {
    assert!(
        matches!(
            read_pid_file("/run/nothing.pid", FileReading::Absent),
            PidFile::Absent
        ),
        "a path with no file is an absence, not a failed read",
    );
    assert!(matches!(
        read_pid_file("/run/ok.pid", FileReading::Content("4242\n".to_string())),
        PidFile::Pid(4242)
    ));
    // Empty is the launch race: the file exists a moment before the
    // number has been written into it.
    for content in ["", "   ", "not-a-pid", "-1"] {
        match read_pid_file(
            "/run/unusable.pid",
            FileReading::Content(content.to_string()),
        ) {
            PidFile::Unusable(error) => assert_eq!(error.detail(), "no pid in /run/unusable.pid"),
            other => panic!("content {content:?} must not yield a pid: {other:?}"),
        }
    }
    match read_pid_file(
        "/run/x.pid",
        FileReading::Failed("PermissionDenied".to_string()),
    ) {
        PidFile::Unusable(error) => assert_eq!(error.detail(), "PermissionDenied: /run/x.pid"),
        other => panic!("a failed reading is unusable: {other:?}"),
    }
}

#[test]
fn a_live_process_reports_its_command_line_and_a_dead_one_reports_nothing() {
    let argv = ["srv", "--port", "8188"];
    assert_eq!(process_alive(PidFile::Pid(4242), true), Ok(true));
    assert_eq!(
        process_argv(
            PidFile::Pid(4242),
            CmdlineReading::Bytes(cmdline(&argv))
        ),
        Ok(ArgvReading::Argv(
            argv.iter().map(|a| (*a).to_string()).collect()
        )),
    );
    assert_eq!(process_alive(PidFile::Pid(4243), false), Ok(false));
    assert_eq!(
        process_argv(PidFile::Pid(4243), CmdlineReading::Absent),
        Ok(ArgvReading::NoProcess),
        "a pid with no entry has no argv to compare, which is not a failed observation",
    );
}

#[test]
fn a_process_with_an_empty_command_line_is_not_the_same_as_no_process() {
    assert_eq!(
        process_argv(PidFile::Pid(4242), CmdlineReading::Bytes(Vec::new())),
        Ok(ArgvReading::Argv(Vec::new())),
    );
}

#[test]
fn an_empty_argument_survives_the_split() {
    assert_eq!(
        split_cmdline(&cmdline(&["srv", "", "--port"])),
        vec!["srv".to_string(), String::new(), "--port".to_string()],
    );
    assert_eq!(split_cmdline(b"a\0\0"), vec!["a".to_string(), String::new()]);
    assert_eq!(split_cmdline(b"\0"), Vec::<String>::new());
    assert_eq!(split_cmdline(b"a"), vec!["a".to_string()]);
    assert_eq!(split_cmdline(b"\xff\0"), vec!["\u{fffd}".to_string()]);
}

#[test]
fn no_launch_is_an_answer_and_a_failed_reading_is_not() {
    let broken = || CheckError::new(CheckErrorCategory::Unobservable, "broken");
    assert_eq!(process_alive(PidFile::Absent, true), Ok(false));
    assert_eq!(
        process_argv(PidFile::Absent, CmdlineReading::Absent),
        Ok(ArgvReading::NoProcess)
    );
    assert_eq!(
        process_alive(PidFile::Unusable(broken()), true),
        Err(broken())
    );
    assert_eq!(
        process_argv(PidFile::Unusable(broken()), CmdlineReading::Absent),
        Err(broken())
    );
    assert_eq!(
        process_argv(PidFile::Pid(1), CmdlineReading::Failed(broken())),
        Err(broken())
    );
}

#[test]
fn a_command_answers_with_its_code_or_why_it_could_not_be_started() {
    assert_eq!(command_status(Ok(exec_outcome(Some(128), b"", b""))), Ok(128));
    assert_eq!(
        command_status(Err(start_failure("git", "not found"))),
        Err(CheckError::new(
            CheckErrorCategory::Unobservable,
            "sh_exec: failed to start 'git': not found"
        ))
    );
    assert_eq!(unobservable("NotADirectory", "/p").detail(), "NotADirectory: /p");
}
