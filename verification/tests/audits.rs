//! What the audit transcript says.

use lm_provision::audit;
use lm_provision::audit::{
    env_keys, is_secret_shaped_key, mode_label, total_label, AuditEvent, TransferTranscript, NANOS,
    TRANSFER_PROGRESS_INTERVAL_SEC,
};
use lm_provision::effects::{TransferProgress, TRANSFER_READ_TIMEOUT_SEC};
use lm_provision::exec::ExecMode;
use lm_provision::names::EnvMap;

fn map(entries: &[(&str, &str)]) -> EnvMap {
    let mut env = EnvMap::new();
    for (name, value) in entries {
        env.insert(name.to_string(), value.to_string());
    }
    env
}

#[test]
fn env_keys_leaves_a_non_sensitive_name_alone() {
    let env = map(&[("MODE", "fast")]);
    assert_eq!(env_keys(&env), vec!["MODE".to_string()]);
}

#[test]
fn env_keys_appends_redacted_marker_for_a_sensitive_name() {
    let env = map(&[("HF_TOKEN", "should-never-appear"), ("api_key", "also-secret")]);
    let out = env_keys(&env);
    assert_eq!(
        out,
        vec![
            "HF_TOKEN [REDACTED]".to_string(),
            "api_key [REDACTED]".to_string(),
        ]
    );
    // Values are never in the output regardless of the name.
    for line in &out {
        assert!(!line.contains("should-never-appear"));
        assert!(!line.contains("also-secret"));
    }
}

#[test]
fn env_keys_result_is_stable_across_runs() {
    // The map sorts by name, so inserting in a different order must
    // produce the same output.
    let a = map(&[("MODE", "fast"), ("HF_TOKEN", "v1")]);
    let b = map(&[("HF_TOKEN", "v2"), ("MODE", "slow")]);
    assert_eq!(env_keys(&a), env_keys(&b));
}

#[test]
fn mode_label_is_the_expected_string() {
    assert_eq!(mode_label(ExecMode::DryRun), "dry-run");
    assert_eq!(mode_label(ExecMode::Real), "real");
}

#[test]
fn a_header_that_carries_a_token_is_marked() {
    assert!(is_secret_shaped_key("Authorization"));
    assert!(is_secret_shaped_key("X-Api-Key"));
    assert!(is_secret_shaped_key("DB_PASSWORD"));
    assert!(!is_secret_shaped_key("Accept"));
    assert!(!is_secret_shaped_key(""));
}

// ---------------------------------------------------------------------
// Progress events
// ---------------------------------------------------------------------

const ONE_SECOND: u64 = NANOS;

fn running(written: u64, total: Option<u64>) -> TransferProgress {
    TransferProgress {
        written,
        total,
        finished: false,
    }
}

fn finished(written: u64, total: Option<u64>) -> TransferProgress {
    TransferProgress {
        written,
        total,
        finished: true,
    }
}

fn bytes_of(event: &AuditEvent) -> u64 {
    match event {
        AuditEvent::TransferProgress { bytes, .. } => *bytes,
        other => panic!("expected progress, got {other:?}"),
    }
}

fn state_of(event: &AuditEvent) -> &'static str {
    match event {
        AuditEvent::TransferProgress { state, .. } => state,
        other => panic!("expected progress, got {other:?}"),
    }
}

/// The first report goes out at once and the ones behind it wait for the
/// interval.
#[test]
fn the_first_report_is_emitted_at_once_and_the_rest_wait_for_the_interval() {
    let mut transcript =
        TransferTranscript::with_interval("models", "1_models_2", "/m/a.bin", ONE_SECOND);
    let mut events = Vec::new();
    for (now, written) in [(0, 1_000), (10, 2_000), (20, 3_000)] {
        events.extend(transcript.observe(now, running(written, Some(10_000))));
    }
    assert_eq!(
        events.len(),
        1,
        "three chunks inside one interval are one event: {events:?}"
    );
    assert_eq!(bytes_of(&events[0]), 1000);
}

#[test]
fn a_report_after_the_interval_is_emitted() {
    let mut transcript =
        TransferTranscript::with_interval("models", "1_models_2", "/m/a.bin", 30_000_000);
    let mut events = Vec::new();
    events.extend(transcript.observe(0, running(1_000, Some(10_000))));
    events.extend(transcript.observe(60_000_000, running(2_000, Some(10_000))));
    assert_eq!(events.len(), 2, "{events:?}");
    assert_eq!(bytes_of(&events[1]), 2000);
}

/// A finished report is never held back by the interval.
#[test]
fn a_finished_report_is_emitted_however_soon_it_arrives() {
    let mut transcript =
        TransferTranscript::with_interval("models", "1_models_2", "/m/a.bin", ONE_SECOND);
    let mut events = Vec::new();
    events.extend(transcript.observe(0, running(1_000, None)));
    events.extend(transcript.observe(1, finished(1_234, None)));
    assert_eq!(events.len(), 2, "{events:?}");
    assert_eq!(state_of(&events[0]), "running");
    assert_eq!(state_of(&events[1]), "done");
    assert_eq!(bytes_of(&events[1]), 1234);
}

/// An absent total is unknown, and so is a total of nothing.
#[test]
fn an_undeclared_total_prints_unknown_rather_than_a_number() {
    let mut transcript =
        TransferTranscript::with_interval("models", "1_models_1", "/m/a.bin", ONE_SECOND);
    let event = transcript.observe(0, running(4_096, None)).expect("an event");
    match &event {
        AuditEvent::TransferProgress { total, bytes, .. } => {
            assert_eq!(*total, None);
            assert_eq!(*bytes, 4096);
        }
        other => panic!("expected progress, got {other:?}"),
    }
    assert_eq!(total_label(None), "unknown");
    assert_eq!(total_label(Some(0)), "unknown");
}

#[test]
fn a_declared_total_prints_the_position_reached() {
    let mut transcript =
        TransferTranscript::with_interval("models", "1_models_1", "/m/a.bin", ONE_SECOND);
    let event = transcript
        .observe(0, running(2_500, Some(10_000)))
        .expect("an event");
    match &event {
        AuditEvent::TransferProgress { total, .. } => assert_eq!(*total, Some(10_000)),
        other => panic!("expected progress, got {other:?}"),
    }
    assert_eq!(total_label(Some(10_000)), "10000");
}

/// Two transfers reporting into one stream are separable by their step.
#[test]
fn concurrent_transfers_stay_separable_by_their_step_id() {
    let mut first =
        TransferTranscript::with_interval("models", "1_models_1", "/m/a.bin", ONE_SECOND);
    let mut second =
        TransferTranscript::with_interval("models", "1_models_2", "/m/b.bin", ONE_SECOND);
    let mut events = Vec::new();
    // Interleaved the way two running transfers arrive.
    events.extend(first.observe(0, running(1_000, Some(4_000))));
    events.extend(second.observe(1, running(2_000, Some(8_000))));
    events.extend(second.observe(2, finished(8_000, Some(8_000))));
    events.extend(first.observe(3, finished(4_000, Some(4_000))));
    assert_eq!(events.len(), 4, "{events:?}");
    let of_step = |want: &str, path: &str| -> usize {
        events
            .iter()
            .filter(|event| match event {
                AuditEvent::TransferProgress { step, dst, .. } => step == want && dst == path,
                _ => false,
            })
            .count()
    };
    assert_eq!(of_step("1_models_1", "/m/a.bin"), 2, "{events:?}");
    assert_eq!(of_step("1_models_2", "/m/b.bin"), 2, "{events:?}");
}

/// The source stays out of a progress event.
#[test]
fn a_progress_event_does_not_repeat_the_source_url() {
    let mut transcript =
        TransferTranscript::with_interval("models", "1_models_1", "/m/a.bin", ONE_SECOND);
    let event = transcript.observe(0, running(1, Some(2))).expect("an event");
    let line = format!("{event:?}");
    assert!(!line.contains("http"), "{line}");
    assert!(!line.contains("src"), "{line}");
}

#[test]
fn events_come_at_the_interval_and_count_whole_seconds() {
    let mut transcript = TransferTranscript::new("models", "1", "/m");
    assert!(transcript.observe(0, running(1, None)).is_some());
    let interval = TRANSFER_PROGRESS_INTERVAL_SEC * NANOS;
    assert!(transcript.observe(interval - 1, running(2, None)).is_none());
    match transcript.observe(interval + 999_999_999, running(3, None)) {
        Some(AuditEvent::TransferProgress {
            elapsed_sec, mode, ..
        }) => {
            assert_eq!(elapsed_sec, 15);
            assert_eq!(mode, "real");
        }
        other => panic!("expected progress, got {other:?}"),
    }
    // A clock that went back is no time passed.
    assert!(transcript.observe(0, running(4, None)).is_none());
    assert!(TRANSFER_PROGRESS_INTERVAL_SEC < TRANSFER_READ_TIMEOUT_SEC);
}

// ---------------------------------------------------------------------
// One event for each effect
// ---------------------------------------------------------------------

#[test]
fn each_effect_has_its_event() {
    let env = map(&[("MODE", "fast"), ("API_TOKEN", "hidden")]);
    let names = vec!["API_TOKEN [REDACTED]".to_string(), "MODE".to_string()];
    let argv = vec!["echo".to_string(), "hi".to_string()];
    assert_eq!(
        audit::sh_exec(ExecMode::Real, "sh.exec", &argv, &env),
        AuditEvent::ShExec {
            mode: "real",
            kind: "sh.exec".to_string(),
            argv: argv.clone(),
            env_keys: names.clone(),
        }
    );
    assert_eq!(
        audit::fs_write(ExecMode::DryRun, "fs.write", "/p", 3, "string"),
        AuditEvent::FsWrite {
            mode: "dry-run",
            kind: "fs.write".to_string(),
            path: "/p".to_string(),
            bytes: 3,
            content_source: "string".to_string(),
        }
    );
    assert_eq!(
        audit::http_get(ExecMode::Real, "net.http_get", "https://u", &env),
        AuditEvent::HttpGet {
            mode: "real",
            kind: "net.http_get".to_string(),
            url: "https://u".to_string(),
            header_names: names.clone(),
        }
    );
    assert_eq!(
        audit::http_post(ExecMode::Real, "net.http_post", "https://u", &env, "body", 9),
        AuditEvent::HttpPost {
            mode: "real",
            kind: "net.http_post".to_string(),
            url: "https://u".to_string(),
            header_names: names,
            body_source: "body".to_string(),
            body_bytes: 9,
        }
    );
    assert_eq!(
        audit::transfer(ExecMode::Real, "models", "s", "d"),
        AuditEvent::Transfer {
            mode: "real",
            kind: "models".to_string(),
            src: "s".to_string(),
            dst: "d".to_string(),
        }
    );
    assert_eq!(
        audit::http_poll(ExecMode::Real, "service.ready", "http://h", 30),
        AuditEvent::HttpPoll {
            mode: "real",
            kind: "service.ready".to_string(),
            url: "http://h".to_string(),
            timeout_sec: 30,
        }
    );
    assert_eq!(
        audit::mount_bind(ExecMode::Real, "mount.bind", "s", "d"),
        AuditEvent::MountBind {
            mode: "real",
            kind: "mount.bind".to_string(),
            src: "s".to_string(),
            dst: "d".to_string(),
        }
    );
    assert_eq!(
        audit::mount_umount(ExecMode::Real, "mount.umount", "/p"),
        AuditEvent::MountUmount {
            mode: "real",
            kind: "mount.umount".to_string(),
            path: "/p".to_string(),
        }
    );
    assert_eq!(
        audit::note(ExecMode::DryRun, "sync.push", "nothing"),
        AuditEvent::Note {
            mode: "dry-run",
            kind: "sync.push".to_string(),
            note: "nothing".to_string(),
        }
    );
}
