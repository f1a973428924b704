//! Running a profile: what is checked before an effect, what the host is
//! asked for, and what is said of it.

use lm_provision::admission::{
    dispatch, not_a_call, resolve_call, CallError, HTTP_GET_CALL_LABEL,
    LIFECYCLE_STEP_CALL_LABEL, TRANSFER_CALL_LABEL,
};
use lm_provision::audit::AuditEvent;
use lm_provision::condition::{
    ArgvReading, AssertExecutionId, AssertNode, AssertOutcome, CheckError, DigestReading,
    ExecutionIds, Observe,
};
use lm_provision::context::ExecContext;
use lm_provision::effects::{exec_outcome, HttpOutcome, TransferOutcome};
use lm_provision::exec::{ExecError, ExecMode};
use lm_provision::lifecycle::{PlannedStep, Step};
use lm_provision::names::EnvMap;
use lm_provision::phases::{
    begin_lifecycle_step, begin_phase_step, find_lifecycle_step, finish_lifecycle,
    finish_lifecycle_step, finish_phase_step, next_phase_step, phase_variables, run_lifecycle,
    take_call, Taken,
};
use lm_provision::profile::{ModelItemSpec, NodeId, ProfileNode, Slots};
use lm_provision::registry::{
    begin, finish_fs_write, finish_http, finish_mount, finish_sh_exec, finish_transfer,
    resolve_post_body, to_resolve, Resolved, Start,
};
use lm_provision::report::in_declaration_order;
use lm_provision::running::{
    begin_step, dry_run_step, finish_step, liveness, log_tail, note_result, pid_in, sh_result,
    transfer_result, HttpPoll, Liveness, PollAction, PollTarget, StepFailure, StepResult, StepRun,
    StepStart,
};
use lm_provision::steps::StepPlan;

const ALL: [&str; 8] = [
    "env.ref",
    "sh.exec",
    "net.transfer",
    "net.http_get",
    "net.http_post",
    "fs.write",
    "mount.bind",
    "mount.umount",
];

fn spec(capabilities: &[&str], phases: Vec<ProfileNode>) -> ProfileNode {
    ProfileNode::Spec {
        id: NodeId(100),
        name: "demo".to_string(),
        version: None,
        description: None,
        capabilities: capabilities.iter().map(|c| c.to_string()).collect(),
        env: Slots::new(),
        env_secrets: Vec::new(),
        paths: vec!["/workspace".to_string()],
        http_allowlist: vec!["https://example.com".to_string()],
        phases,
    }
}

fn resolved() -> Resolved {
    Resolved {
        env: Ok(EnvMap::new()),
        value: Ok(String::new()),
    }
}

fn sh(id: u64) -> ProfileNode {
    ProfileNode::ShExec {
        id: NodeId(id),
        argv: vec!["echo".to_string(), "hi".to_string()],
        env: Slots::new(),
    }
}

fn transfer(id: u64, src: &str, dst: &str) -> ProfileNode {
    ProfileNode::NetTransfer {
        id: NodeId(id),
        src: src.to_string(),
        dst: dst.to_string(),
    }
}

fn get(id: u64, url: &str) -> ProfileNode {
    ProfileNode::NetHttpGet {
        id: NodeId(id),
        url: url.to_string(),
        headers: Slots::new(),
        timeout_sec: Some(9),
    }
}

fn secret() -> ExecError {
    ExecError::SecretMissingInHostEnv {
        name: "HF_TOKEN".to_string(),
    }
}

// ---------------------------------------------------------------------
// The context
// ---------------------------------------------------------------------

#[test]
fn a_context_numbers_its_phases_and_refuses_unknown_capabilities() {
    let root = spec(&ALL, vec![sh(1), get(2, "https://example.com/")]);
    let plan = StepPlan::build(&root);
    let ctx = ExecContext::from_root(&root, ExecMode::Real, vec!["before".to_string()], &plan)
        .expect("builds");
    assert_eq!(ctx.phase_meta_of(NodeId(1)), (1, "sh.exec".to_string()));
    assert_eq!(ctx.phase_meta_of(NodeId(2)), (2, "net.http_get".to_string()));
    assert_eq!(ctx.phase_meta_of(NodeId(100)), (0, String::new()));
    assert_eq!(ctx.log, vec!["before".to_string()]);
    assert!(ctx.reports_handle().is_empty());

    let root = spec(&["sh.exec", "no.such"], Vec::new());
    match ExecContext::from_root(&root, ExecMode::Real, Vec::new(), &plan) {
        Err(error) => assert_eq!(
            error.to_string(),
            "capability 'no.such' declared but not implemented by host"
        ),
        Ok(_) => panic!("an unknown capability must be refused"),
    }
    // A root that is no profile declares nothing.
    let leaf = sh(1);
    let ctx = ExecContext::from_root(&leaf, ExecMode::Real, Vec::new(), &plan).expect("builds");
    assert!(!ctx.gate.is_granted("sh.exec"));
    assert!(!ctx.path_policy.is_allowed("/workspace/a"));
}

// ---------------------------------------------------------------------
// Refusals
// ---------------------------------------------------------------------

#[test]
fn a_phase_without_a_payload_is_reported_by_its_identity() {
    let root = spec(&ALL, Vec::new());
    let plan = StepPlan::build(&root);
    let mut ctx = ExecContext::from_root(&root, ExecMode::DryRun, Vec::new(), &plan).unwrap();
    let error = dispatch(&mut ctx, "sh_exec", NodeId(77)).err().unwrap();
    assert_eq!(error.to_string(), "no payload recorded for node n77");
    let entry = ctx.reports.last().unwrap();
    assert_eq!((entry.id.as_str(), entry.ok, entry.status), ("n77", false, -1));
    assert_eq!(entry.dry_run, Some(true));
    assert_eq!(
        entry.failure_reason(),
        "no payload recorded for node n77"
    );
}

#[test]
fn an_undeclared_capability_is_refused_in_either_mode() {
    for mode in [ExecMode::DryRun, ExecMode::Real] {
        let root = spec(&[], vec![sh(1)]);
        let plan = StepPlan::build(&root);
        let mut ctx = ExecContext::from_root(&root, mode, Vec::new(), &plan).unwrap();
        let error = dispatch(&mut ctx, "sh_exec", NodeId(1)).err().unwrap();
        assert_eq!(
            error.to_string(),
            "capability 'sh.exec' not declared in profile.capabilities"
        );
        let entry = ctx.reports.last().unwrap();
        assert_eq!(
            (entry.id.as_str(), entry.kind.as_str(), entry.op.as_str()),
            ("1_sh.exec", "sh.exec", "sh.exec")
        );
        assert!(ctx.audits.is_empty() && ctx.log.is_empty());
    }
}

#[test]
fn a_target_outside_the_lists_is_refused_with_what_it_would_reach() {
    let root = spec(
        &ALL,
        vec![
            transfer(1, "https://example.com/a", "/etc/passwd"),
            get(2, "https://evil.example.com/"),
            transfer(3, "/a", "/b"),
        ],
    );
    let plan = StepPlan::build(&root);
    let mut ctx = ExecContext::from_root(&root, ExecMode::Real, Vec::new(), &plan).unwrap();
    assert!(matches!(
        dispatch(&mut ctx, "net_transfer", NodeId(1)),
        Err(ExecError::PathDenied { .. })
    ));
    assert_eq!(ctx.reports[0].dst.as_deref(), Some("/etc/passwd"));
    assert!(matches!(
        dispatch(&mut ctx, "net_http_get", NodeId(2)),
        Err(ExecError::HttpDenied { .. })
    ));
    assert_eq!(
        ctx.reports[1].url.as_deref(),
        Some("https://evil.example.com/")
    );
    assert!(matches!(
        dispatch(&mut ctx, "net_transfer", NodeId(3)),
        Err(ExecError::Unsupported(_))
    ));
    assert_eq!(ctx.reports[2].src.as_deref(), Some("/a"));
    assert!(ctx.reports.iter().all(|entry| !entry.ok));
}

#[test]
fn a_reference_to_the_profiles_environment_needs_its_capability() {
    let mut env = Slots::new();
    env.insert(
        "A".to_string(),
        ProfileNode::EnvRef {
            id: NodeId(9),
            name: "SHARED".to_string(),
        },
    );
    let phase = ProfileNode::ShExec {
        id: NodeId(1),
        argv: vec!["true".to_string()],
        env,
    };
    let root = spec(&["sh.exec"], vec![phase]);
    let plan = StepPlan::build(&root);
    let mut ctx = ExecContext::from_root(&root, ExecMode::Real, Vec::new(), &plan).unwrap();
    assert_eq!(
        dispatch(&mut ctx, "sh_exec", NodeId(1))
            .err()
            .unwrap()
            .to_string(),
        "capability 'env.ref' not declared in profile.capabilities"
    );
}

#[test]
fn both_routes_refuse_alike() {
    let phases = || {
        vec![
            transfer(1, "https://example.com/a", "/etc/passwd"),
            get(2, "https://evil.example.com/"),
        ]
    };
    let by_op = spec(&ALL, phases());
    let by_call = spec(&ALL, phases());
    let (plan_a, plan_b) = (StepPlan::build(&by_op), StepPlan::build(&by_call));
    let mut a = ExecContext::from_root(&by_op, ExecMode::Real, Vec::new(), &plan_a).unwrap();
    let mut b = ExecContext::from_root(&by_call, ExecMode::Real, Vec::new(), &plan_b).unwrap();
    for (name, label, id) in [
        ("net_transfer", TRANSFER_CALL_LABEL, 1),
        ("net_http_get", HTTP_GET_CALL_LABEL, 2),
    ] {
        let op = dispatch(&mut a, name, NodeId(id)).err().unwrap();
        let call = resolve_call(&mut b, label, NodeId(id)).err().unwrap();
        assert_eq!(call, CallError::from(&op));
    }
    let json = |ctx: &ExecContext| -> Vec<serde_json::Value> {
        ctx.reports.iter().map(|entry| entry.to_json()).collect()
    };
    assert_eq!(json(&a), json(&b));
}

#[test]
fn a_call_that_fits_nothing_is_answered_in_words() {
    let root = spec(&ALL, vec![sh(1), get(2, "https://example.com/")]);
    let plan = StepPlan::build(&root);
    let mut ctx = ExecContext::from_root(&root, ExecMode::Real, Vec::new(), &plan).unwrap();
    assert_eq!(
        resolve_call(&mut ctx, "unheard.of", NodeId(1)).err().unwrap().0,
        "no host resolver is registered for the call 'unheard.of'"
    );
    assert!(ctx.reports.is_empty());
    assert_eq!(
        resolve_call(&mut ctx, TRANSFER_CALL_LABEL, NodeId(1))
            .err()
            .unwrap()
            .0,
        "payload for node n1 is not a NetTransfer node"
    );
    assert_eq!(ctx.reports.last().unwrap().op, "net.transfer");
    assert_eq!(
        resolve_call(&mut ctx, TRANSFER_CALL_LABEL, NodeId(5))
            .err()
            .unwrap()
            .to_string(),
        "no payload recorded for node n5"
    );
    assert_eq!(
        not_a_call(NodeId(3), "breakpoint").0,
        "the suspension at n3 is not a Call (breakpoint); the host resolves Call effects only"
    );
    let admitted = resolve_call(&mut ctx, HTTP_GET_CALL_LABEL, NodeId(2)).expect("admitted");
    assert_eq!((admitted.name(), admitted.node()), ("net_http_get", NodeId(2)));
}

// ---------------------------------------------------------------------
// Direct ops
// ---------------------------------------------------------------------

fn map(entries: &[(&str, &str)]) -> EnvMap {
    let mut env = EnvMap::new();
    for (name, value) in entries {
        env.insert(name.to_string(), value.to_string());
    }
    env
}

#[test]
fn a_command_runs_and_says_how_it_ended() {
    let root = spec(&ALL, vec![sh(1)]);
    let plan = StepPlan::build(&root);
    let mut ctx = ExecContext::from_root(&root, ExecMode::Real, Vec::new(), &plan).unwrap();
    let admitted = dispatch(&mut ctx, "sh_exec", NodeId(1)).ok().unwrap();
    match begin(&mut ctx, &admitted, resolved()).ok().unwrap() {
        Start::Sh(run) => {
            assert_eq!(run.argv, vec!["echo".to_string(), "hi".to_string()]);
            let value = finish_sh_exec(&mut ctx, run, Ok(exec_outcome(Some(0), b"hi\n", b"")));
            assert_eq!(value.unwrap(), "sh_exec exit=0 stdout=\"hi\\n\"");
        }
        _ => panic!("a real run asks for the effect"),
    }
    match begin(&mut ctx, &admitted, resolved()).ok().unwrap() {
        Start::Sh(run) => {
            let error = finish_sh_exec(&mut ctx, run, Ok(exec_outcome(Some(3), b"o", b"boom")))
                .unwrap_err();
            assert_eq!(error.to_string(), "sh_exec: exit 3 stderr=\"boom\"");
        }
        _ => panic!("a real run asks for the effect"),
    }
    assert_eq!(ctx.log, vec!["sh_exec exit=0 stdout=\"hi\\n\"".to_string()]);
    assert_eq!(ctx.reports[0].status, 0);
    assert_eq!(ctx.reports[0].stdout.as_deref(), Some("hi\n"));
    assert_eq!((ctx.reports[1].ok, ctx.reports[1].status), (false, 3));
    assert_eq!(ctx.reports[1].stderr.as_deref(), Some("boom"));
    assert_eq!(ctx.audits.len(), 2);
}

#[test]
fn a_dry_run_of_a_command_shows_names_and_asks_for_nothing() {
    let root = spec(&ALL, vec![sh(1)]);
    let plan = StepPlan::build(&root);
    let mut ctx = ExecContext::from_root(&root, ExecMode::DryRun, Vec::new(), &plan).unwrap();
    let admitted = dispatch(&mut ctx, "sh_exec", NodeId(1)).ok().unwrap();
    let start = begin(
        &mut ctx,
        &admitted,
        Resolved {
            env: Ok(map(&[("HF_TOKEN", "hidden")])),
            value: Ok(String::new()),
        },
    );
    match start.ok().unwrap() {
        Start::Done(line) => assert_eq!(
            line,
            "sh_exec argv=[\"echo\", \"hi\"] env_keys=[\"HF_TOKEN\"]"
        ),
        _ => panic!("a dry run is done at once"),
    }
    assert_eq!(ctx.reports[0].dry_run, Some(true));
    assert_eq!(
        ctx.audits[0],
        AuditEvent::ShExec {
            mode: "dry-run",
            kind: "sh.exec".to_string(),
            argv: vec!["echo".to_string(), "hi".to_string()],
            env_keys: vec!["HF_TOKEN [REDACTED]".to_string()],
        }
    );
    // A value that could not be resolved fails a dry run too.
    let failed = begin(
        &mut ctx,
        &admitted,
        Resolved {
            env: Err(secret()),
            value: Ok(String::new()),
        },
    );
    assert_eq!(
        failed.err().unwrap().to_string(),
        "secret 'HF_TOKEN' missing in host env"
    );
    assert_eq!(ctx.reports[1].argv.as_ref().unwrap()[0], "echo");
    assert_eq!(ctx.audits.len(), 1);
}

#[test]
fn a_file_is_told_by_its_length_and_its_source() {
    let phase = ProfileNode::FsWrite {
        id: NodeId(1),
        path: "/workspace/f".to_string(),
        content: Box::new(ProfileNode::EnvSecret {
            id: NodeId(2),
            name: "HF_TOKEN".to_string(),
        }),
    };
    let root = spec(&ALL, vec![phase]);
    let plan = StepPlan::build(&root);
    for mode in [ExecMode::DryRun, ExecMode::Real] {
        let mut ctx = ExecContext::from_root(&root, mode, Vec::new(), &plan).unwrap();
        let admitted = dispatch(&mut ctx, "fs_write", NodeId(1)).ok().unwrap();
        let start = begin(
            &mut ctx,
            &admitted,
            Resolved {
                env: Ok(EnvMap::new()),
                value: Ok("h\u{e9}".to_string()),
            },
        );
        let line = match start.ok().unwrap() {
            Start::Done(line) => line,
            Start::Write(run) => {
                assert_eq!(run.content, "h\u{e9}");
                finish_fs_write(&mut ctx, run, Ok(3)).unwrap()
            }
            _ => panic!("a file is written"),
        };
        assert_eq!(line, "fs_write path=/workspace/f bytes=3");
        assert_eq!(ctx.reports[0].bytes, Some(3));
        assert_eq!(ctx.log, vec![line]);
        match &ctx.audits[0] {
            AuditEvent::FsWrite {
                content_source,
                bytes,
                ..
            } => {
                assert_eq!(content_source, "secret:HF_TOKEN");
                assert_eq!(*bytes, 3);
            }
            other => panic!("expected a file, got {other:?}"),
        }
    }
    let mut ctx = ExecContext::from_root(&root, ExecMode::Real, Vec::new(), &plan).unwrap();
    let admitted = dispatch(&mut ctx, "fs_write", NodeId(1)).ok().unwrap();
    if let Ok(Start::Write(run)) = begin(&mut ctx, &admitted, resolved()) {
        let lost = ExecError::EffectFailed {
            op: "fs_write".to_string(),
            message: "disk full".to_string(),
        };
        assert!(finish_fs_write(&mut ctx, run, Err(lost)).is_err());
    }
    assert_eq!(ctx.reports[0].failure_reason(), "fs_write: disk full");
}

fn post(body: Option<ProfileNode>, body_json: Option<&str>) -> ProfileNode {
    ProfileNode::NetHttpPost {
        id: NodeId(1),
        url: "https://example.com/echo".to_string(),
        headers: Slots::new(),
        body: body.map(Box::new),
        body_json: body_json.map(str::to_string),
        timeout_sec: None,
    }
}

#[test]
fn the_form_of_a_body_decides_its_content_type() {
    let literal = || {
        Some(ProfileNode::EnvLiteral {
            id: NodeId(2),
            value: "x".to_string(),
        })
    };
    for (phase, content_type, body, source) in [
        (post(literal(), None), "application/octet-stream", "v", "body"),
        (post(None, Some("{}")), "application/json", "{}", "body_json"),
        (post(None, None), "application/octet-stream", "", "none"),
    ] {
        let root = spec(&ALL, vec![phase]);
        let plan = StepPlan::build(&root);
        let mut ctx = ExecContext::from_root(&root, ExecMode::Real, Vec::new(), &plan).unwrap();
        let admitted = dispatch(&mut ctx, "net_http_post", NodeId(1)).ok().unwrap();
        let start = begin(
            &mut ctx,
            &admitted,
            Resolved {
                env: Ok(map(&[("A", "1")])),
                value: Ok("v".to_string()),
            },
        );
        match start.ok().unwrap() {
            Start::Http(run) => {
                assert_eq!(
                    run.body,
                    Some((body.to_string(), content_type.to_string()))
                );
                assert_eq!(run.opts.headers.get("A").map(String::as_str), Some("1"));
                let answer = HttpOutcome {
                    status: 201,
                    body_tail: String::new(),
                };
                assert_eq!(
                    finish_http(&mut ctx, run, Ok(answer)).unwrap(),
                    "net_http_post url=https://example.com/echo status=201"
                );
                assert_eq!(ctx.reports[0].status, 201);
            }
            _ => panic!("a request is sent"),
        }
        match &ctx.audits[0] {
            AuditEvent::HttpPost { body_source, .. } => assert_eq!(body_source, source),
            other => panic!("expected a request, got {other:?}"),
        }
    }
    // Both forms at once are refused, and so is a body that could not be
    // resolved.
    let root = spec(&ALL, vec![post(literal(), Some("{}"))]);
    let plan = StepPlan::build(&root);
    let mut ctx = ExecContext::from_root(&root, ExecMode::DryRun, Vec::new(), &plan).unwrap();
    let admitted = dispatch(&mut ctx, "net_http_post", NodeId(1)).ok().unwrap();
    assert_eq!(
        begin(&mut ctx, &admitted, resolved())
            .err()
            .unwrap()
            .to_string(),
        "net_http_post: body and body_json are mutually exclusive"
    );
    let root = spec(&ALL, vec![post(literal(), None)]);
    let plan = StepPlan::build(&root);
    let mut ctx = ExecContext::from_root(&root, ExecMode::DryRun, Vec::new(), &plan).unwrap();
    let admitted = dispatch(&mut ctx, "net_http_post", NodeId(1)).ok().unwrap();
    let failed = begin(
        &mut ctx,
        &admitted,
        Resolved {
            env: Ok(EnvMap::new()),
            value: Err(secret()),
        },
    );
    assert!(failed.is_err());
    match begin(&mut ctx, &admitted, resolved()).ok().unwrap() {
        Start::Done(line) => assert_eq!(
            line,
            "net_http_post url=https://example.com/echo body=body body_bytes=0"
        ),
        _ => panic!("a dry run is done at once"),
    }
}

#[test]
fn a_body_is_named_by_its_source() {
    let value = || Ok("v".to_string());
    for (node, name) in [
        (
            ProfileNode::EnvSecret {
                id: NodeId(2),
                name: "TOKEN".to_string(),
            },
            "body:secret:TOKEN",
        ),
        (
            ProfileNode::EnvRef {
                id: NodeId(2),
                name: "PAYLOAD".to_string(),
            },
            "body:env_ref:PAYLOAD",
        ),
        (
            ProfileNode::EnvLiteral {
                id: NodeId(2),
                value: "x".to_string(),
            },
            "body",
        ),
    ] {
        assert_eq!(
            resolve_post_body(&Some(Box::new(node)), &None, value()).unwrap(),
            (
                "v".to_string(),
                "application/octet-stream".to_string(),
                name.to_string()
            )
        );
    }
    assert_eq!(
        resolve_post_body(&None, &Some("{}".to_string()), value()).unwrap().2,
        "body_json"
    );
    assert_eq!(resolve_post_body(&None, &None, value()).unwrap().2, "none");
}

#[test]
fn a_get_request_says_its_header_names_and_its_deadline() {
    let root = spec(&ALL, vec![get(1, "https://example.com/ping")]);
    let plan = StepPlan::build(&root);
    let mut ctx = ExecContext::from_root(&root, ExecMode::DryRun, Vec::new(), &plan).unwrap();
    let admitted = dispatch(&mut ctx, "net_http_get", NodeId(1)).ok().unwrap();
    let start = begin(
        &mut ctx,
        &admitted,
        Resolved {
            env: Ok(map(&[("Accept", "x")])),
            value: Ok(String::new()),
        },
    );
    match start.ok().unwrap() {
        Start::Done(line) => assert_eq!(
            line,
            "net_http_get url=https://example.com/ping header_names=[\"Accept\"] timeout_sec=9"
        ),
        _ => panic!("a dry run is done at once"),
    }
    let mut ctx = ExecContext::from_root(&root, ExecMode::Real, Vec::new(), &plan).unwrap();
    let admitted = resolve_call(&mut ctx, HTTP_GET_CALL_LABEL, NodeId(1)).ok().unwrap();
    match begin(&mut ctx, &admitted, resolved()).ok().unwrap() {
        Start::Http(run) => {
            assert_eq!(run.body, None);
            assert!(finish_http(&mut ctx, run, Err(secret())).is_err());
        }
        _ => panic!("a request is sent"),
    }
    assert_eq!(ctx.reports[0].op, "net.http_get");
    assert_eq!(ctx.reports[0].status, -1);
}

#[test]
fn a_transfer_reports_where_the_bytes_went() {
    let root = spec(
        &ALL,
        vec![transfer(1, "https://example.com/a", "/workspace/a")],
    );
    let plan = StepPlan::build(&root);
    let mut ctx = ExecContext::from_root(&root, ExecMode::Real, Vec::new(), &plan).unwrap();
    let admitted = dispatch(&mut ctx, "net_transfer", NodeId(1)).ok().unwrap();
    match begin(&mut ctx, &admitted, resolved()).ok().unwrap() {
        Start::Transfer(run) => {
            let outcome = TransferOutcome {
                bytes: 7,
                dst: "/workspace/b".to_string(),
            };
            assert_eq!(
                finish_transfer(&mut ctx, run, Ok(outcome)).unwrap(),
                "net_transfer src=https://example.com/a dst=/workspace/b bytes=7"
            );
        }
        _ => panic!("a transfer is made"),
    }
    assert_eq!(ctx.reports[0].dst.as_deref(), Some("/workspace/b"));
    assert_eq!(ctx.reports[0].bytes, Some(7));
    match begin(&mut ctx, &admitted, resolved()).ok().unwrap() {
        Start::Transfer(run) => {
            assert!(finish_transfer(&mut ctx, run, Err(secret())).is_err());
        }
        _ => panic!("a transfer is made"),
    }
    assert_eq!(ctx.reports[1].dst.as_deref(), Some("/workspace/a"));
    let mut ctx = ExecContext::from_root(&root, ExecMode::DryRun, Vec::new(), &plan).unwrap();
    let admitted = dispatch(&mut ctx, "net_transfer", NodeId(1)).ok().unwrap();
    match begin(&mut ctx, &admitted, resolved()).ok().unwrap() {
        Start::Done(line) => assert_eq!(
            line,
            "net_transfer src=https://example.com/a dst=/workspace/a"
        ),
        _ => panic!("a dry run is done at once"),
    }
}

#[test]
fn a_mount_and_an_unmount_are_reported() {
    let root = spec(
        &ALL,
        vec![
            ProfileNode::MountBind {
                id: NodeId(1),
                src: "/workspace/s".to_string(),
                dst: "/workspace/d".to_string(),
            },
            ProfileNode::MountUmount {
                id: NodeId(2),
                path: "/workspace/d".to_string(),
            },
        ],
    );
    let plan = StepPlan::build(&root);
    let mut ctx = ExecContext::from_root(&root, ExecMode::Real, Vec::new(), &plan).unwrap();
    for (name, id, line) in [
        ("mount_bind", 1, "mount_bind src=/workspace/s dst=/workspace/d"),
        ("mount_umount", 2, "mount_umount path=/workspace/d"),
    ] {
        let admitted = dispatch(&mut ctx, name, NodeId(id)).ok().unwrap();
        match begin(&mut ctx, &admitted, resolved()).ok().unwrap() {
            Start::Mount(run) => {
                assert_eq!(run.src.is_some(), id == 1);
                assert_eq!(finish_mount(&mut ctx, run, Ok(())).unwrap(), line);
            }
            _ => panic!("a mount is made"),
        }
        match begin(&mut ctx, &admitted, resolved()).ok().unwrap() {
            Start::Mount(run) => assert!(finish_mount(&mut ctx, run, Err(secret())).is_err()),
            _ => panic!("a mount is made"),
        }
    }
    assert_eq!(ctx.log.len(), 2);
    assert_eq!(ctx.reports.len(), 4);
    assert_eq!(ctx.reports[3].path.as_deref(), Some("/workspace/d"));
    let mut ctx = ExecContext::from_root(&root, ExecMode::DryRun, Vec::new(), &plan).unwrap();
    let admitted = dispatch(&mut ctx, "mount_umount", NodeId(2)).ok().unwrap();
    assert!(matches!(
        begin(&mut ctx, &admitted, resolved()),
        Ok(Start::Done(_))
    ));
    assert_eq!(ctx.reports[0].dry_run, Some(true));
}

#[test]
fn a_phase_names_the_values_it_is_handed() {
    let literal = ProfileNode::EnvLiteral {
        id: NodeId(2),
        value: "x".to_string(),
    };
    let both = post(Some(literal), Some("{}"));
    let (named, single) = to_resolve(&both);
    assert!(named.is_some() && single.is_none());
    let asked = get(1, "https://example.com/");
    let (named, single) = to_resolve(&asked);
    assert!(named.is_some() && single.is_none());
    let write = ProfileNode::FsWrite {
        id: NodeId(1),
        path: "/workspace/f".to_string(),
        content: Box::new(ProfileNode::EnvLiteral {
            id: NodeId(2),
            value: "x".to_string(),
        }),
    };
    let (named, single) = to_resolve(&write);
    assert!(named.is_none());
    assert_eq!(single.map(ProfileNode::node_id), Some(NodeId(2)));
    assert_eq!(to_resolve(&transfer(1, "a", "b")), (None, None));

    let mut env = Slots::new();
    env.insert(
        "HF_TOKEN".to_string(),
        ProfileNode::EnvSecret {
            id: NodeId(3),
            name: "HF_TOKEN".to_string(),
        },
    );
    let pull = ProfileNode::SyncPull {
        id: NodeId(1),
        src: "hf://o/r/f".to_string(),
        dst: "/workspace".to_string(),
        env,
        revision: None,
    };
    assert_eq!(
        phase_variables(&pull).map(|slots| slots.keys()),
        Some(vec!["HF_TOKEN".to_string()])
    );
    assert!(phase_variables(&sh(1)).is_none());
}

#[test]
fn an_op_given_another_payload_or_an_unknown_name_fails() {
    let root = spec(&ALL, vec![sh(1)]);
    let plan = StepPlan::build(&root);
    let mut ctx = ExecContext::from_root(&root, ExecMode::Real, Vec::new(), &plan).unwrap();
    for (name, message) in [
        ("fs_write", "payload for node n1 is not a FsWrite node"),
        ("net_http_get", "payload for node n1 is not a NetHttpGet node"),
        ("net_http_post", "payload for node n1 is not a NetHttpPost node"),
        ("net_transfer", "payload for node n1 is not a NetTransfer node"),
        ("mount_bind", "payload for node n1 is not a MountBind node"),
        ("mount_umount", "payload for node n1 is not a MountUmount node"),
        ("unheard_of", "unheard_of: op is not registered as direct or lifecycle"),
    ] {
        let admitted = dispatch(&mut ctx, name, NodeId(1)).ok().unwrap();
        let error = begin(&mut ctx, &admitted, resolved()).err().unwrap();
        assert_eq!(error.to_string(), message);
        assert_eq!(ctx.reports.last().unwrap().failure_reason(), message);
    }
}

// ---------------------------------------------------------------------
// Lists of steps
// ---------------------------------------------------------------------

fn models(id: u64, entries: &[(&str, &str)]) -> ProfileNode {
    ProfileNode::Models {
        id: NodeId(id),
        models: Ok(entries
            .iter()
            .map(|(src, dst)| ModelItemSpec {
                src: src.to_string(),
                name: None,
                dst: Some(dst.to_string()),
                subdir: None,
                kind: None,
                sha256: None,
            })
            .collect()),
    }
}

fn moved(dst: &str) -> StepResult {
    let outcome = TransferOutcome {
        bytes: 5,
        dst: dst.to_string(),
    };
    transfer_result("s", Ok(outcome)).ok().unwrap()
}

#[test]
fn a_phase_whose_second_step_is_refused_does_not_run_its_first() {
    let root = spec(
        &ALL,
        vec![models(
            1,
            &[
                ("https://example.com/a", "a"),
                ("https://evil.example.com/b", "b"),
            ],
        )],
    );
    let plan = StepPlan::build(&root);
    let mut ctx = ExecContext::from_root(&root, ExecMode::Real, Vec::new(), &plan).unwrap();
    let admitted = dispatch(&mut ctx, "models", NodeId(1)).ok().unwrap();
    assert!(matches!(
        run_lifecycle(&mut ctx, &admitted, Ok(EnvMap::new())),
        Err(ExecError::HttpDenied { .. })
    ));
    let by_op = ctx.reports[0].to_json();
    // Step by step, the first step is refused for the second one's sake.
    let mut ctx = ExecContext::from_root(&root, ExecMode::Real, Vec::new(), &plan).unwrap();
    let node = plan.phase(NodeId(1)).unwrap().nodes[0];
    let call = find_lifecycle_step(&mut ctx, node).ok().unwrap();
    let error = begin_lifecycle_step(&mut ctx, &call, Ok(EnvMap::new()))
        .err()
        .unwrap();
    assert_eq!(
        error.0,
        "'https://evil.example.com/b' matches no pattern in profile.http_allowlist"
    );
    assert_eq!(ctx.reports[0].to_json(), by_op);
    assert!(ctx.audits.is_empty());
}

#[test]
fn a_phase_runs_its_steps_and_says_what_they_came_to() {
    let entries = [
        ("https://example.com/a", "a"),
        ("https://example.com/b", "b"),
    ];
    let root = spec(&ALL, vec![sh(2), models(1, &entries)]);
    let plan = StepPlan::build(&root);
    let mut ctx = ExecContext::from_root(&root, ExecMode::Real, Vec::new(), &plan).unwrap();
    let admitted = dispatch(&mut ctx, "models", NodeId(1)).ok().unwrap();
    let run = run_lifecycle(&mut ctx, &admitted, Ok(EnvMap::new())).ok().unwrap();
    assert_eq!(run.steps.len(), 2);
    let mut said = Vec::new();
    for index in 0..run.steps.len() {
        begin_phase_step(&mut ctx, &run, index);
        let outcome = Ok(StepRun::Real(moved("/w")));
        said.push(finish_phase_step(&mut ctx, &run, index, outcome).unwrap());
    }
    assert_eq!(
        finish_lifecycle(&mut ctx, &run, &said),
        "models transfer src=s dst=/w bytes=5; transfer src=s dst=/w bytes=5"
    );
    assert_eq!(ctx.log.len(), 1);
    assert_eq!(ctx.audits.len(), 2);
    let entry = &ctx.reports[1];
    assert_eq!(
        (entry.id.as_str(), entry.kind.as_str(), entry.op.as_str()),
        ("2_models_2", "models", "net.transfer")
    );
    assert_eq!(entry.dst.as_deref(), Some("/w"));
    assert_eq!(entry.declared_at, Some((2, 2)));

    // Step by step, in the order they finish, the entries are the same.
    let mut calls = ExecContext::from_root(&root, ExecMode::Real, Vec::new(), &plan).unwrap();
    for index in [1, 0] {
        let node = plan.phase(NodeId(1)).unwrap().nodes[index];
        let call = find_lifecycle_step(&mut calls, node).ok().unwrap();
        assert_eq!(call.payload().node_id(), NodeId(1));
        let task = begin_lifecycle_step(&mut calls, &call, Ok(EnvMap::new()))
            .ok()
            .unwrap();
        assert_eq!(task.op, "models");
        assert!(matches!(task.step.step, Step::Transfer { .. }));
        let value = finish_lifecycle_step(&mut calls, task, Ok(StepRun::Real(moved("/w"))));
        assert_eq!(value.unwrap(), "models transfer src=s dst=/w bytes=5");
    }
    let mut reports = calls.reports;
    in_declaration_order(&mut reports);
    for (a, b) in reports.iter().zip(&ctx.reports) {
        assert_eq!(a.to_json(), b.to_json());
    }
}

#[test]
fn a_step_that_fails_keeps_the_code_it_ended_in() {
    let phase = ProfileNode::SystemApt {
        id: NodeId(1),
        packages: vec!["git".to_string()],
    };
    let root = spec(&ALL, vec![phase]);
    let plan = StepPlan::build(&root);
    let mut ctx = ExecContext::from_root(&root, ExecMode::Real, Vec::new(), &plan).unwrap();
    let node = plan.phase(NodeId(1)).unwrap().nodes[0];
    let call = find_lifecycle_step(&mut ctx, node).ok().unwrap();
    let task = begin_lifecycle_step(&mut ctx, &call, Ok(EnvMap::new()))
        .ok()
        .unwrap();
    let failure = sh_result(
        &vec!["apt-get".to_string()],
        "system_apt",
        Ok(exec_outcome(Some(100), b"", b"no network")),
    )
    .err()
    .unwrap();
    let error = finish_lifecycle_step(&mut ctx, task, Err(failure)).err().unwrap();
    assert_eq!(
        error.0,
        "system_apt: sh [\"apt-get\"] failed: exit 100 stderr=\"no network\""
    );
    let entry = &ctx.reports[0];
    assert_eq!((entry.id.as_str(), entry.status), ("1_system.apt_1", 100));
    assert_eq!(entry.stderr.as_deref(), Some("no network"));
    assert!(ctx.log.is_empty());

    // A failure of the phase's variables is the phase's.
    let failed = begin_lifecycle_step(&mut ctx, &call, Err(secret())).err().unwrap();
    assert_eq!(failed.0, "secret 'HF_TOKEN' missing in host env");
    assert_eq!(ctx.reports[1].id, "1_system.apt");
    // An identity that stands for no step is answered in words.
    assert_eq!(
        find_lifecycle_step(&mut ctx, NodeId(5)).err().unwrap().0,
        "n5 is labelled 'lifecycle.step' but the step plan does not project it; \
         the AST and the plan disagree"
    );
}

#[test]
fn a_call_is_taken_by_its_label() {
    let root = spec(
        &ALL,
        vec![
            models(1, &[("https://example.com/a", "a")]),
            get(2, "https://example.com/ping"),
        ],
    );
    let plan = StepPlan::build(&root);
    let mut ctx = ExecContext::from_root(&root, ExecMode::Real, Vec::new(), &plan).unwrap();
    let node = plan.phase(NodeId(1)).unwrap().nodes[0];
    match take_call(&mut ctx, LIFECYCLE_STEP_CALL_LABEL, node) {
        Ok(Taken::Step(call)) => assert_eq!(call.payload().node_id(), NodeId(1)),
        _ => panic!("a step is taken"),
    }
    match take_call(&mut ctx, HTTP_GET_CALL_LABEL, NodeId(2)) {
        Ok(Taken::Phase(admitted)) => {
            assert_eq!((admitted.name(), admitted.node()), ("net_http_get", NodeId(2)))
        }
        _ => panic!("a phase is taken"),
    }
    assert!(ctx.reports.is_empty());
    // A step that the plan does not know.
    assert_eq!(
        take_call(&mut ctx, LIFECYCLE_STEP_CALL_LABEL, NodeId(5))
            .err()
            .unwrap()
            .0,
        "n5 is labelled 'lifecycle.step' but the step plan does not project it; \
         the AST and the plan disagree"
    );
    assert_eq!(
        take_call(&mut ctx, "unheard.of", NodeId(2)).err().unwrap().0,
        "no host resolver is registered for the call 'unheard.of'"
    );
    assert_eq!(
        take_call(&mut ctx, TRANSFER_CALL_LABEL, NodeId(2)).err().unwrap().0,
        "payload for node n2 is not a NetTransfer node"
    );
}

#[test]
fn a_phase_stops_at_the_first_step_that_fails() {
    let entries = [
        ("https://example.com/a", "a"),
        ("https://example.com/b", "b"),
        ("https://example.com/c", "c"),
    ];
    let root = spec(&ALL, vec![models(1, &entries)]);
    let plan = StepPlan::build(&root);
    let mut ctx = ExecContext::from_root(&root, ExecMode::Real, Vec::new(), &plan).unwrap();
    let admitted = dispatch(&mut ctx, "models", NodeId(1)).ok().unwrap();
    let run = run_lifecycle(&mut ctx, &admitted, Ok(EnvMap::new())).ok().unwrap();
    assert_eq!(next_phase_step(&run, 0, false), Some(0));
    assert_eq!(next_phase_step(&run, 2, false), Some(2));
    assert_eq!(next_phase_step(&run, 3, false), None);
    assert_eq!(next_phase_step(&run, 1, true), None);
    let mut failed = false;
    let mut done = 0;
    while let Some(index) = next_phase_step(&run, done, failed) {
        begin_phase_step(&mut ctx, &run, index);
        let outcome = if index == 1 {
            Err(ExecError::EffectFailed {
                op: "models".to_string(),
                message: "gone".to_string(),
            }
            .into())
        } else {
            Ok(StepRun::Real(moved("/w")))
        };
        failed = finish_phase_step(&mut ctx, &run, index, outcome).is_err();
        done = index + 1;
    }
    assert!(failed);
    assert_eq!((ctx.reports.len(), ctx.audits.len()), (2, 2));
    let last = ctx.reports.last().unwrap();
    assert_eq!((last.ok, last.status), (false, -1));
    assert_eq!(last.failure_reason(), "models: gone");
    assert!(ctx.log.is_empty());
}

#[test]
fn a_note_carries_no_mark_of_a_dry_run() {
    let root = spec(
        &ALL,
        vec![
            ProfileNode::SyncPush {
                id: NodeId(1),
                src: "/workspace/a".to_string(),
                dst: "https://example.com/a".to_string(),
            },
            models(2, &[("https://example.com/a", "a")]),
        ],
    );
    let plan = StepPlan::build(&root);
    let mut ctx = ExecContext::from_root(&root, ExecMode::DryRun, Vec::new(), &plan).unwrap();
    for (name, id) in [("sync_push", 1), ("models", 2)] {
        let admitted = dispatch(&mut ctx, name, NodeId(id)).ok().unwrap();
        let run = run_lifecycle(&mut ctx, &admitted, Ok(EnvMap::new())).ok().unwrap();
        begin_phase_step(&mut ctx, &run, 0);
        let said = dry_run_step(
            &run.steps[0],
            &run.env,
            &Host { exists: true },
            &mut ExecutionIds::new(),
        );
        finish_phase_step(&mut ctx, &run, 0, Ok(StepRun::Dry(said))).unwrap();
    }
    assert_eq!((ctx.reports[0].op.as_str(), ctx.reports[0].dry_run), ("note", None));
    assert_eq!(ctx.reports[1].dry_run, Some(true));
    assert!(ctx.reports[1]
        .note
        .as_deref()
        .unwrap()
        .starts_with("would skip, already done: "));
    // A payload that could not be read fails the phase.
    let broken = ProfileNode::Models {
        id: NodeId(1),
        models: Err("bad".to_string()),
    };
    let root = spec(&ALL, vec![broken]);
    let plan = StepPlan::build(&root);
    let mut ctx = ExecContext::from_root(&root, ExecMode::Real, Vec::new(), &plan).unwrap();
    let admitted = dispatch(&mut ctx, "models", NodeId(1)).ok().unwrap();
    assert!(run_lifecycle(&mut ctx, &admitted, Ok(EnvMap::new())).is_err());
    assert!(!ctx.reports[0].ok);
}

// ---------------------------------------------------------------------
// Around a step
// ---------------------------------------------------------------------

/// A host on which every file is there, or none.
struct Host {
    exists: bool,
}

impl Observe for Host {
    fn file_exists(&self, _path: &str) -> Result<bool, CheckError> {
        Ok(self.exists)
    }

    fn file_digest(&self, _path: &str) -> Result<DigestReading, CheckError> {
        Ok(DigestReading::Absent)
    }

    fn command_status(&self, _argv: &Vec<String>) -> Result<i32, CheckError> {
        Ok(0)
    }

    fn process_alive(&self, _pid_file: &str) -> Result<bool, CheckError> {
        Ok(false)
    }

    fn process_argv(&self, _pid_file: &str) -> Result<ArgvReading, CheckError> {
        Ok(ArgvReading::NoProcess)
    }
}

#[test]
fn a_failure_with_nothing_observed_keeps_the_default_result() {
    let failure: StepFailure = ExecError::EffectFailed {
        op: "models".to_string(),
        message: "malformed payload".to_string(),
    }
    .into();
    assert_eq!(*failure.observed, StepResult::default());
    assert_eq!(failure.observed.status, 0, "the report substitutes -1");
}

#[test]
fn only_a_finished_step_is_skipped() {
    let root = spec(&ALL, vec![models(1, &[("https://example.com/a", "a")])]);
    let plan = StepPlan::build(&root);
    let planned = &plan.phase(NodeId(1)).unwrap().steps[0];
    let env = EnvMap::new();
    let mut ids = ExecutionIds::new();
    match begin_step(planned, &env, &Host { exists: true }, &mut ids) {
        StepStart::Skip(result) => assert_eq!(
            result.note.as_deref(),
            Some(
                "skipped, already done: \
                 exists(/workspace/ComfyUI/models/checkpoints/a)=satisfied"
            )
        ),
        StepStart::Run(_) => panic!("a finished step is skipped"),
    }
    match begin_step(planned, &env, &Host { exists: false }, &mut ids) {
        StepStart::Run(node) => {
            assert_eq!(
                node.as_ref().unwrap().outcome(),
                &AssertOutcome::Unsatisfied
            );
            let result = finish_step(planned, &node, Ok(moved("/w"))).ok().unwrap();
            assert!(result.note.unwrap().starts_with("not done: "));
        }
        StepStart::Skip(_) => panic!("an unfinished step runs"),
    }
    let always = PlannedStep::always(Step::Note("n".to_string()));
    assert!(matches!(
        begin_step(&always, &env, &Host { exists: true }, &mut ids),
        StepStart::Run(None)
    ));
    assert_eq!(note_result("n").summary, "note \"n\"");
}

#[test]
fn only_a_condition_that_is_asked_takes_an_identity() {
    let root = spec(&ALL, vec![models(1, &[("https://example.com/a", "a")])]);
    let plan = StepPlan::build(&root);
    let planned = &plan.phase(NodeId(1)).unwrap().steps[0];
    let always = PlannedStep::always(Step::Note("n".to_string()));
    let env = EnvMap::new();
    let host = Host { exists: false };
    let mut ids = ExecutionIds::new();
    begin_step(&always, &env, &host, &mut ids);
    dry_run_step(&always, &env, &host, &mut ids);
    assert_eq!(ids.next, 1);
    match begin_step(planned, &env, &host, &mut ids) {
        StepStart::Run(Some(AssertNode::Leaf { id, .. })) => {
            assert_eq!(id, AssertExecutionId(1))
        }
        _ => panic!("an unfinished step runs"),
    }
    assert_eq!(ids.next, 2);
    dry_run_step(planned, &env, &host, &mut ids);
    assert_eq!(ids.next, 3);
}

// ---------------------------------------------------------------------
// Waiting for a server
// ---------------------------------------------------------------------

/// A wait that watches a launch.
fn watching() -> PollTarget<'static> {
    PollTarget {
        url: "http://h/ready",
        timeout_sec: 30,
        watched: true,
        log_path: Some("/tmp/svc.log"),
        op: "service_ready",
    }
}

/// The message a wait failed with.
fn failed_with(action: PollAction) -> String {
    match action {
        PollAction::Over(Err(failure)) => failure.error.to_string(),
        other => panic!("expected a failure, got {other:?}"),
    }
}

#[test]
fn a_wait_fails_at_once_when_a_launch_it_saw_is_gone() {
    let (mut poll, first) = HttpPoll::begin();
    let target = watching();
    assert!(matches!(first, PollAction::Ask));
    assert!(matches!(
        poll.answered(&target, Err(secret())),
        PollAction::Probe
    ));
    assert!(matches!(
        poll.probed(&target, Liveness::Alive),
        PollAction::Clock
    ));
    assert!(matches!(poll.clock(&target, false), PollAction::Pause(2)));
    assert!(matches!(
        poll.probed(&target, Liveness::Unknown),
        PollAction::Clock
    ));
    assert!(matches!(
        poll.probed(&target, Liveness::Dead(42)),
        PollAction::ReadLog(42)
    ));
    assert_eq!(
        failed_with(poll.read_log(&target, 42, Ok("a\nb\n".to_string()))),
        "service_ready: process died during readiness wait (pid 42); http://h/ready never \
         answered\n--- /tmp/svc.log (last 2 lines) ---\na\nb"
    );
    let unlogged = PollTarget {
        log_path: None,
        ..watching()
    };
    assert_eq!(
        failed_with(poll.probed(&unlogged, Liveness::Dead(42))),
        "service_ready: process died during readiness wait (pid 42); http://h/ready never answered"
    );
}

#[test]
fn a_process_never_seen_running_is_never_a_death() {
    let (mut poll, _) = HttpPoll::begin();
    let target = watching();
    for _ in 0..2 {
        assert!(matches!(
            poll.probed(&target, Liveness::Dead(42)),
            PollAction::Clock
        ));
    }
    assert_eq!(
        failed_with(poll.clock(&target, true)),
        "service_ready: HTTP poll of http://h/ready timed out after 30s (no response)"
    );
    assert!(matches!(
        poll.answered(&target, Ok(503)),
        PollAction::Probe
    ));
    assert_eq!(
        failed_with(poll.clock(&target, true)),
        "service_ready: HTTP poll of http://h/ready timed out after 30s (last status=503)"
    );
    match poll.answered(&target, Ok(200)) {
        PollAction::Over(Ok(result)) => {
            assert_eq!(result.status, 200);
            assert_eq!(result.summary, "http_poll url=http://h/ready status=200");
        }
        other => panic!("expected the end of the wait, got {other:?}"),
    }
    let unwatched = PollTarget {
        watched: false,
        ..watching()
    };
    assert!(matches!(
        poll.answered(&unwatched, Err(secret())),
        PollAction::Clock
    ));
}

#[test]
fn liveness_is_read_from_a_number_and_a_look() {
    assert_eq!(pid_in(" 42\n"), Some(42));
    assert_eq!(pid_in("x"), None);
    assert_eq!(liveness(Some(1), true), Liveness::Alive);
    assert_eq!(liveness(Some(1), false), Liveness::Dead(1));
    assert_eq!(liveness(None, true), Liveness::Unknown);
    let long: String = (0..200).map(|i| format!("line {i}\n")).collect();
    let tail = log_tail("/tmp/x.log", Ok(long));
    assert!(tail.contains("line 199") && !tail.contains("line 99\n"));
}
