//! What holds of the library as a whole, on chosen values.

use lm_provision::admission::{dispatch, DIRECT_OPS};
use lm_provision::calls::{EffectRoute, ProfileCallAst};
use lm_provision::capgate::{CapabilityGate, KNOWN_CAPABILITIES};
use lm_provision::condition::{
    eval, ArgvReading, Assert, AssertExecutionId, AssertNode, AssertOutcome, CheckError,
    CheckErrorCategory, DigestReading, Done, ExecutionIds, ModelFile, NonEmpty, Observe, Service,
};
use lm_provision::context::ExecContext;
use lm_provision::demand;
use lm_provision::exec::{ExecError, ExecMode};
use lm_provision::lifecycle::{expand, PlannedStep, Step};
use lm_provision::names::EnvMap;
use lm_provision::payload::{build_payload_map, payload_at};
use lm_provision::policy::{HttpPolicy, PathPolicy};
use lm_provision::profile::{NodeId, ProfileNode, Slots};
use lm_provision::registry::{begin, finish_sh_exec, Resolved, Start};
use lm_provision::running::{dry_run_step, render_dry};
use lm_provision::scheme::{resolve, Transfer};
use lm_provision::steps::StepPlan;

fn owned(list: &[&str]) -> Vec<String> {
    list.iter().map(|entry| entry.to_string()).collect()
}

fn env(entries: &[(&str, &str)]) -> EnvMap {
    let mut map = EnvMap::new();
    for (name, value) in entries {
        map.insert(name.to_string(), value.to_string());
    }
    map
}

fn profile(phases: Vec<ProfileNode>) -> ProfileNode {
    ProfileNode::Spec {
        id: NodeId(50),
        name: "demo".to_string(),
        version: None,
        description: None,
        capabilities: owned(&KNOWN_CAPABILITIES),
        env: Slots::new(),
        env_secrets: Vec::new(),
        paths: owned(&["/workspace"]),
        http_allowlist: owned(&["https://example.com"]),
        phases,
    }
}

/// A host whose answers are fixed.
struct Fixed {
    exists: Result<bool, ()>,
    digest: &'static str,
    argv: Vec<String>,
}

impl Observe for Fixed {
    fn file_exists(&self, path: &str) -> Result<bool, CheckError> {
        self.exists
            .map_err(|_| CheckError::new(CheckErrorCategory::Unobservable, path))
    }

    fn file_digest(&self, _path: &str) -> Result<DigestReading, CheckError> {
        Ok(DigestReading::Present(self.digest.to_string()))
    }

    fn command_status(&self, _argv: &Vec<String>) -> Result<i32, CheckError> {
        Ok(0)
    }

    fn process_alive(&self, _pid_file: &str) -> Result<bool, CheckError> {
        Ok(true)
    }

    fn process_argv(&self, _pid_file: &str) -> Result<ArgvReading, CheckError> {
        Ok(ArgvReading::Argv(self.argv.clone()))
    }
}

fn fixed(exists: Result<bool, ()>) -> Fixed {
    Fixed {
        exists,
        digest: "aa",
        argv: owned(&["srv"]),
    }
}

fn model(digest: &str) -> Assert {
    ModelFile::new("/workspace/m", Some(digest.to_string())).done()
}

// ---------------------------------------------------------------------
// Lists and routes
// ---------------------------------------------------------------------

#[test]
fn a_longer_list_admits_more() {
    let few = PathPolicy::new(&owned(&["/a"]));
    let many = PathPolicy::new(&owned(&["/b", "/a"]));
    for path in ["/a", "/a/x", "/b/x", "/c", "/a/../b"] {
        assert!(!few.is_allowed(path) || many.is_allowed(path), "{path}");
    }
    assert!(!few.is_allowed("/b/x") && many.is_allowed("/b/x"));
    let few = HttpPolicy::new(&owned(&["https://a.example"]));
    let many = HttpPolicy::new(&owned(&["https://*.example", "https://a.example"]));
    assert!(few.is_allowed("https://a.example/x") && many.is_allowed("https://a.example/x"));
    assert!(!few.is_allowed("https://b.example/x") && many.is_allowed("https://b.example/x"));
    let none = (PathPolicy::new(&Vec::new()), HttpPolicy::new(&Vec::new()));
    assert!(!none.0.is_allowed("/a") && !none.1.is_allowed("https://a.example"));
}

#[test]
fn a_wildcard_stops_at_the_first_slash() {
    let policy = HttpPolicy::new(&owned(&["https://*.example.com/models"]));
    assert!(policy.is_allowed("https://cdn.example.com/models/a"));
    assert!(!policy.is_allowed("https://evil.test/.example.com/models/a"));
    assert!(!policy.is_allowed("https://cdn.example.com"));
}

#[test]
fn a_gate_holds_what_was_declared_and_is_known() {
    let gate = CapabilityGate::build(&owned(&["fs.write", "sh.exec"])).expect("known");
    for capability in KNOWN_CAPABILITIES {
        let declared = capability == "fs.write" || capability == "sh.exec";
        assert_eq!(gate.is_granted(capability), declared);
        assert_eq!(gate.require(capability).is_ok(), declared);
    }
    match CapabilityGate::build(&owned(&["sh.exec", "one", "two"])) {
        Err(ExecError::CapabilityUnknown(name)) => assert_eq!(name, "one"),
        other => panic!("expected the first unknown one, got {other:?}"),
    }
}

#[test]
fn what_a_transfer_demands_is_what_it_reaches() {
    for (src, dst) in [
        ("hf://o/r/f", "/workspace/f"),
        ("/workspace/f", "https://example.com/f"),
    ] {
        let demanded = demand::step(&Step::Transfer {
            src: src.to_string(),
            dst: dst.to_string(),
        })
        .expect("resolves");
        let url = match resolve("net_transfer", src, dst).expect("resolves") {
            Transfer::Download { url } | Transfer::Upload { url } => url,
        };
        assert!(url.starts_with("https://"));
        assert_eq!(demanded.urls, vec![url]);
        assert_eq!(demanded.paths, owned(&["/workspace/f"]));
    }
}

#[test]
fn every_node_is_found_by_its_identity() {
    let mut slots = Slots::new();
    slots.insert(
        "A".to_string(),
        ProfileNode::EnvLiteral {
            id: NodeId(3),
            value: "x".to_string(),
        },
    );
    let root = profile(vec![ProfileNode::ShExec {
        id: NodeId(2),
        argv: owned(&["true"]),
        env: slots,
    }]);
    let map = build_payload_map(&root);
    assert_eq!(map.len(), 3);
    for id in [2, 3, 50] {
        assert_eq!(payload_at(&map, NodeId(id)).expect("found").node_id(), NodeId(id));
    }
    assert!(payload_at(&map, NodeId(4)).is_none());
}

// ---------------------------------------------------------------------
// Conditions
// ---------------------------------------------------------------------

#[test]
fn a_host_that_does_not_change_answers_alike() {
    let condition = model("aa");
    let host = fixed(Ok(true));
    let mut ids = ExecutionIds::new();
    let first = eval(&condition, ExecMode::Real, &host, &mut ids);
    let second = eval(&condition, ExecMode::Real, &host, &mut ids);
    assert_eq!(first.outcome(), second.outcome());
    assert_ne!(first, second, "each evaluation has identities of its own");
}

#[test]
fn a_dry_run_decides_only_what_a_real_run_decides_alike() {
    for exists in [Ok(true), Ok(false), Err(())] {
        for digest in ["aa", "bb"] {
            let host = fixed(exists);
            let mut ids = ExecutionIds::new();
            let condition = model(digest);
            let dry = eval(&condition, ExecMode::DryRun, &host, &mut ids);
            let run = eval(&condition, ExecMode::Real, &host, &mut ids);
            match dry.outcome() {
                AssertOutcome::Satisfied => assert_eq!(run.outcome(), &AssertOutcome::Satisfied),
                AssertOutcome::Unsatisfied => {
                    assert_eq!(run.outcome(), &AssertOutcome::Unsatisfied)
                }
                _ => {}
            }
        }
    }
}

#[test]
fn the_identities_of_an_evaluation_count_up() {
    let inner = Assert::All(NonEmpty::new(
        Assert::FileExists {
            path: "/b".to_string(),
        },
        Vec::new(),
    ));
    let condition = Assert::All(NonEmpty::new(
        Assert::FileExists {
            path: "/a".to_string(),
        },
        vec![inner],
    ));
    let mut ids = ExecutionIds { next: 7 };
    let node = eval(&condition, ExecMode::Real, &fixed(Ok(true)), &mut ids);
    let AssertNode::All { id, children, .. } = &node else {
        panic!("a conjunction gives a conjunction");
    };
    assert_eq!(*id, AssertExecutionId(10));
    assert!(matches!(
        children.head(),
        AssertNode::Leaf {
            id: AssertExecutionId(7),
            ..
        }
    ));
    assert!(matches!(
        children.get(1),
        Some(AssertNode::All {
            id: AssertExecutionId(9),
            ..
        })
    ));
    assert_eq!(ids.next, 11);
}

#[test]
fn a_service_is_finished_only_as_it_was_declared() {
    let mut ids = ExecutionIds::new();
    for (declared, satisfied) in [(owned(&["srv"]), true), (owned(&["srv", ""]), false)] {
        let done = Service::new("/tmp/svc.pid", declared).done();
        let node = eval(&done, ExecMode::Real, &fixed(Ok(true)), &mut ids);
        assert_eq!(node.is_satisfied(), satisfied);
    }
}

#[test]
fn a_dry_run_says_which_way_a_step_would_go() {
    let planned = |done: Assert| {
        PlannedStep::done_when(
            Step::Transfer {
                src: "https://example.com/m".to_string(),
                dst: "/workspace/m".to_string(),
            },
            done,
        )
    };
    let plain = ModelFile::new("/workspace/m", None).done();
    for (done, exists, begins) in [
        (plain, Ok(true), "would skip, already done: "),
        (model("aa"), Ok(false), "would transfer, not done: "),
        (
            model("aa"),
            Ok(true),
            "undecided (not evaluated in a dry run), would transfer: ",
        ),
    ] {
        let said = dry_run_step(
            &planned(done),
            &EnvMap::new(),
            &fixed(exists),
            &mut ExecutionIds::new(),
        );
        let note = said.note.expect("a step with a condition answers");
        assert!(note.starts_with(begins), "{note}");
        assert_eq!(
            said.summary,
            format!("transfer src=https://example.com/m dst=/workspace/m {note}")
        );
    }
    let free = PlannedStep::always(Step::Note("n".to_string()));
    let said = dry_run_step(
        &free,
        &EnvMap::new(),
        &fixed(Ok(true)),
        &mut ExecutionIds::new(),
    );
    assert_eq!(said.note, None);
}

// ---------------------------------------------------------------------
// Runs
// ---------------------------------------------------------------------

#[test]
fn values_are_handed_over_and_never_told() {
    let root = profile(vec![ProfileNode::ShExec {
        id: NodeId(1),
        argv: owned(&["env"]),
        env: Slots::new(),
    }]);
    let plan = StepPlan::build(&root);
    let mut told = Vec::new();
    for value in ["first", "second"] {
        let mut ctx = ExecContext::from_root(&root, ExecMode::Real, Vec::new(), &plan).unwrap();
        let admitted = dispatch(&mut ctx, "sh_exec", NodeId(1)).ok().unwrap();
        let resolved = Resolved {
            env: Ok(env(&[("HF_TOKEN", value)])),
            value: Ok(String::new()),
        };
        match begin(&mut ctx, &admitted, resolved).ok().unwrap() {
            Start::Sh(run) => {
                assert_eq!(run.opts.env.get("HF_TOKEN").map(String::as_str), Some(value));
                assert!(!run.opts.render().contains(value));
            }
            _ => panic!("a real run asks for the effect"),
        }
        told.push(format!("{:?} {:?} {:?}", ctx.log, ctx.reports, ctx.audits));
    }
    assert_eq!(told[0], told[1]);
    assert!(!told[0].contains("first"));
    let step = Step::Sh(owned(&["env"]));
    assert_eq!(
        render_dry(&step, &env(&[("A", "1")])),
        render_dry(&step, &env(&[("A", "2")]))
    );
}

#[test]
fn what_a_run_has_said_stays_said() {
    let root = profile(vec![ProfileNode::ShExec {
        id: NodeId(1),
        argv: owned(&["false"]),
        env: Slots::new(),
    }]);
    let plan = StepPlan::build(&root);
    let mut ctx =
        ExecContext::from_root(&root, ExecMode::Real, owned(&["before"]), &plan).unwrap();
    let mut said = Vec::new();
    for name in DIRECT_OPS {
        let admitted = dispatch(&mut ctx, name, NodeId(1)).ok().unwrap();
        let resolved = Resolved {
            env: Ok(EnvMap::new()),
            value: Ok(String::new()),
        };
        if let Ok(Start::Sh(run)) = begin(&mut ctx, &admitted, resolved) {
            let lost = ExecError::EffectFailed {
                op: name.to_string(),
                message: "lost".to_string(),
            };
            assert!(finish_sh_exec(&mut ctx, run, Err(lost)).is_err());
        }
        let reports: Vec<String> = ctx.reports.iter().map(|r| format!("{r:?}")).collect();
        assert!(reports.starts_with(&said), "an entry was changed");
        assert_eq!(reports.len(), said.len() + 1);
        assert!(!ctx.reports.last().unwrap().ok);
        said = reports;
    }
    assert_eq!(ctx.log, owned(&["before"]));
    assert!(ctx.gate.is_granted("sh.exec"));
}

#[test]
fn a_dry_run_fails_where_the_real_one_would() {
    let root = profile(vec![ProfileNode::FsWrite {
        id: NodeId(1),
        path: "/workspace/f".to_string(),
        content: Box::new(ProfileNode::EnvSecret {
            id: NodeId(2),
            name: "HF_TOKEN".to_string(),
        }),
    }]);
    let plan = StepPlan::build(&root);
    let mut errors = Vec::new();
    for mode in [ExecMode::DryRun, ExecMode::Real] {
        let mut ctx = ExecContext::from_root(&root, mode, Vec::new(), &plan).unwrap();
        let admitted = dispatch(&mut ctx, "fs_write", NodeId(1)).ok().unwrap();
        let resolved = Resolved {
            env: Ok(EnvMap::new()),
            value: Err(ExecError::SecretUndeclared {
                name: "HF_TOKEN".to_string(),
            }),
        };
        let error = begin(&mut ctx, &admitted, resolved).err().unwrap();
        errors.push(error.to_string());
        assert_eq!(ctx.reports[0].reason.as_ref(), errors.last());
    }
    assert_eq!(errors[0], errors[1]);
    assert_eq!(
        errors[0],
        "secret 'HF_TOKEN' is not declared in profile.env_secrets"
    );
}

#[test]
fn only_a_clone_a_checkout_and_a_model_file_are_conditioned() {
    let phases = [
        (
            ProfileNode::SystemApt {
                id: NodeId(1),
                packages: owned(&["git"]),
            },
            false,
        ),
        (
            ProfileNode::ComfyUiInstall {
                id: NodeId(1),
                ref_name: "v1".to_string(),
                repo: None,
            },
            true,
        ),
        (
            ProfileNode::PostInstall {
                id: NodeId(1),
                script: "true".to_string(),
            },
            false,
        ),
    ];
    for (phase, conditioned) in phases {
        let steps = expand(&phase).expect("expands");
        assert!(steps.iter().all(|step| step.done.is_some() == conditioned));
    }
}

#[test]
fn the_op_route_changes_no_direct_phase() {
    let root = profile(vec![ProfileNode::NetTransfer {
        id: NodeId(1),
        src: "https://example.com/a".to_string(),
        dst: "/workspace/a".to_string(),
    }]);
    let plan = StepPlan::build(&root);
    let by_op = ProfileCallAst::new(&root, EffectRoute::Op, &plan);
    let by_call = ProfileCallAst::new(&root, EffectRoute::Call, &plan);
    assert!(by_op.node_kind(NodeId(1)).is_none());
    assert!(by_call.node_kind(NodeId(1)).is_some());
    assert!(by_call.node_kind(NodeId(50)).is_none());
}
