//! Conditions: how they fold, what they ask of a host and how they read.

use lm_provision::condition;
use lm_provision::condition::{
    describe, describe_execution, fold_all, git_tree_at_argv, not, write_assert, ArgvReading, Assert,
    AssertExecutionId, AssertNode, AssertOutcome, CheckError, CheckErrorCategory, Checkout,
    DigestReading, Done, ExecutionIds, ModelFile, NonEmpty, Observe, Service,
};
use lm_provision::exec::ExecMode;
use std::cell::RefCell;
use std::collections::BTreeMap;

// -----------------------------------------------------------------
// A fixed-response host
// -----------------------------------------------------------------

/// The state a path can be in, from an observation's point of view.
#[derive(Debug, Clone, Copy, PartialEq, Eq)]
enum HostFile {
    /// Nothing there.
    Absent,
    /// There, and the observation succeeds; carries the content.
    Readable(&'static str),
    /// There or not — the observation itself fails (EACCES and the
    /// like).
    Unobservable,
}

/// How a command ends, from an observation's point of view.
#[derive(Debug, Clone, Copy, PartialEq, Eq)]
enum HostCommand {
    /// It ran and exited with this status.
    Exits(i32),
    /// It could not be started at all (the binary is not there).
    Unrunnable,
}

#[derive(Debug, Clone, Copy, PartialEq, Eq)]
enum HostProcess {
    /// No pid file: nothing has recorded a launch here.
    NoLaunch,
    /// The pid file names a process that is gone.
    Gone,
    /// The pid file names a live process, started with this argv.
    Running(&'static [&'static str]),
    /// There is a pid file, and it yields no pid — unreadable, or
    /// not (yet) a number.
    Unusable,
}

/// Answers observations from a fixed table, so a whole evaluation is
/// reproducible without touching the real filesystem — or spawning
/// anything.
struct FakeHost {
    files: BTreeMap<String, HostFile>,
    commands: BTreeMap<Vec<String>, HostCommand>,
    processes: BTreeMap<String, HostProcess>,
    ids: RefCell<ExecutionIds>,
}

impl FakeHost {
    fn new(entries: &[(&str, HostFile)]) -> Self {
        Self {
            files: entries
                .iter()
                .map(|(path, state)| (path.to_string(), *state))
                .collect(),
            commands: BTreeMap::new(),
            processes: BTreeMap::new(),
            ids: RefCell::new(ExecutionIds::new()),
        }
    }

    fn running(mut self, argv: Vec<String>, reply: HostCommand) -> Self {
        self.commands.insert(argv, reply);
        self
    }

    /// Fix what a launch left at `pid_file`. A path this is not
    /// called for is [`HostProcess::NoLaunch`], matching the
    /// filesystem default of "absent".
    fn launched(mut self, pid_file: &str, state: HostProcess) -> Self {
        self.processes.insert(pid_file.to_string(), state);
        self
    }

    fn at(&self, path: &str) -> HostFile {
        self.files.get(path).copied().unwrap_or(HostFile::Absent)
    }

    fn launch_at(&self, pid_file: &str) -> HostProcess {
        self.processes
            .get(pid_file)
            .copied()
            .unwrap_or(HostProcess::NoLaunch)
    }
}

/// A detail string derived only from the observation — no clock, no
/// counter — as [`CheckError`] requires.
const UNOBSERVABLE_DETAIL: &str = "the path could not be observed";

fn unobservable() -> CheckError {
    CheckError::new(CheckErrorCategory::Unobservable, UNOBSERVABLE_DETAIL)
}

/// What a command that could not be started answers with.
const UNRUNNABLE_DETAIL: &str = "the command could not be started";

fn unrunnable() -> CheckError {
    CheckError::new(CheckErrorCategory::Unobservable, UNRUNNABLE_DETAIL)
}

/// What a pid file that yields no pid answers with.
const UNUSABLE_PID_DETAIL: &str = "the pid file yielded no pid";

fn unusable_pid_file() -> CheckError {
    CheckError::new(CheckErrorCategory::Unobservable, UNUSABLE_PID_DETAIL)
}

/// Evaluate a condition against a fixed host.
fn eval(condition: &Assert, mode: ExecMode, host: &FakeHost) -> AssertNode {
    condition::eval(condition, mode, host, &mut host.ids.borrow_mut())
}

impl Observe for FakeHost {
    fn file_exists(&self, path: &str) -> Result<bool, CheckError> {
        match self.at(path) {
            HostFile::Absent => Ok(false),
            HostFile::Readable(_) => Ok(true),
            HostFile::Unobservable => Err(unobservable()),
        }
    }

    fn file_digest(&self, path: &str) -> Result<DigestReading, CheckError> {
        match self.at(path) {
            HostFile::Absent => Ok(DigestReading::Absent),
            HostFile::Readable(content) => Ok(DigestReading::Present(
                digest_of(content),
            )),
            HostFile::Unobservable => Err(unobservable()),
        }
    }

    fn command_status(&self, argv: &Vec<String>) -> Result<i32, CheckError> {
        match self
            .commands
            .get(argv)
            .copied()
            .unwrap_or(HostCommand::Unrunnable)
        {
            HostCommand::Exits(code) => Ok(code),
            HostCommand::Unrunnable => Err(unrunnable()),
        }
    }

    fn process_alive(&self, pid_file: &str) -> Result<bool, CheckError> {
        match self.launch_at(pid_file) {
            HostProcess::NoLaunch | HostProcess::Gone => Ok(false),
            HostProcess::Running(_) => Ok(true),
            HostProcess::Unusable => Err(unusable_pid_file()),
        }
    }

    fn process_argv(&self, pid_file: &str) -> Result<ArgvReading, CheckError> {
        match self.launch_at(pid_file) {
            HostProcess::NoLaunch | HostProcess::Gone => Ok(ArgvReading::NoProcess),
            HostProcess::Running(argv) => Ok(ArgvReading::Argv(
                argv.iter().map(|arg| (*arg).to_string()).collect(),
            )),
            HostProcess::Unusable => Err(unusable_pid_file()),
        }
    }
}

fn there(path: &str) -> Assert {
    Assert::FileExists {
        path: path.to_string(),
    }
}

/// A digest that tells contents apart, which is all these hosts need.
fn digest_of(content: &str) -> String {
    content.bytes().map(|byte| format!("{byte:02x}")).collect()
}

fn digest(path: &str, expected: &str) -> Assert {
    Assert::FileDigest {
        path: path.to_string(),
        expected_sha256: expected.to_string(),
    }
}

fn failed(detail: &str) -> AssertOutcome {
    AssertOutcome::CheckFailed(CheckError::new(CheckErrorCategory::Unobservable, detail))
}

// -----------------------------------------------------------------
// The fold table: 4 rows plus row 3's tie-break
// -----------------------------------------------------------------

#[test]
fn fold_row1_one_unsatisfied_child_wins_over_a_check_failure() {
    let children = NonEmpty::new(
        failed("first"),
        vec![AssertOutcome::Unsatisfied, AssertOutcome::Satisfied],
    );
    assert_eq!(fold_all(&children), AssertOutcome::Unsatisfied);
}

#[test]
fn fold_row2_all_satisfied_children_give_satisfied() {
    let children = NonEmpty::new(
        AssertOutcome::Satisfied,
        vec![AssertOutcome::Satisfied, AssertOutcome::Satisfied],
    );
    assert_eq!(fold_all(&children), AssertOutcome::Satisfied);
}

#[test]
fn fold_row3_a_check_failure_without_any_unsatisfied_gives_check_failed() {
    let children = NonEmpty::new(
        AssertOutcome::Satisfied,
        vec![failed("only"), AssertOutcome::NotChecked],
    );
    assert_eq!(fold_all(&children), failed("only"));
}

#[test]
fn fold_row3_tie_break_keeps_the_first_check_error_in_child_order() {
    let children = NonEmpty::new(
        AssertOutcome::NotChecked,
        vec![failed("first"), failed("second")],
    );
    assert_eq!(
        fold_all(&children),
        failed("first"),
        "the earliest child's CheckError is the one that survives",
    );
}

#[test]
fn fold_row4_not_checked_survives_when_nothing_stronger_is_present() {
    let children = NonEmpty::new(
        AssertOutcome::Satisfied,
        vec![AssertOutcome::NotChecked, AssertOutcome::Satisfied],
    );
    assert_eq!(fold_all(&children), AssertOutcome::NotChecked);
}

// -----------------------------------------------------------------
// Reproducibility
// -----------------------------------------------------------------

/// The tree with the ids removed.
#[derive(Debug, PartialEq, Eq)]
enum Shape {
    Leaf(AssertOutcome),
    All(AssertOutcome, Vec<Shape>),
}

fn shape(node: &AssertNode) -> Shape {
    match node {
        AssertNode::Leaf { outcome, .. } => Shape::Leaf(outcome.clone()),
        AssertNode::All {
            outcome, children, ..
        } => Shape::All(outcome.clone(), children.iter().into_iter().map(shape).collect()),
    }
}

fn ids(node: &AssertNode, out: &mut Vec<AssertExecutionId>) {
    match node {
        AssertNode::Leaf { id, .. } => out.push(*id),
        AssertNode::All { id, children, .. } => {
            out.push(*id);
            for child in children.iter() {
                ids(child, out);
            }
        }
    }
}

fn id_list(node: &AssertNode) -> Vec<AssertExecutionId> {
    let mut out = Vec::new();
    ids(node, &mut out);
    out
}

#[test]
fn the_same_assert_twice_on_a_fixed_host_gives_the_same_answer() {
    let host = FakeHost::new(&[
        ("/present", HostFile::Readable("payload")),
        ("/blocked", HostFile::Unobservable),
    ]);
    let assert = Assert::All(NonEmpty::new(
        there("/present"),
        vec![
            digest("/present", &digest_of("payload")),
            there("/blocked"),
            there("/missing"),
        ],
    ));

    let first = eval(&assert, ExecMode::Real, &host);
    let second = eval(&assert, ExecMode::Real, &host);

    assert_eq!(first.outcome(), second.outcome());
    assert_eq!(shape(&first), shape(&second));
    assert_ne!(
        id_list(&first),
        id_list(&second),
        "ids are per execution, which is why whole-tree equality is not the assertion",
    );
}

// -----------------------------------------------------------------
// The leaf contract
// -----------------------------------------------------------------

#[test]
fn every_leaf_satisfies_the_dry_run_contract() {
    let matching = "content that matches";
    let expected = digest_of(matching);
    let file = |state| FakeHost::new(&[("/target", state)]);
    let repo =
        |reply| FakeHost::new(&[]).running(git_tree_at_argv("/repo", "v1"), reply);
    let at_v1 = || Assert::GitTreeAt {
        dir: "/repo".to_string(),
        git_ref: "v1".to_string(),
    };
    let launch = |state| FakeHost::new(&[]).launched("/tmp/svc.pid", state);
    let alive = || Assert::ProcessAlive {
        pid_file: "/tmp/svc.pid".to_string(),
    };
    let declared_argv = || Assert::ProcessArgv {
        pid_file: "/tmp/svc.pid".to_string(),
        argv: ["srv", "--port", "8188"]
            .iter()
            .map(|arg| (*arg).to_string())
            .collect(),
    };

    // (label, host, assert, expected DryRun answer, expected Real answer)
    let cases: Vec<(&str, FakeHost, Assert, AssertOutcome, AssertOutcome)> = vec![
        // file exists — 3 observations.
        (
            "exists / absent",
            file(HostFile::Absent),
            there("/target"),
            AssertOutcome::Unsatisfied,
            AssertOutcome::Unsatisfied,
        ),
        (
            "exists / present",
            file(HostFile::Readable(matching)),
            there("/target"),
            AssertOutcome::Satisfied,
            AssertOutcome::Satisfied,
        ),
        (
            "exists / unobservable",
            file(HostFile::Unobservable),
            there("/target"),
            failed(UNOBSERVABLE_DETAIL),
            failed(UNOBSERVABLE_DETAIL),
        ),
        // file digest — 4 observations.
        (
            "digest / absent",
            file(HostFile::Absent),
            digest("/target", &expected),
            AssertOutcome::NotChecked,
            AssertOutcome::Unsatisfied,
        ),
        (
            "digest / present matching",
            file(HostFile::Readable(matching)),
            digest("/target", &expected),
            AssertOutcome::NotChecked,
            AssertOutcome::Satisfied,
        ),
        (
            "digest / present differing",
            file(HostFile::Readable("content that does not match")),
            digest("/target", &expected),
            AssertOutcome::NotChecked,
            AssertOutcome::Unsatisfied,
        ),
        (
            "digest / unobservable",
            file(HostFile::Unobservable),
            digest("/target", &expected),
            AssertOutcome::NotChecked,
            failed(UNOBSERVABLE_DETAIL),
        ),
        // git tree at — 4 observations, answering the same in both
        // modes.
        (
            "git tree / exit 0 (no difference)",
            repo(HostCommand::Exits(0)),
            at_v1(),
            AssertOutcome::Satisfied,
            AssertOutcome::Satisfied,
        ),
        (
            "git tree / exit 1 (difference)",
            repo(HostCommand::Exits(1)),
            at_v1(),
            AssertOutcome::Unsatisfied,
            AssertOutcome::Unsatisfied,
        ),
        (
            "git tree / exit 128 (no repository, or unknown ref)",
            repo(HostCommand::Exits(128)),
            at_v1(),
            failed("git exited 128"),
            failed("git exited 128"),
        ),
        (
            "git tree / git could not be started",
            repo(HostCommand::Unrunnable),
            at_v1(),
            failed(UNRUNNABLE_DETAIL),
            failed(UNRUNNABLE_DETAIL),
        ),
        // process alive — 4 observations, answering the same in
        // both modes.
        (
            "alive / no launch recorded",
            launch(HostProcess::NoLaunch),
            alive(),
            AssertOutcome::Unsatisfied,
            AssertOutcome::Unsatisfied,
        ),
        (
            "alive / the recorded process is gone",
            launch(HostProcess::Gone),
            alive(),
            AssertOutcome::Unsatisfied,
            AssertOutcome::Unsatisfied,
        ),
        (
            "alive / the recorded process is running",
            launch(HostProcess::Running(&["srv", "--port", "8188"])),
            alive(),
            AssertOutcome::Satisfied,
            AssertOutcome::Satisfied,
        ),
        (
            "alive / the pid file yields no pid",
            launch(HostProcess::Unusable),
            alive(),
            failed(UNUSABLE_PID_DETAIL),
            failed(UNUSABLE_PID_DETAIL),
        ),
        // process argv — 5 observations, likewise mode-independent.
        (
            "argv / no launch recorded",
            launch(HostProcess::NoLaunch),
            declared_argv(),
            AssertOutcome::Unsatisfied,
            AssertOutcome::Unsatisfied,
        ),
        (
            "argv / the recorded process is gone",
            launch(HostProcess::Gone),
            declared_argv(),
            AssertOutcome::Unsatisfied,
            AssertOutcome::Unsatisfied,
        ),
        (
            "argv / running with the declared argv",
            launch(HostProcess::Running(&["srv", "--port", "8188"])),
            declared_argv(),
            AssertOutcome::Satisfied,
            AssertOutcome::Satisfied,
        ),
        (
            "argv / running with other arguments",
            launch(HostProcess::Running(&["srv", "--port", "8188", "--listen"])),
            declared_argv(),
            AssertOutcome::Unsatisfied,
            AssertOutcome::Unsatisfied,
        ),
        (
            "argv / the pid file yields no pid",
            launch(HostProcess::Unusable),
            declared_argv(),
            failed(UNUSABLE_PID_DETAIL),
            failed(UNUSABLE_PID_DETAIL),
        ),
    ];

    for (label, host, assert, want_dry, want_real) in cases {
        let dry = eval(&assert, ExecMode::DryRun, &host);
        let real = eval(&assert, ExecMode::Real, &host);
        assert_eq!(dry.outcome(), &want_dry, "{label} under DryRun");
        assert_eq!(real.outcome(), &want_real, "{label} under Real");
        if want_dry == AssertOutcome::Satisfied {
            assert_eq!(
                real.outcome(),
                &AssertOutcome::Satisfied,
                "{label}: DryRun answered Satisfied, so Real must too",
            );
        }
    }
}

/// A leaf's or a composition's answers in a dry and in a real run.
type Pair = (AssertOutcome, AssertOutcome);

/// Fold one conjunction's children on both sides at once.
fn folded(children: &[&Pair]) -> Option<Pair> {
    let (head, tail) = children.split_first()?;
    let dry = fold_all(&NonEmpty::new(
        head.0.clone(),
        tail.iter().map(|child| child.0.clone()).collect(),
    ));
    let real = fold_all(&NonEmpty::new(
        head.1.clone(),
        tail.iter().map(|child| child.1.clone()).collect(),
    ));
    Some((dry, real))
}

fn compose(pairs: &[Pair], max_arity: usize) -> Vec<Pair> {
    let mut out = Vec::new();
    for a in pairs {
        out.push((not(a.0.clone()), not(a.1.clone())));
        out.extend(folded(&[a]));
        if max_arity < 2 {
            continue;
        }
        for b in pairs {
            out.extend(folded(&[a, b]));
            if max_arity < 3 {
                continue;
            }
            for c in pairs {
                out.extend(folded(&[a, b, c]));
            }
        }
    }
    out
}

#[test]
fn the_one_sided_contract_survives_fold_and_not_to_depth_two() {
    let failure = failed(UNOBSERVABLE_DETAIL);
    let leaves: Vec<Pair> = vec![
        // exists / absent
        (AssertOutcome::Unsatisfied, AssertOutcome::Unsatisfied),
        // exists / present
        (AssertOutcome::Satisfied, AssertOutcome::Satisfied),
        // exists / unobservable
        (failure.clone(), failure.clone()),
        // digest / absent and digest / present differing
        (AssertOutcome::NotChecked, AssertOutcome::Unsatisfied),
        // digest / present matching
        (AssertOutcome::NotChecked, AssertOutcome::Satisfied),
        // digest / unobservable
        (AssertOutcome::NotChecked, failure.clone()),
    ];

    let depth1 = compose(&leaves, 3);
    let mut reachable = leaves.clone();
    reachable.extend(depth1.iter().cloned());
    let depth2 = compose(&reachable, 2);

    for (dry, real) in leaves.iter().chain(depth1.iter()).chain(depth2.iter()) {
        if dry == &AssertOutcome::Satisfied {
            assert_eq!(
                real,
                &AssertOutcome::Satisfied,
                "a composition answered Satisfied under DryRun but {real:?} under Real",
            );
        }
    }
}

// -----------------------------------------------------------------
// What the model can express
// -----------------------------------------------------------------

/// Form 1: a basic predicate is an Assert on its own — no connective
/// needed, and no wrapping `All` in the result tree either.
#[test]
fn a_basic_predicate_is_an_assert_by_itself() {
    let host = FakeHost::new(&[("/target", HostFile::Readable("x"))]);
    let node = eval(&there("/target"), ExecMode::Real, &host);
    assert_eq!(node.outcome(), &AssertOutcome::Satisfied);
    assert!(
        matches!(node, AssertNode::Leaf { .. }),
        "a bare predicate must not be wrapped in a conjunction",
    );
}

#[test]
fn a_dry_run_conjunction_reports_not_checked_and_keeps_both_outcomes() {
    for digest_side in [
        HostFile::Absent,
        HostFile::Readable("whatever"),
        HostFile::Readable("something else"),
        HostFile::Unobservable,
    ] {
        let host = FakeHost::new(&[
            ("/observable", HostFile::Readable("present and readable")),
            ("/swept", digest_side),
        ]);
        let assert = Assert::All(NonEmpty::new(
            there("/observable"),
            vec![digest("/swept", &digest_of("whatever"))],
        ));

        let node = eval(&assert, ExecMode::DryRun, &host);

        assert_eq!(
            node.outcome(),
            &AssertOutcome::NotChecked,
            "digest side {digest_side:?} must not change the answer",
        );
        assert_eq!(
            shape(&node),
            Shape::All(
                AssertOutcome::NotChecked,
                vec![
                    Shape::Leaf(AssertOutcome::Satisfied),
                    Shape::Leaf(AssertOutcome::NotChecked),
                ],
            ),
            "both children's outcomes stay in the tree",
        );
    }
}

// -----------------------------------------------------------------
// The tree carries what the projection loses
// -----------------------------------------------------------------

#[test]
fn a_check_failure_hidden_by_the_projection_is_still_in_the_tree() {
    let host = FakeHost::new(&[("/a", HostFile::Absent), ("/b", HostFile::Unobservable)]);
    let assert = Assert::All(NonEmpty::new(there("/a"), vec![there("/b")]));

    let node = eval(&assert, ExecMode::Real, &host);

    assert_eq!(node.outcome(), &AssertOutcome::Unsatisfied);
    assert_eq!(
        shape(&node),
        Shape::All(
            AssertOutcome::Unsatisfied,
            vec![
                Shape::Leaf(AssertOutcome::Unsatisfied),
                Shape::Leaf(failed(UNOBSERVABLE_DETAIL)),
            ],
        ),
        "the CheckFailed the projection drops must survive in the tree",
    );
}

// -----------------------------------------------------------------
// The Not image
// -----------------------------------------------------------------

// -----------------------------------------------------------------
// The one entity: ModelFile
// -----------------------------------------------------------------

/// A profile that declared no digest gets a bare predicate — no
/// conjunction wrapping one child.
#[test]
fn a_model_file_without_a_digest_is_a_single_predicate() {
    let done = ModelFile::new("/models/checkpoints/a.safetensors", None).done();
    assert_eq!(
        done,
        Assert::FileExists {
            path: "/models/checkpoints/a.safetensors".to_string(),
        },
        "existence alone is the whole condition, not All[existence]",
    );
    assert!(
        !matches!(done, Assert::All(_)),
        "a lone predicate must not be wrapped in a conjunction",
    );
}

/// With a digest the condition is existence ∧ content, in that
/// order — the order the fold's tie-break and the trace both read.
#[test]
fn a_model_file_with_a_digest_conjoins_existence_and_content() {
    let done = ModelFile::new("/models/loras/b.safetensors", Some("ABCDEF".to_string())).done();
    assert_eq!(
        done,
        Assert::All(NonEmpty::new(
            Assert::FileExists {
                path: "/models/loras/b.safetensors".to_string(),
            },
            vec![Assert::FileDigest {
                path: "/models/loras/b.safetensors".to_string(),
                // Declared uppercase, compared lowercase: the
                // rendering contract is lowercase hex, and a
                // profile spelling it the other way must not fail
                // forever against a digest that can never match.
                expected_sha256: "abcdef".to_string(),
            }],
        )),
    );
}

#[test]
fn a_dry_run_still_decides_a_model_file_that_is_not_there() {
    let done = ModelFile::new("/target", Some(digest_of("weights"))).done();

    let absent = FakeHost::new(&[("/target", HostFile::Absent)]);
    assert_eq!(
        eval(&done, ExecMode::DryRun, &absent).outcome(),
        &AssertOutcome::Unsatisfied,
        "an absent file is decided in a dry run: the transfer will happen",
    );

    let present = FakeHost::new(&[("/target", HostFile::Readable("weights"))]);
    assert_eq!(
        eval(&done, ExecMode::DryRun, &present).outcome(),
        &AssertOutcome::NotChecked,
        "a present file is undecided in a dry run: the digest was not read",
    );
}

// -----------------------------------------------------------------
// The second entity: Checkout
// -----------------------------------------------------------------

fn checkout_host(dir: &str, git_ref: &str, state: HostFile, reply: HostCommand) -> FakeHost {
    FakeHost::new(&[(&format!("{dir}/.git"), state)])
        .running(git_tree_at_argv(dir, git_ref), reply)
}

#[test]
fn a_checkout_without_a_ref_asks_for_the_repository_alone() {
    let done = Checkout::new("/workspace/ComfyUI", None).done();
    assert_eq!(
        done,
        Assert::FileExists {
            path: "/workspace/ComfyUI/.git".to_string(),
        },
    );
    assert!(
        !matches!(done, Assert::All(_)),
        "a lone predicate must not be wrapped in a conjunction",
    );
}

/// With a ref the condition is repository ∧ ref, in that order.
#[test]
fn a_checkout_with_a_ref_conjoins_the_repository_and_the_ref() {
    let done = Checkout::new("/nodes/impact", Some("v2".to_string())).done();
    assert_eq!(
        done,
        Assert::All(NonEmpty::new(
            Assert::FileExists {
                path: "/nodes/impact/.git".to_string(),
            },
            vec![Assert::GitTreeAt {
                dir: "/nodes/impact".to_string(),
                git_ref: "v2".to_string(),
            }],
        )),
    );
}

#[test]
fn a_checkout_on_a_pod_with_no_clone_is_decided_rather_than_undecided() {
    let done = Checkout::new("/workspace/ComfyUI", Some("v0.1.0".to_string())).done();
    let host = checkout_host(
        "/workspace/ComfyUI",
        "v0.1.0",
        HostFile::Absent,
        HostCommand::Exits(128),
    );

    for mode in [ExecMode::DryRun, ExecMode::Real] {
        let node = eval(&done, mode, &host);
        assert_eq!(
            node.outcome(),
            &AssertOutcome::Unsatisfied,
            "{mode:?}: an absent repository is decided, not undecided",
        );
        assert_eq!(
            shape(&node),
            Shape::All(
                AssertOutcome::Unsatisfied,
                vec![
                    Shape::Leaf(AssertOutcome::Unsatisfied),
                    Shape::Leaf(failed("git exited 128")),
                ],
            ),
            "{mode:?}: git's failure survives in the tree",
        );
    }
}

/// The three answers a cloned repository can give, in both modes:
/// at the ref, at a different one, and unreadable.
#[test]
fn a_cloned_repository_answers_on_the_ref() {
    let done = Checkout::new("/repo", Some("v1".to_string())).done();
    let cases = [
        (HostCommand::Exits(0), AssertOutcome::Satisfied),
        (HostCommand::Exits(1), AssertOutcome::Unsatisfied),
        (HostCommand::Exits(128), failed("git exited 128")),
        (HostCommand::Unrunnable, failed(UNRUNNABLE_DETAIL)),
    ];
    for (reply, want) in cases {
        let host = checkout_host("/repo", "v1", HostFile::Readable("gitdir"), reply);
        for mode in [ExecMode::DryRun, ExecMode::Real] {
            assert_eq!(
                eval(&done, mode, &host).outcome(),
                &want,
                "{reply:?} under {mode:?}",
            );
        }
    }
}

#[test]
fn the_command_the_predicate_fires_is_a_read_only_template() {
    assert_eq!(
        git_tree_at_argv("/workspace/ComfyUI", "v0.1.0"),
        vec![
            "git".to_string(),
            "--no-optional-locks".to_string(),
            "-C".to_string(),
            "/workspace/ComfyUI".to_string(),
            "diff".to_string(),
            "--quiet".to_string(),
            "v0.1.0".to_string(),
            "HEAD".to_string(),
            "--".to_string(),
        ],
    );
}

#[test]
fn a_branch_a_tag_and_a_sha_are_all_just_the_ref() {
    let dir = "/repo";
    for git_ref in ["main", "v1.2.3", "9660479"] {
        let argv = git_tree_at_argv(dir, git_ref);
        assert_eq!(argv[6], git_ref, "the ref reaches the command verbatim");
        assert_eq!(argv[7], "HEAD");
    }
}

// -----------------------------------------------------------------
// The third entity: Service
// -----------------------------------------------------------------

const COMFYUI_PID: &str = "/tmp/comfyui.pid";

/// The argv `comfyui.restart` composes for a bare `port: 8188`.
fn comfyui_argv(extra: &[&str]) -> Vec<String> {
    let mut argv = vec![
        "/workspace/ComfyUI/venv/bin/python".to_string(),
        "/workspace/ComfyUI/main.py".to_string(),
        "--port".to_string(),
        "8188".to_string(),
    ];
    argv.extend(extra.iter().map(|arg| (*arg).to_string()));
    argv
}

fn comfyui_service() -> Assert {
    Service::new(COMFYUI_PID, comfyui_argv(&[])).done()
}

#[test]
fn a_service_always_conjoins_liveness_and_the_declared_argv() {
    assert_eq!(
        comfyui_service(),
        Assert::All(NonEmpty::new(
            Assert::ProcessAlive {
                pid_file: COMFYUI_PID.to_string(),
            },
            vec![Assert::ProcessArgv {
                pid_file: COMFYUI_PID.to_string(),
                argv: comfyui_argv(&[]),
            }],
        )),
        "liveness first, then identity — the order the news reads in",
    );
}

#[test]
fn a_server_up_with_the_declared_arguments_is_finished() {
    let host = FakeHost::new(&[]).launched(
        COMFYUI_PID,
        HostProcess::Running(&[
            "/workspace/ComfyUI/venv/bin/python",
            "/workspace/ComfyUI/main.py",
            "--port",
            "8188",
        ]),
    );
    for mode in [ExecMode::DryRun, ExecMode::Real] {
        assert_eq!(
            eval(&comfyui_service(), mode, &host).outcome(),
            &AssertOutcome::Satisfied,
            "{mode:?}: this exact server is already the one running",
        );
    }
}

#[test]
fn a_server_up_with_other_arguments_is_not_finished() {
    // (label, what is actually running)
    let cases: [(&str, &[&str]); 5] = [
        (
            "an extra flag the profile no longer declares",
            &[
                "/workspace/ComfyUI/venv/bin/python",
                "/workspace/ComfyUI/main.py",
                "--port",
                "8188",
                "--listen",
            ],
        ),
        (
            "a flag the profile declares and the server lacks",
            &[
                "/workspace/ComfyUI/venv/bin/python",
                "/workspace/ComfyUI/main.py",
                "--port",
            ],
        ),
        (
            "another port",
            &[
                "/workspace/ComfyUI/venv/bin/python",
                "/workspace/ComfyUI/main.py",
                "--port",
                "8189",
            ],
        ),
        (
            "another interpreter",
            &[
                "/usr/bin/python3",
                "/workspace/ComfyUI/main.py",
                "--port",
                "8188",
            ],
        ),
        // A zombie: an entry under the procfs root, and no command
        // line at all.
        ("a process with no command line", &[]),
    ];

    for (label, running) in cases {
        let host = FakeHost::new(&[]).launched(COMFYUI_PID, HostProcess::Running(running));
        for mode in [ExecMode::DryRun, ExecMode::Real] {
            let node = eval(&comfyui_service(), mode, &host);
            assert_eq!(
                node.outcome(),
                &AssertOutcome::Unsatisfied,
                "{mode:?}: {label} must not read as finished",
            );
            assert_eq!(
                shape(&node),
                Shape::All(
                    AssertOutcome::Unsatisfied,
                    vec![
                        Shape::Leaf(AssertOutcome::Satisfied),
                        Shape::Leaf(AssertOutcome::Unsatisfied),
                    ],
                ),
                "{mode:?}: {label} reads as 'running, but not this one'",
            );
        }
    }
}

#[test]
fn changing_extra_args_stops_the_condition_from_holding() {
    let running: &[&str] = &[
        "/workspace/ComfyUI/venv/bin/python",
        "/workspace/ComfyUI/main.py",
        "--port",
        "8188",
        "--listen",
    ];
    let host = FakeHost::new(&[]).launched(COMFYUI_PID, HostProcess::Running(running));

    let before = Service::new(COMFYUI_PID, comfyui_argv(&["--listen"])).done();
    assert_eq!(
        eval(&before, ExecMode::Real, &host).outcome(),
        &AssertOutcome::Satisfied,
        "the profile that launched this server still matches it",
    );

    for edit in [
        vec!["--listen", "--highvram"],
        vec!["--highvram", "--listen"],
        vec![],
    ] {
        let after = Service::new(COMFYUI_PID, comfyui_argv(&edit)).done();
        assert_eq!(
            eval(&after, ExecMode::Real, &host).outcome(),
            &AssertOutcome::Unsatisfied,
            "editing extra_args to {edit:?} must reopen the launch",
        );
    }
}

#[test]
fn a_pid_file_without_a_live_process_never_reads_as_finished() {
    // (label, host state, the answer the whole condition gives)
    let cases = [
        (
            "no pid file at all — a fresh pod",
            HostProcess::NoLaunch,
            AssertOutcome::Unsatisfied,
        ),
        (
            "a stale pid file left by an earlier apply",
            HostProcess::Gone,
            AssertOutcome::Unsatisfied,
        ),
        (
            "a pid file that cannot be read, or holds no number yet",
            HostProcess::Unusable,
            failed(UNUSABLE_PID_DETAIL),
        ),
    ];

    for (label, state, want) in cases {
        let host = FakeHost::new(&[]).launched(COMFYUI_PID, state);
        for mode in [ExecMode::DryRun, ExecMode::Real] {
            let node = eval(&comfyui_service(), mode, &host);
            assert_eq!(node.outcome(), &want, "{mode:?}: {label}");
            assert!(
                !node.is_satisfied(),
                "{mode:?}: {label} must never skip a launch",
            );
        }
    }
}

#[test]
fn the_tree_says_which_of_the_two_failures_happened() {
    let nothing_running = FakeHost::new(&[]).launched(COMFYUI_PID, HostProcess::Gone);
    let wrong_one_running = FakeHost::new(&[]).launched(
        COMFYUI_PID,
        HostProcess::Running(&["/usr/bin/python3", "/workspace/ComfyUI/main.py"]),
    );

    let down = eval(&comfyui_service(), ExecMode::Real, &nothing_running);
    let wrong = eval(&comfyui_service(), ExecMode::Real, &wrong_one_running);

    assert_eq!(
        down.outcome(),
        wrong.outcome(),
        "the projection is the same"
    );
    assert_ne!(
        shape(&down),
        shape(&wrong),
        "…and the tree is not: that difference is the whole reason for two conjuncts",
    );
    assert_eq!(
        shape(&down),
        Shape::All(
            AssertOutcome::Unsatisfied,
            vec![
                Shape::Leaf(AssertOutcome::Unsatisfied),
                Shape::Leaf(AssertOutcome::Unsatisfied),
            ],
        ),
        "nothing is running",
    );
    assert_eq!(
        shape(&wrong),
        Shape::All(
            AssertOutcome::Unsatisfied,
            vec![
                Shape::Leaf(AssertOutcome::Satisfied),
                Shape::Leaf(AssertOutcome::Unsatisfied),
            ],
        ),
        "something is running, and it is not this",
    );
}

// -----------------------------------------------------------------
// Rendering
// -----------------------------------------------------------------

#[test]
fn describe_prints_the_condition_without_answers() {
    let done = ModelFile::new("/w/a.bin", Some("abc".to_string())).done();
    assert_eq!(
        describe(&done),
        "all[exists(/w/a.bin), sha256(/w/a.bin)=abc]"
    );
}

/// The annotated form carries every subterm's answer, including one
/// the top-level projection drops.
#[test]
fn describe_execution_keeps_an_answer_the_projection_hides() {
    let host = FakeHost::new(&[("/a", HostFile::Absent), ("/b", HostFile::Unobservable)]);
    let assert = Assert::All(NonEmpty::new(there("/a"), vec![there("/b")]));

    let node = eval(&assert, ExecMode::Real, &host);
    let rendered = describe_execution(&assert, &node);

    assert_eq!(
        rendered,
        format!(
            "all[exists(/a)=unsatisfied, exists(/b)=check-failed(Unobservable: \
             {UNOBSERVABLE_DETAIL})]=unsatisfied"
        ),
        "the check failure the top answer drops is still printed",
    );
}

#[test]
fn a_services_condition_renders_on_one_line() {
    let done = Service::new(COMFYUI_PID, comfyui_argv(&["--listen", "--highvram"])).done();
    assert_eq!(
        describe(&done),
        "all[proc_alive(/tmp/comfyui.pid), \
         proc_argv(/tmp/comfyui.pid)=[/workspace/ComfyUI/venv/bin/python \
         /workspace/ComfyUI/main.py --port 8188 --listen --highvram]]",
    );

    let host = FakeHost::new(&[]).launched(COMFYUI_PID, HostProcess::Gone);
    let node = eval(&done, ExecMode::Real, &host);
    let rendered = describe_execution(&done, &node);
    assert!(
        !rendered.contains('\n'),
        "a condition must not wrap: a step's answer has to stay on the step's line",
    );
    assert!(
        rendered.len() < 256,
        "the annotated rendering is {} chars: {rendered}",
        rendered.len(),
    );
    assert!(
        rendered.contains("--highvram"),
        "the declared argv is not elided — it is the news when the answer is unsatisfied",
    );
}

#[test]
fn not_swaps_satisfied_and_unsatisfied_and_fixes_the_other_two() {
    assert_eq!(not(AssertOutcome::Satisfied), AssertOutcome::Unsatisfied);
    assert_eq!(not(AssertOutcome::Unsatisfied), AssertOutcome::Satisfied);
    assert_eq!(not(AssertOutcome::NotChecked), AssertOutcome::NotChecked);
    let failure = failed(UNOBSERVABLE_DETAIL);
    assert_eq!(not(failure.clone()), failure.clone());
    // An involution.
    for outcome in [
        AssertOutcome::Satisfied,
        AssertOutcome::Unsatisfied,
        AssertOutcome::NotChecked,
        failure,
    ] {
        assert_eq!(not(not(outcome.clone())), outcome);
    }
}

#[test]
fn a_part_without_a_node_reads_without_an_answer() {
    let assert = Assert::All(NonEmpty::new(there("/a"), vec![there("/b")]));
    let short = AssertNode::All {
        id: AssertExecutionId(1),
        outcome: AssertOutcome::Unsatisfied,
        children: NonEmpty::new(
            AssertNode::Leaf {
                id: AssertExecutionId(2),
                outcome: AssertOutcome::Satisfied,
            },
            Vec::new(),
        ),
    };
    let mut out = "kept ".to_string();
    write_assert(&assert, Some(&short), &mut out);
    assert_eq!(
        out,
        "kept all[exists(/a)=satisfied, exists(/b)]=unsatisfied"
    );
    // A leaf's answer is the whole condition's alone.
    let leaf = AssertNode::Leaf {
        id: AssertExecutionId(3),
        outcome: AssertOutcome::NotChecked,
    };
    assert_eq!(
        describe_execution(&assert, &leaf),
        "all[exists(/a), exists(/b)]=not-checked"
    );
    let mut out = String::new();
    write_assert(&assert, None, &mut out);
    assert_eq!(out, describe(&assert));
}
