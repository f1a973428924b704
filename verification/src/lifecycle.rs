//! What a lifecycle phase is made of.
//!
//! A lifecycle phase rarely is one effect: installing packages is one
//! command, custom nodes fan out to a clone, a checkout and an install
//! per entry, models to one download per entry. [`expand`] reduces every
//! phase to a list of [`PlannedStep`]s and performs nothing.
//!
//! A phase the profile leaves under-specified expands to a note rather
//! than to a guessed command: a guess would run under the profile's own
//! capabilities and read like something it asked for.

use crate::condition;
use crate::condition::{Assert, AssertView, Checkout, Done, ModelFile};
use crate::exec::{ErrorView, ExecError};
use crate::names::NameMap;
use crate::profile::{CustomNodeSpec, Decoded, LlmModelSpec, ModelItemSpec, ProfileNode};
use crate::scheme;
use crate::scheme::{download_url, parse_hf_uri, split_b2_uri};
use crate::text;
use crate::text::{append_list, contains_char, join, list_of, number, same, split_once, strip_prefix, Text};
use vstd::prelude::*;

verus! {

/// Where ComfyUI is cloned to.
pub const COMFYUI_INSTALL_DIR: &'static str = "/workspace/ComfyUI";

/// The package installer of ComfyUI's own environment.
pub const COMFYUI_VENV_PIP: &'static str = "/workspace/ComfyUI/venv/bin/pip";

/// Root of the model store.
pub const MODELS_ROOT: &'static str = "/workspace/ComfyUI/models";

/// Root of the custom-nodes store.
pub const CUSTOM_NODES_ROOT: &'static str = "/workspace/ComfyUI/custom_nodes";

/// Directory of a model that names neither `subdir` nor `kind`.
pub const DEFAULT_MODEL_SUBDIR: &'static str = "checkpoints";

/// Directory a model snapshot lands in when none is named.
pub const DEFAULT_LLM_MODELS_DST_DIR: &'static str = "/tmp/";

/// The interpreter that launches ComfyUI.
pub const COMFYUI_VENV_PY: &'static str = "/workspace/ComfyUI/venv/bin/python";

/// ComfyUI's entry point.
pub const COMFYUI_MAIN_PY: &'static str = "/workspace/ComfyUI/main.py";

/// ComfyUI's launch log.
pub const COMFYUI_LOG_PATH: &'static str = "/tmp/comfyui.log";

/// The file ComfyUI's launch writes its process number to.
pub const COMFYUI_PID_PATH: &'static str = "/tmp/comfyui.pid";

/// The repository ComfyUI comes from when none is named.
pub const DEFAULT_COMFYUI_REPO: &'static str = "comfyanonymous/ComfyUI";

/// How long ComfyUI is waited for when nothing is declared: a cold boot
/// scans models and custom nodes before it answers.
pub const COMFYUI_HEALTH_TIMEOUT_SEC: u64 = 180;

/// How long a service is waited for when nothing is declared: an engine
/// loads its weights before it answers.
pub const SERVICE_READY_TIMEOUT_SEC: u64 = 300;

// ---------------------------------------------------------------------
// Steps
// ---------------------------------------------------------------------

/// One thing an effect can execute.
#[derive(Debug, PartialEq, Eq)]
pub enum Step {
    /// Run a command. A non-zero exit fails the phase.
    Sh(Vec<String>),
    /// Move a file; the direction is read off the two schemes.
    Transfer {
        /// Source URL or local path.
        src: String,
        /// Destination local path or URL.
        dst: String,
    },
    /// Ask `url` until it answers well or the time is up.
    HttpPoll {
        /// URL to ask.
        url: String,
        /// How long to ask, in seconds.
        timeout_sec: u64,
        /// The file the launch waited for wrote its process number to.
        pid_file: Option<String>,
        /// The launch log, shown when the process dies during the wait.
        log_path: Option<String>,
    },
    /// No effect; the message says what was decided.
    Note(String),
}

/// The model of a [`Step`].
pub enum StepView {
    Sh(Seq<Text>),
    Transfer { src: Text, dst: Text },
    HttpPoll { url: Text, timeout_sec: u64, pid_file: Option<Text>, log_path: Option<Text> },
    Note(Text),
}

impl View for Step {
    type V = StepView;

    open spec fn view(&self) -> StepView {
        match self {
            Step::Sh(argv) => StepView::Sh(text::texts(argv@)),
            Step::Transfer { src, dst } => StepView::Transfer { src: src@, dst: dst@ },
            Step::HttpPoll { url, timeout_sec, pid_file, log_path } => StepView::HttpPoll {
                url: url@,
                timeout_sec: *timeout_sec,
                pid_file: text::opt_text(*pid_file),
                log_path: text::opt_text(*log_path),
            },
            Step::Note(message) => StepView::Note(message@),
        }
    }
}

/// A step, and what its being finished looks like.
#[derive(Debug, PartialEq, Eq)]
pub struct PlannedStep {
    /// The effect to run.
    pub step: Step,
    /// What has to hold for the step to be finished. It is asked before
    /// the step runs, and only a satisfied answer skips the step. `None`
    /// is a step that has nothing to ask, and runs every time.
    pub done: Option<Assert>,
}

/// The model of a [`PlannedStep`].
pub struct PlannedView {
    pub step: StepView,
    pub done: Option<AssertView>,
}

impl View for PlannedStep {
    type V = PlannedView;

    open spec fn view(&self) -> PlannedView {
        PlannedView {
            step: self.step@,
            done: match self.done {
                Some(done) => Some(done@),
                None => None,
            },
        }
    }
}

impl PlannedStep {
    /// A step that runs every time.
    pub fn always(step: Step) -> (r: Self)
        ensures
            r@ == always_view(step@),
            r.step == step,
            r.done is None,
    {
        PlannedStep { step, done: None }
    }

    /// A step that is skipped once `done` holds.
    pub fn done_when(step: Step, done: Assert) -> (r: Self)
        ensures
            r@ == done_when_view(step@, done@),
            r.step == step,
            r.done == Some(done),
    {
        PlannedStep { step, done: Some(done) }
    }
}

/// A step that runs every time.
pub open spec fn always_view(step: StepView) -> PlannedView {
    PlannedView { step, done: None }
}

/// A step that is skipped once `done` holds.
pub open spec fn done_when_view(step: StepView, done: AssertView) -> PlannedView {
    PlannedView { step, done: Some(done) }
}

/// The models of a list of steps.
pub open spec fn planned_views(steps: Seq<PlannedStep>) -> Seq<PlannedView> {
    Seq::new(steps.len(), |i: int| steps[i]@)
}

/// The model of an expansion.
pub open spec fn expansion_result(r: Result<Vec<PlannedStep>, ExecError>) -> Result<
    Seq<PlannedView>,
    ErrorView,
> {
    match r {
        Ok(steps) => Ok(planned_views(steps@)),
        Err(error) => Err(error@),
    }
}

/// A list of one step.
fn one(step: PlannedStep) -> (r: Vec<PlannedStep>)
    ensures
        planned_views(r@) == seq![step@],
{
    let mut steps: Vec<PlannedStep> = Vec::new();
    steps.push(step);
    assert(planned_views(steps@) =~= seq![step@]);
    steps
}

/// A list of one step that runs every time.
fn just(step: Step) -> (r: Vec<PlannedStep>)
    ensures
        planned_views(r@) == seq![always_view(step@)],
{
    one(PlannedStep::always(step))
}

/// The failure of `op` with `message`.
fn effect_failed(op: &str, message: String) -> (r: ExecError)
    ensures
        r@ == scheme::failed(op@, message@),
{
    ExecError::EffectFailed { op: op.to_owned(), message }
}

// ---------------------------------------------------------------------
// Packages, ComfyUI, Python
// ---------------------------------------------------------------------

/// Installing packages: one command, without questions.
pub open spec fn apt_steps(packages: Seq<Text>) -> Seq<PlannedView> {
    seq![always_view(StepView::Sh(seq!["apt-get"@, "install"@, "-y"@] + packages))]
}

fn expand_system_apt(packages: &Vec<String>) -> (r: Vec<PlannedStep>)
    ensures
        planned_views(r@) == apt_steps(text::texts(packages@)),
{
    let mut argv = list_of(["apt-get", "install", "-y"]);
    assert(text::texts(argv@) =~= seq!["apt-get"@, "install"@, "-y"@]);
    append_list(&mut argv, packages);
    just(Step::Sh(argv))
}

/// The command line of a shell that runs `script`.
pub open spec fn shell(script: Text) -> StepView {
    StepView::Sh(seq!["sh"@, "-c"@, script])
}

/// A shell that runs `script`.
fn sh_c(script: &str) -> (r: Step)
    ensures
        r@ == shell(script@),
{
    let argv = list_of(["sh", "-c", script]);
    assert(text::texts(argv@) =~= seq!["sh"@, "-c"@, script@]);
    Step::Sh(argv)
}

/// The clone address of a repository.
pub open spec fn github_url(repo: Text) -> Text {
    "https://github.com/"@ + repo + ".git"@
}

fn clone_url(repo: &str) -> (r: String)
    ensures
        r@ == github_url(repo@),
{
    let mut url = "https://github.com/".to_owned();
    url.append(repo);
    url.append(".git");
    url
}

/// Cloning ComfyUI and checking out its ref: one shell command, finished
/// when the clone is there and holds the ref.
pub open spec fn install_steps(ref_name: Text, repo: Option<Text>) -> Seq<PlannedView> {
    let named = match repo {
        Some(repo) => repo,
        None => DEFAULT_COMFYUI_REPO@,
    };
    let script = "git clone "@ + github_url(named) + " "@ + COMFYUI_INSTALL_DIR@ + " && git -C "@
        + COMFYUI_INSTALL_DIR@ + " checkout "@ + ref_name;
    seq![
        done_when_view(
            shell(script),
            condition::finished_checkout(COMFYUI_INSTALL_DIR@, Some(ref_name)),
        ),
    ]
}

fn expand_comfyui_install(ref_name: &str, repo: &Option<String>) -> (r: Vec<PlannedStep>)
    ensures
        planned_views(r@) == install_steps(ref_name@, text::opt_text(*repo)),
{
    let url = match repo {
        Some(repo) => clone_url(repo.as_str()),
        None => clone_url(DEFAULT_COMFYUI_REPO),
    };
    let mut script = "git clone ".to_owned();
    script.append(url.as_str());
    script.append(" ");
    script.append(COMFYUI_INSTALL_DIR);
    script.append(" && git -C ");
    script.append(COMFYUI_INSTALL_DIR);
    script.append(" checkout ");
    script.append(ref_name);
    let done = Checkout::new(COMFYUI_INSTALL_DIR, Some(ref_name.to_owned())).done();
    one(PlannedStep::done_when(sh_c(script.as_str()), done))
}

/// Checking the interpreter: a command that fails unless its version
/// begins with `want`. It has no condition: skipping it would be not
/// checking.
pub open spec fn version_check_steps(want: Text) -> Seq<PlannedView> {
    let script = "import sys; assert sys.version.startswith(\""@ + want
        + "\"), \"python version mismatch: want "@ + want + ", got \" + sys.version"@;
    seq![always_view(StepView::Sh(seq!["python3"@, "-c"@, script]))]
}

fn expand_python_version_check(want: &str) -> (r: Vec<PlannedStep>)
    ensures
        planned_views(r@) == version_check_steps(want@),
{
    let mut script = "import sys; assert sys.version.startswith(\"".to_owned();
    script.append(want);
    script.append("\"), \"python version mismatch: want ");
    script.append(want);
    script.append(", got \" + sys.version");
    let argv = list_of(["python3", "-c", script.as_str()]);
    assert(text::texts(argv@) =~= seq!["python3"@, "-c"@, script@]);
    just(Step::Sh(argv))
}

/// Installing Python packages, in ComfyUI's environment or the system's.
pub open spec fn deps_steps(deps: Seq<Text>, in_comfy_venv: bool) -> Seq<PlannedView> {
    let pip = if in_comfy_venv {
        COMFYUI_VENV_PIP@
    } else {
        "pip"@
    };
    seq![always_view(StepView::Sh(seq![pip, "install"@] + deps))]
}

fn expand_python_deps(deps: &Vec<String>, in_comfy_venv: bool) -> (r: Vec<PlannedStep>)
    ensures
        planned_views(r@) == deps_steps(text::texts(deps@), in_comfy_venv),
{
    let pip = if in_comfy_venv {
        COMFYUI_VENV_PIP
    } else {
        "pip"
    };
    let mut argv = list_of([pip, "install"]);
    assert(text::texts(argv@) =~= seq![pip@, "install"@]);
    append_list(&mut argv, deps);
    just(Step::Sh(argv))
}

// ---------------------------------------------------------------------
// Custom nodes
// ---------------------------------------------------------------------

/// The directory of a custom node.
pub open spec fn node_dir(name: Text) -> Text {
    CUSTOM_NODES_ROOT@ + "/"@ + name
}

/// Cloning a custom node: finished once the repository is there. The ref
/// is the next step's work.
pub open spec fn node_clone(node: CustomNodeSpec) -> PlannedView {
    done_when_view(
        StepView::Sh(seq!["git"@, "clone"@, github_url(node.repo@), node_dir(node.name@)]),
        condition::finished_checkout(node_dir(node.name@), None),
    )
}

/// Checking out a custom node's ref: finished once it is out.
pub open spec fn node_checkout(node: CustomNodeSpec, git_ref: Text) -> PlannedView {
    done_when_view(
        StepView::Sh(seq!["git"@, "-C"@, node_dir(node.name@), "checkout"@, git_ref]),
        condition::finished_checkout(node_dir(node.name@), Some(git_ref)),
    )
}

/// Installing a custom node's requirements: no checkout says whether
/// they are installed, so it runs every time.
pub open spec fn node_install(node: CustomNodeSpec) -> PlannedView {
    always_view(
        StepView::Sh(
            seq![
                COMFYUI_VENV_PIP@,
                "install"@,
                "-r"@,
                node_dir(node.name@) + "/requirements.txt"@,
            ],
        ),
    )
}

/// The steps of one custom node: clone, then the ref and the
/// requirements where it asks for them.
pub open spec fn node_steps(node: CustomNodeSpec) -> Seq<PlannedView> {
    seq![node_clone(node)] + (match node.git_ref {
        Some(git_ref) => seq![node_checkout(node, git_ref@)],
        None => Seq::empty(),
    }) + (if node.pip {
        seq![node_install(node)]
    } else {
        Seq::empty()
    })
}

/// The steps of every custom node, in order.
pub open spec fn nodes_steps(nodes: Seq<CustomNodeSpec>) -> Seq<PlannedView>
    decreases nodes.len(),
{
    if nodes.len() == 0 {
        Seq::empty()
    } else {
        nodes_steps(nodes.drop_last()) + node_steps(nodes.last())
    }
}

/// The steps of a `custom_nodes` payload.
pub open spec fn custom_nodes_expansion(nodes: Decoded<CustomNodeSpec>) -> Result<
    Seq<PlannedView>,
    ErrorView,
> {
    match nodes {
        Ok(nodes) => Ok(nodes_steps(nodes@)),
        Err(message) => Err(scheme::failed("custom_nodes"@, "nodes_json parse: "@ + message@)),
    }
}

/// Adds the steps of one custom node.
fn push_node_steps(steps: &mut Vec<PlannedStep>, node: &CustomNodeSpec)
    ensures
        planned_views(final(steps)@) == planned_views(old(steps)@) + node_steps(*node),
{
    let ghost before = planned_views(steps@);
    let mut dir = CUSTOM_NODES_ROOT.to_owned();
    dir.append("/");
    dir.append(node.name.as_str());
    let url = clone_url(node.repo.as_str());
    let argv = list_of(["git", "clone", url.as_str(), dir.as_str()]);
    assert(text::texts(argv@) =~= seq![
        "git"@,
        "clone"@,
        github_url(node.repo@),
        node_dir(node.name@),
    ]);
    steps.push(
        PlannedStep::done_when(Step::Sh(argv), Checkout::new(dir.as_str(), None).done()),
    );
    assert(planned_views(steps@) =~= before + seq![node_clone(*node)]);
    let ghost cloned = planned_views(steps@);
    match &node.git_ref {
        Some(git_ref) => {
            let argv = list_of(["git", "-C", dir.as_str(), "checkout", git_ref.as_str()]);
            assert(text::texts(argv@) =~= seq![
                "git"@,
                "-C"@,
                node_dir(node.name@),
                "checkout"@,
                git_ref@,
            ]);
            steps.push(
                PlannedStep::done_when(
                    Step::Sh(argv),
                    Checkout::new(dir.as_str(), Some(git_ref.clone())).done(),
                ),
            );
            assert(planned_views(steps@) =~= cloned + seq![node_checkout(*node, git_ref@)]);
        },
        None => {
            assert(planned_views(steps@) =~= cloned + Seq::<PlannedView>::empty());
        },
    }
    let ghost checked = planned_views(steps@);
    if node.pip {
        let mut file = dir.clone();
        file.append("/requirements.txt");
        let argv = list_of([COMFYUI_VENV_PIP, "install", "-r", file.as_str()]);
        assert(text::texts(argv@) =~= seq![
            COMFYUI_VENV_PIP@,
            "install"@,
            "-r"@,
            node_dir(node.name@) + "/requirements.txt"@,
        ]);
        steps.push(PlannedStep::always(Step::Sh(argv)));
        assert(planned_views(steps@) =~= checked + seq![node_install(*node)]);
    }
    assert(planned_views(steps@) =~= before + node_steps(*node));
}

fn expand_custom_nodes(nodes: &Decoded<CustomNodeSpec>) -> (r: Result<Vec<PlannedStep>, ExecError>)
    ensures
        expansion_result(r) == custom_nodes_expansion(*nodes),
{
    let nodes = match nodes {
        Ok(nodes) => nodes,
        Err(message) => {
            let mut said = "nodes_json parse: ".to_owned();
            said.append(message.as_str());
            return Err(effect_failed("custom_nodes", said));
        },
    };
    let mut steps: Vec<PlannedStep> = Vec::new();
    let mut i: usize = 0;
    assert(planned_views(steps@) =~= nodes_steps(nodes@.take(0)));
    while i < nodes.len()
        invariant
            i <= nodes@.len(),
            planned_views(steps@) == nodes_steps(nodes@.take(i as int)),
        decreases nodes@.len() - i,
    {
        push_node_steps(&mut steps, &nodes[i]);
        assert(nodes@.take(i + 1).drop_last() =~= nodes@.take(i as int));
        i = i + 1;
    }
    assert(nodes@.take(i as int) =~= nodes@);
    Ok(steps)
}

// ---------------------------------------------------------------------
// Routes
// ---------------------------------------------------------------------

/// The revision a command line names: the URI's own, else the declared.
pub open spec fn either_revision(in_uri: Option<Text>, declared: Option<Text>) -> Option<Text> {
    match in_uri {
        Some(rev) => Some(rev),
        None => declared,
    }
}

/// `argv` with the revision flag, where there is a revision.
pub open spec fn with_revision(argv: Seq<Text>, rev: Option<Text>) -> Seq<Text> {
    match rev {
        Some(rev) => argv + seq!["--revision"@, rev],
        None => argv,
    }
}

/// Adds the revision flag, where there is a revision.
fn push_revision(argv: &mut Vec<String>, in_uri: Option<String>, declared: &Option<String>)
    ensures
        text::texts(final(argv)@) == with_revision(
            text::texts(old(argv)@),
            either_revision(text::opt_text(in_uri), text::opt_text(*declared)),
        ),
{
    let ghost before = text::texts(argv@);
    let rev: Option<String> = match in_uri {
        Some(rev) => Some(rev),
        None => match declared {
            Some(rev) => Some(rev.clone()),
            None => None,
        },
    };
    if let Some(rev) = rev {
        argv.push("--revision".to_owned());
        argv.push(rev);
        assert(text::texts(argv@) =~= before + seq!["--revision"@, argv@.last()@]);
    }
}

/// A download of a route.
///
/// Without an environment it is a public download, resolved to the URL
/// it will fetch. With one, a `b2://` or `hf://` source goes to its own
/// command line, and anything else stays a plain download. The `hf`
/// command names a directory to land in, the `b2` one a file.
pub open spec fn pull_expansion(
    src: Text,
    dst: Text,
    has_env: bool,
    revision: Option<Text>,
) -> Result<Seq<PlannedView>, ErrorView> {
    if !has_env {
        match scheme::download_target("sync_pull"@, src, revision) {
            Ok(url) => Ok(seq![always_view(StepView::Transfer { src: url, dst })]),
            Err(error) => Err(error),
        }
    } else if "b2://"@.is_prefix_of(src) {
        match scheme::b2_parts(src.skip("b2://"@.len() as int), "sync_pull"@, src) {
            Ok((bucket, path)) => Ok(
                seq![
                    always_view(
                        StepView::Sh(
                            seq!["b2"@, "download-file-by-name"@, bucket, path, dst],
                        ),
                    ),
                ],
            ),
            Err(error) => Err(error),
        }
    } else if "hf://"@.is_prefix_of(src) {
        match scheme::hf_parts(src.skip("hf://"@.len() as int), "sync_pull"@, src) {
            Err(error) => Err(error),
            Ok((_, _, _, None)) => Err(
                scheme::failed(
                    "sync_pull"@,
                    "hf:// download URI is missing the file path segment: "@ + src,
                ),
            ),
            Ok((owner, repo, rev, Some(path))) => Ok(
                seq![
                    always_view(
                        StepView::Sh(
                            with_revision(
                                seq![
                                    "hf"@,
                                    "download"@,
                                    owner + "/"@ + repo,
                                    path,
                                    "--local-dir"@,
                                    dst,
                                ],
                                either_revision(rev, revision),
                            ),
                        ),
                    ),
                ],
            ),
        }
    } else {
        Ok(seq![always_view(StepView::Transfer { src, dst })])
    }
}

/// `owner/repo`.
fn owner_repo(owner: &str, repo: &str) -> (r: String)
    ensures
        r@ == owner@ + "/"@ + repo@,
{
    let mut out = owner.to_owned();
    out.append("/");
    out.append(repo);
    out
}

fn expand_sync_pull(
    src: &str,
    dst: &str,
    env: &NameMap<ProfileNode>,
    revision: &Option<String>,
) -> (r: Result<Vec<PlannedStep>, ExecError>)
    ensures
        expansion_result(r) == pull_expansion(
            src@,
            dst@,
            env.names().len() > 0,
            text::opt_text(*revision),
        ),
{
    if env.is_empty() {
        let declared: Option<&str> = match revision {
            Some(rev) => Some(rev.as_str()),
            None => None,
        };
        let url = download_url("sync_pull", src, declared)?;
        return Ok(just(Step::Transfer { src: url, dst: dst.to_owned() }));
    }
    if let Some(rest) = strip_prefix(src, "b2://") {
        let (bucket, path) = split_b2_uri(rest.as_str(), "sync_pull", src)?;
        let argv = list_of(
            ["b2", "download-file-by-name", bucket.as_str(), path.as_str(), dst],
        );
        assert(text::texts(argv@) =~= seq![
            "b2"@,
            "download-file-by-name"@,
            bucket@,
            path@,
            dst@,
        ]);
        return Ok(just(Step::Sh(argv)));
    }
    if let Some(rest) = strip_prefix(src, "hf://") {
        let (owner, repo, uri_rev, path) = parse_hf_uri(rest.as_str(), "sync_pull", src)?;
        let path = match path {
            Some(path) => path,
            None => {
                let mut message = "hf:// download URI is missing the file path segment: ".to_owned(
                );
                message.append(src);
                return Err(effect_failed("sync_pull", message));
            },
        };
        let named = owner_repo(owner.as_str(), repo.as_str());
        let mut argv = list_of(
            ["hf", "download", named.as_str(), path.as_str(), "--local-dir", dst],
        );
        assert(text::texts(argv@) =~= seq![
            "hf"@,
            "download"@,
            owner@ + "/"@ + repo@,
            path@,
            "--local-dir"@,
            dst@,
        ]);
        push_revision(&mut argv, uri_rev, revision);
        return Ok(just(Step::Sh(argv)));
    }
    Ok(just(Step::Transfer { src: src.to_owned(), dst: dst.to_owned() }))
}

/// An upload to a route. A `b2://` or `hf://` destination always goes to
/// its own command line; anything else is a plain upload.
pub open spec fn push_expansion(src: Text, dst: Text, revision: Option<Text>) -> Result<
    Seq<PlannedView>,
    ErrorView,
> {
    if "b2://"@.is_prefix_of(dst) {
        match scheme::b2_parts(dst.skip("b2://"@.len() as int), "staging_push"@, dst) {
            Ok((bucket, path)) => Ok(
                seq![
                    always_view(StepView::Sh(seq!["b2"@, "upload-file"@, bucket, src, path])),
                ],
            ),
            Err(error) => Err(error),
        }
    } else if "hf://"@.is_prefix_of(dst) {
        match scheme::hf_parts(dst.skip("hf://"@.len() as int), "staging_push"@, dst) {
            Err(error) => Err(error),
            Ok((owner, repo, rev, path)) => Ok(
                seq![
                    always_view(
                        StepView::Sh(
                            with_revision(
                                seq!["hf"@, "upload"@, owner + "/"@ + repo, src] + (match path {
                                    Some(path) => seq![path],
                                    None => Seq::empty(),
                                }),
                                either_revision(rev, revision),
                            ),
                        ),
                    ),
                ],
            ),
        }
    } else {
        Ok(seq![always_view(StepView::Transfer { src, dst })])
    }
}

fn expand_staging_push(src: &str, dst: &str, revision: &Option<String>) -> (r: Result<
    Vec<PlannedStep>,
    ExecError,
>)
    ensures
        expansion_result(r) == push_expansion(src@, dst@, text::opt_text(*revision)),
{
    if let Some(rest) = strip_prefix(dst, "b2://") {
        let (bucket, path) = split_b2_uri(rest.as_str(), "staging_push", dst)?;
        let argv = list_of(["b2", "upload-file", bucket.as_str(), src, path.as_str()]);
        assert(text::texts(argv@) =~= seq!["b2"@, "upload-file"@, bucket@, src@, path@]);
        return Ok(just(Step::Sh(argv)));
    }
    if let Some(rest) = strip_prefix(dst, "hf://") {
        let (owner, repo, uri_rev, path) = parse_hf_uri(rest.as_str(), "staging_push", dst)?;
        let named = owner_repo(owner.as_str(), repo.as_str());
        let mut argv = list_of(["hf", "upload", named.as_str(), src]);
        let ghost head = seq!["hf"@, "upload"@, owner@ + "/"@ + repo@, src@];
        assert(text::texts(argv@) =~= head);
        match path {
            Some(path) => {
                argv.push(path);
                assert(text::texts(argv@) =~= head + seq![argv@.last()@]);
            },
            None => {
                assert(text::texts(argv@) =~= head + Seq::<Text>::empty());
            },
        }
        push_revision(&mut argv, uri_rev, revision);
        return Ok(just(Step::Sh(argv)));
    }
    Ok(just(Step::Transfer { src: src.to_owned(), dst: dst.to_owned() }))
}

/// The note a marker of an upload route leaves.
pub open spec fn push_note(src: Text, dst: Text) -> StepView {
    StepView::Note(
        "sync_push src="@ + src + " dst="@ + dst
            + ": marker only; not executed during apply"@,
    )
}

fn sync_push_note(src: &str, dst: &str) -> (r: Step)
    ensures
        r@ == push_note(src@, dst@),
{
    let mut message = "sync_push src=".to_owned();
    message.append(src);
    message.append(" dst=");
    message.append(dst);
    message.append(": marker only; not executed during apply");
    Step::Note(message)
}

// ---------------------------------------------------------------------
// Models
// ---------------------------------------------------------------------

/// The first of two optional texts, else a third.
pub open spec fn first_named(first: Option<Text>, second: Option<Text>, other: Text) -> Text {
    match (first, second) {
        (Some(text), _) => text,
        (None, Some(text)) => text,
        (None, None) => other,
    }
}

/// Where a model file lands: in its own directory, or that of its kind,
/// or the default one.
pub open spec fn model_path(model: ModelItemSpec, file: Text) -> Text {
    MODELS_ROOT@ + "/"@ + first_named(
        text::opt_text(model.subdir),
        text::opt_text(model.kind),
        DEFAULT_MODEL_SUBDIR@,
    ) + "/"@ + file
}

/// The declared digest in lower case.
pub open spec fn declared_digest(sha256: Option<String>) -> Option<Text> {
    match sha256 {
        Some(hex) => Some(text::lower(hex@)),
        None => None,
    }
}

/// The download of one model file: finished when the file is there, with
/// the declared content where a digest is declared.
pub open spec fn model_step(model: ModelItemSpec, at: int) -> Result<PlannedView, ErrorView> {
    let file = match (model.dst, model.name) {
        (Some(dst), _) => Some(dst@),
        (None, Some(name)) => Some(name@),
        (None, None) => None,
    };
    match file {
        Some(file) => Ok(
            done_when_view(
                StepView::Transfer { src: model.src@, dst: model_path(model, file) },
                condition::finished_file(model_path(model, file), declared_digest(model.sha256)),
            ),
        ),
        None => Err(
            scheme::failed(
                "models"@,
                "models["@ + text::decimal(at as nat)
                    + "]: entry must declare either 'dst' or 'name' for the target file"@,
            ),
        ),
    }
}

/// The downloads of every model file, in order; the first entry that
/// names no file fails them all.
pub open spec fn models_steps(models: Seq<ModelItemSpec>) -> Result<Seq<PlannedView>, ErrorView>
    decreases models.len(),
{
    if models.len() == 0 {
        Ok(Seq::empty())
    } else {
        match models_steps(models.drop_last()) {
            Err(error) => Err(error),
            Ok(steps) => match model_step(models.last(), models.len() - 1) {
                Err(error) => Err(error),
                Ok(step) => Ok(steps.push(step)),
            },
        }
    }
}

/// The steps of a `models` payload.
pub open spec fn models_expansion(models: Decoded<ModelItemSpec>) -> Result<
    Seq<PlannedView>,
    ErrorView,
> {
    match models {
        Ok(models) => models_steps(models@),
        Err(message) => Err(scheme::failed("models"@, "models_json parse: "@ + message@)),
    }
}

/// What fails the first entries fails the whole list.
proof fn lemma_models_fail(models: Seq<ModelItemSpec>, at: int)
    requires
        0 <= at <= models.len(),
        models_steps(models.take(at)) is Err,
    ensures
        models_steps(models) == models_steps(models.take(at)),
    decreases models.len(),
{
    if at == models.len() {
        assert(models.take(at) =~= models);
    } else {
        assert(models.drop_last().take(at) =~= models.take(at));
        lemma_models_fail(models.drop_last(), at);
    }
}

/// A message about the entry at `at`.
fn entry_message(at: usize, said: &str, subject: &str) -> (r: String)
    ensures
        r@ == "models["@ + text::decimal(at as nat) + said@ + subject@,
{
    let mut message = "models[".to_owned();
    message.append(number(at as u64).as_str());
    message.append(said);
    message.append(subject);
    message
}

/// A message about the entry at `at`, with nothing behind it.
fn entry_note(at: usize, said: &str) -> (r: String)
    ensures
        r@ == "models["@ + text::decimal(at as nat) + said@,
{
    let mut message = "models[".to_owned();
    message.append(number(at as u64).as_str());
    message.append(said);
    message
}

fn expand_model(model: &ModelItemSpec, at: usize) -> (r: Result<PlannedStep, ExecError>)
    ensures
        match r {
            Ok(step) => model_step(*model, at as int) == Ok::<PlannedView, ErrorView>(step@),
            Err(error) => model_step(*model, at as int) == Err::<PlannedView, ErrorView>(error@),
        },
{
    let file = match (&model.dst, &model.name) {
        (Some(dst), _) => dst,
        (None, Some(name)) => name,
        (None, None) => {
            return Err(
                effect_failed(
                    "models",
                    entry_note(
                        at,
                        "]: entry must declare either 'dst' or 'name' for the target file",
                    ),
                ),
            );
        },
    };
    let mut dst = MODELS_ROOT.to_owned();
    dst.append("/");
    match (&model.subdir, &model.kind) {
        (Some(subdir), _) => dst.append(subdir.as_str()),
        (None, Some(kind)) => dst.append(kind.as_str()),
        (None, None) => dst.append(DEFAULT_MODEL_SUBDIR),
    }
    dst.append("/");
    dst.append(file.as_str());
    let sha256 = match &model.sha256 {
        Some(hex) => Some(hex.clone()),
        None => None,
    };
    let done = ModelFile::new(dst.as_str(), sha256).done();
    Ok(PlannedStep::done_when(Step::Transfer { src: model.src.clone(), dst }, done))
}

fn expand_models(decoded: &Decoded<ModelItemSpec>) -> (r: Result<Vec<PlannedStep>, ExecError>)
    ensures
        expansion_result(r) == models_expansion(*decoded),
{
    let models = match decoded {
        Ok(models) => models,
        Err(message) => {
            let mut said = "models_json parse: ".to_owned();
            said.append(message.as_str());
            return Err(effect_failed("models", said));
        },
    };
    let mut steps: Vec<PlannedStep> = Vec::new();
    let mut i: usize = 0;
    assert(planned_views(steps@) =~= Seq::<PlannedView>::empty());
    assert(models@.take(0) =~= Seq::<ModelItemSpec>::empty());
    while i < models.len()
        invariant
            i <= models@.len(),
            decoded matches Ok(list) && list@ == models@,
            models_steps(models@.take(i as int)) == Ok::<Seq<PlannedView>, ErrorView>(
                planned_views(steps@),
            ),
        decreases models@.len() - i,
    {
        let ghost sofar = planned_views(steps@);
        let ghost upto = models@.take(i + 1);
        assert(upto.drop_last() =~= models@.take(i as int));
        assert(upto.last() == models@[i as int]);
        match expand_model(&models[i], i) {
            Ok(step) => {
                steps.push(step);
                assert(planned_views(steps@) =~= sofar.push(step@));
            },
            Err(error) => {
                proof {
                    lemma_models_fail(models@, i + 1);
                }
                return Err(error);
            },
        }
        i = i + 1;
    }
    assert(models@.take(i as int) =~= models@);
    Ok(steps)
}

/// The directory a model snapshot lands in.
pub open spec fn snapshot_dir(model: LlmModelSpec) -> Text {
    match model.dst_dir {
        Some(dir) => dir@,
        None => DEFAULT_LLM_MODELS_DST_DIR@,
    }
}

/// The snapshot download of one model repository.
pub open spec fn llm_step(model: LlmModelSpec, at: int) -> Result<PlannedView, ErrorView> {
    let src = model.src@;
    let named = "models["@ + text::decimal(at as nat);
    if !"hf://"@.is_prefix_of(src) {
        Err(scheme::failed("llm_models"@, named + "].src must be an hf:// URI, got "@ + src))
    } else {
        let (repository, uri_rev) = scheme::repo_and_rev(src.skip("hf://"@.len() as int));
        match text::split_at_first(repository, '/') {
            None => Err(
                scheme::failed(
                    "llm_models"@,
                    named + "].src is missing an owner/repo segment: "@ + src,
                ),
            ),
            Some((owner, repo)) => if owner.len() == 0 || repo.len() == 0 || owner.contains('@') {
                Err(
                    scheme::failed(
                        "llm_models"@,
                        named + "].src has an invalid owner/repo segment: "@ + src,
                    ),
                )
            } else {
                Ok(
                    always_view(
                        StepView::Sh(
                            with_revision(
                                seq![
                                    "hf"@,
                                    "download"@,
                                    owner + "/"@ + repo,
                                    "--local-dir"@,
                                    snapshot_dir(model),
                                ],
                                either_revision(uri_rev, text::opt_text(model.revision)),
                            ),
                        ),
                    ),
                )
            },
        }
    }
}

/// The downloads of every model repository, in order; the first entry
/// that names none fails them all.
pub open spec fn llm_steps(models: Seq<LlmModelSpec>) -> Result<Seq<PlannedView>, ErrorView>
    decreases models.len(),
{
    if models.len() == 0 {
        Ok(Seq::empty())
    } else {
        match llm_steps(models.drop_last()) {
            Err(error) => Err(error),
            Ok(steps) => match llm_step(models.last(), models.len() - 1) {
                Err(error) => Err(error),
                Ok(step) => Ok(steps.push(step)),
            },
        }
    }
}

/// The steps of an `llm_models` payload.
pub open spec fn llm_expansion(models: Decoded<LlmModelSpec>) -> Result<
    Seq<PlannedView>,
    ErrorView,
> {
    match models {
        Ok(models) => llm_steps(models@),
        Err(message) => Err(scheme::failed("llm_models"@, "models_json parse: "@ + message@)),
    }
}

/// What fails the first entries fails the whole list.
proof fn lemma_llm_fail(models: Seq<LlmModelSpec>, at: int)
    requires
        0 <= at <= models.len(),
        llm_steps(models.take(at)) is Err,
    ensures
        llm_steps(models) == llm_steps(models.take(at)),
    decreases models.len(),
{
    if at == models.len() {
        assert(models.take(at) =~= models);
    } else {
        assert(models.drop_last().take(at) =~= models.take(at));
        lemma_llm_fail(models.drop_last(), at);
    }
}

fn expand_llm_model(model: &LlmModelSpec, at: usize) -> (r: Result<PlannedStep, ExecError>)
    ensures
        match r {
            Ok(step) => llm_step(*model, at as int) == Ok::<PlannedView, ErrorView>(step@),
            Err(error) => llm_step(*model, at as int) == Err::<PlannedView, ErrorView>(error@),
        },
{
    let src = model.src.as_str();
    let rest = match strip_prefix(src, "hf://") {
        Some(rest) => rest,
        None => {
            return Err(
                effect_failed(
                    "llm_models",
                    entry_message(at, "].src must be an hf:// URI, got ", src),
                ),
            );
        },
    };
    let (repository, uri_rev) = match split_once(rest.as_str(), '@') {
        Some((repository, rev)) => (repository, Some(rev)),
        None => (rest, None),
    };
    let (owner, repo) = match split_once(repository.as_str(), '/') {
        Some(pair) => pair,
        None => {
            return Err(
                effect_failed(
                    "llm_models",
                    entry_message(at, "].src is missing an owner/repo segment: ", src),
                ),
            );
        },
    };
    if owner.as_str().is_empty() || repo.as_str().is_empty() || contains_char(owner.as_str(), '@') {
        return Err(
            effect_failed(
                "llm_models",
                entry_message(at, "].src has an invalid owner/repo segment: ", src),
            ),
        );
    }
    let named = owner_repo(owner.as_str(), repo.as_str());
    let dir: &str = match &model.dst_dir {
        Some(dir) => dir.as_str(),
        None => DEFAULT_LLM_MODELS_DST_DIR,
    };
    let mut argv = list_of(["hf", "download", named.as_str(), "--local-dir", dir]);
    assert(text::texts(argv@) =~= seq![
        "hf"@,
        "download"@,
        owner@ + "/"@ + repo@,
        "--local-dir"@,
        snapshot_dir(*model),
    ]);
    push_revision(&mut argv, uri_rev, &model.revision);
    Ok(PlannedStep::always(Step::Sh(argv)))
}

fn expand_llm_models(decoded: &Decoded<LlmModelSpec>) -> (r: Result<Vec<PlannedStep>, ExecError>)
    ensures
        expansion_result(r) == llm_expansion(*decoded),
{
    let models = match decoded {
        Ok(models) => models,
        Err(message) => {
            let mut said = "models_json parse: ".to_owned();
            said.append(message.as_str());
            return Err(effect_failed("llm_models", said));
        },
    };
    let mut steps: Vec<PlannedStep> = Vec::new();
    let mut i: usize = 0;
    assert(planned_views(steps@) =~= Seq::<PlannedView>::empty());
    assert(models@.take(0) =~= Seq::<LlmModelSpec>::empty());
    while i < models.len()
        invariant
            i <= models@.len(),
            decoded matches Ok(list) && list@ == models@,
            llm_steps(models@.take(i as int)) == Ok::<Seq<PlannedView>, ErrorView>(
                planned_views(steps@),
            ),
        decreases models@.len() - i,
    {
        let ghost sofar = planned_views(steps@);
        let ghost upto = models@.take(i + 1);
        assert(upto.drop_last() =~= models@.take(i as int));
        assert(upto.last() == models@[i as int]);
        match expand_llm_model(&models[i], i) {
            Ok(step) => {
                steps.push(step);
                assert(planned_views(steps@) =~= sofar.push(step@));
            },
            Err(error) => {
                proof {
                    lemma_llm_fail(models@, i + 1);
                }
                return Err(error);
            },
        }
        i = i + 1;
    }
    assert(models@.take(i as int) =~= models@);
    Ok(steps)
}

// ---------------------------------------------------------------------
// Launches
//
// A launch puts the server in the background and returns; whether it
// came up is the verdict of the poll that follows. The launch writes the
// process number to a file, so that the poll can tell "not up yet" from
// "gone". Its output goes to a file: a server that kept the launch's own
// pipes open would keep the launch from returning.
// ---------------------------------------------------------------------

/// The launch log of a service.
pub open spec fn service_log(name: Text) -> Text {
    "/tmp/"@ + name + ".log"@
}

/// The file a service's launch writes its process number to.
pub open spec fn service_pid(name: Text) -> Text {
    "/tmp/"@ + name + ".pid"@
}

fn tmp_path(name: &str, suffix: &str) -> (r: String)
    ensures
        r@ == "/tmp/"@ + name@ + suffix@,
{
    let mut path = "/tmp/".to_owned();
    path.append(name);
    path.append(suffix);
    path
}

/// The shell text of a launch: start `argv` in the background, record
/// its process number, and fail if it is gone a second later.
pub open spec fn launch_text(argv: Seq<Text>, log: Text, pid: Text, label: Text) -> Text {
    "nohup "@ + text::joined(argv, " "@) + " > "@ + log + " 2>&1 & pid=$!; echo $pid > "@ + pid
        + "; sleep 1; kill -0 $pid 2>/dev/null || { echo '"@ + label
        + " died immediately' >&2; tail -100 "@ + log + " >&2; exit 1; }"@
}

/// The shell text of a launch.
pub fn spawn_detached_command(argv: &Vec<String>, log: &str, pid: &str, label: &str) -> (r: String)
    ensures
        r@ == launch_text(text::texts(argv@), log@, pid@, label@),
{
    let mut out = "nohup ".to_owned();
    out.append(join(argv, " ").as_str());
    out.append(" > ");
    out.append(log);
    out.append(" 2>&1 & pid=$!; echo $pid > ");
    out.append(pid);
    out.append("; sleep 1; kill -0 $pid 2>/dev/null || { echo '");
    out.append(label);
    out.append(" died immediately' >&2; tail -100 ");
    out.append(log);
    out.append(" >&2; exit 1; }");
    out
}

/// A command put in braces, so that something can stand before it with
/// `&&` and only the command itself goes to the background.
pub open spec fn braced(command: Text) -> Text {
    "{ "@ + command + "; }"@
}

/// A command put in braces.
pub fn grouped(command: &str) -> (r: String)
    ensures
        r@ == braced(command@),
{
    let mut out = "{ ".to_owned();
    out.append(command);
    out.append("; }");
    out
}

/// Launching ComfyUI from its own directory.
pub open spec fn restart_steps(port: u16, extra_args: Seq<Text>) -> Seq<PlannedView> {
    let argv = seq![COMFYUI_VENV_PY@, COMFYUI_MAIN_PY@, "--port"@, text::decimal(port as nat)]
        + extra_args;
    let launch = launch_text(argv, COMFYUI_LOG_PATH@, COMFYUI_PID_PATH@, "comfyui"@);
    seq![always_view(shell("cd "@ + COMFYUI_INSTALL_DIR@ + " && "@ + braced(launch)))]
}

fn expand_comfyui_restart(port: u16, extra_args: &Vec<String>) -> (r: Vec<PlannedStep>)
    ensures
        planned_views(r@) == restart_steps(port, text::texts(extra_args@)),
{
    let port_text = number(port as u64);
    let mut argv = list_of([COMFYUI_VENV_PY, COMFYUI_MAIN_PY, "--port", port_text.as_str()]);
    assert(text::texts(argv@) =~= seq![
        COMFYUI_VENV_PY@,
        COMFYUI_MAIN_PY@,
        "--port"@,
        text::decimal(port as nat),
    ]);
    append_list(&mut argv, extra_args);
    let launch = spawn_detached_command(&argv, COMFYUI_LOG_PATH, COMFYUI_PID_PATH, "comfyui");
    let mut script = "cd ".to_owned();
    script.append(COMFYUI_INSTALL_DIR);
    script.append(" && ");
    script.append(grouped(launch.as_str()).as_str());
    just(sh_c(script.as_str()))
}

/// A flag and its value, where there is a value.
pub open spec fn flag(name: Text, value: Option<Text>) -> Seq<Text> {
    match value {
        Some(value) => seq![name, value],
        None => Seq::empty(),
    }
}

/// The decimal spelling of an optional number.
pub open spec fn opt_decimal(n: Option<u16>) -> Option<Text> {
    match n {
        Some(n) => Some(text::decimal(n as nat)),
        None => None,
    }
}

/// Adds a flag and its value, where there is a value.
fn push_flag(argv: &mut Vec<String>, name: &str, value: Option<&str>)
    ensures
        text::texts(final(argv)@) == text::texts(old(argv)@) + flag(name@, text::opt_str(value)),
{
    let ghost before = text::texts(argv@);
    match value {
        Some(value) => {
            argv.push(name.to_owned());
            argv.push(value.to_owned());
            assert(text::texts(argv@) =~= before + seq![name@, value@]);
        },
        None => {
            assert(text::texts(argv@) =~= before + Seq::<Text>::empty());
        },
    }
}

/// Adds a flag and its number, where there is a number.
fn push_number_flag(argv: &mut Vec<String>, name: &str, value: Option<u16>)
    ensures
        text::texts(final(argv)@) == text::texts(old(argv)@) + flag(name@, opt_decimal(value)),
{
    match value {
        Some(n) => {
            let spelled = number(n as u64);
            push_flag(argv, name, Some(spelled.as_str()));
        },
        None => push_flag(argv, name, None),
    }
}

/// A declared inference service.
pub struct ServiceSpec<'a> {
    pub name: &'a str,
    pub platform_kind: &'a str,
    pub model: Option<&'a str>,
    pub port: Option<u16>,
    pub dtype: Option<&'a str>,
    pub tensor_parallel_size: Option<u16>,
    pub extra_args: &'a Vec<String>,
}

/// The model of a [`ServiceSpec`].
pub struct ServiceView {
    pub name: Text,
    pub platform_kind: Text,
    pub model: Option<Text>,
    pub port: Option<u16>,
    pub dtype: Option<Text>,
    pub tensor_parallel_size: Option<u16>,
    pub extra_args: Seq<Text>,
}

impl<'a> View for ServiceSpec<'a> {
    type V = ServiceView;

    open spec fn view(&self) -> ServiceView {
        ServiceView {
            name: self.name@,
            platform_kind: self.platform_kind@,
            model: text::opt_str(self.model),
            port: self.port,
            dtype: text::opt_str(self.dtype),
            tensor_parallel_size: self.tensor_parallel_size,
            extra_args: text::texts(self.extra_args@),
        }
    }
}

/// The command a service is started with: per platform, with the
/// declared values as flags and the extra arguments behind them. `None`
/// where the platform needs a model and none is declared, or is not one
/// of the three.
pub open spec fn service_argv(service: ServiceView) -> Option<Seq<Text>> {
    let port = flag("--port"@, opt_decimal(service.port));
    if service.platform_kind == "vllm"@ {
        match service.model {
            Some(model) => Some(
                seq!["python"@, "-m"@, "vllm.entrypoints.openai.api_server"@, "--model"@, model]
                    + port + flag("--dtype"@, service.dtype) + flag(
                    "--tensor-parallel-size"@,
                    opt_decimal(service.tensor_parallel_size),
                ) + service.extra_args,
            ),
            None => None,
        }
    } else if service.platform_kind == "ollama"@ {
        Some(seq!["ollama"@, "serve"@])
    } else if service.platform_kind == "llamacpp"@ {
        match service.model {
            Some(model) => Some(seq!["llama-server"@, "--model"@, model] + port + service.extra_args),
            None => None,
        }
    } else {
        None
    }
}

/// Why a service is not launched.
pub open spec fn service_note(service: ServiceView) -> Text {
    let named = "service_start name="@ + service.name + " platform_kind="@
        + service.platform_kind;
    if service.platform_kind == "vllm"@ || service.platform_kind == "llamacpp"@ {
        named
            + ": no launch invocation — the platform requires `model` and the profile declares none"@
    } else {
        named + ": no launch invocation — spec 02 specifies vllm / ollama / llamacpp"@
    }
}

/// Launching a service, or a note on why it is not launched.
pub open spec fn start_steps(service: ServiceView) -> Seq<PlannedView> {
    match service_argv(service) {
        Some(argv) => seq![
            always_view(
                shell(
                    launch_text(
                        argv,
                        service_log(service.name),
                        service_pid(service.name),
                        "service "@ + service.name,
                    ),
                ),
            ),
        ],
        None => seq![always_view(StepView::Note(service_note(service)))],
    }
}

/// The note on a service that is not launched.
fn no_launch(service: &ServiceSpec<'_>, why: &str) -> (r: Vec<PlannedStep>)
    ensures
        planned_views(r@) == seq![
            always_view(
                StepView::Note(
                    "service_start name="@ + service.name@ + " platform_kind="@
                        + service.platform_kind@ + why@,
                ),
            ),
        ],
{
    let mut message = "service_start name=".to_owned();
    message.append(service.name);
    message.append(" platform_kind=");
    message.append(service.platform_kind);
    message.append(why);
    just(Step::Note(message))
}

fn expand_service_start(service: &ServiceSpec<'_>) -> (r: Vec<PlannedStep>)
    ensures
        planned_views(r@) == start_steps(service@),
{
    let mut argv: Vec<String>;
    if same(service.platform_kind, "vllm") {
        let model = match service.model {
            Some(model) => model,
            None => {
                return no_launch(
                    service,
                    ": no launch invocation — the platform requires `model` and the profile declares none",
                );
            },
        };
        argv = list_of(["python", "-m", "vllm.entrypoints.openai.api_server", "--model", model]);
        assert(text::texts(argv@) =~= seq![
            "python"@,
            "-m"@,
            "vllm.entrypoints.openai.api_server"@,
            "--model"@,
            model@,
        ]);
        push_number_flag(&mut argv, "--port", service.port);
        push_flag(&mut argv, "--dtype", service.dtype);
        push_number_flag(&mut argv, "--tensor-parallel-size", service.tensor_parallel_size);
        append_list(&mut argv, service.extra_args);
    } else if same(service.platform_kind, "ollama") {
        argv = list_of(["ollama", "serve"]);
        assert(text::texts(argv@) =~= seq!["ollama"@, "serve"@]);
    } else if same(service.platform_kind, "llamacpp") {
        let model = match service.model {
            Some(model) => model,
            None => {
                return no_launch(
                    service,
                    ": no launch invocation — the platform requires `model` and the profile declares none",
                );
            },
        };
        argv = list_of(["llama-server", "--model", model]);
        assert(text::texts(argv@) =~= seq!["llama-server"@, "--model"@, model@]);
        push_number_flag(&mut argv, "--port", service.port);
        append_list(&mut argv, service.extra_args);
    } else {
        return no_launch(
            service,
            ": no launch invocation — spec 02 specifies vllm / ollama / llamacpp",
        );
    }
    let log = tmp_path(service.name, ".log");
    let pid = tmp_path(service.name, ".pid");
    let mut label = "service ".to_owned();
    label.append(service.name);
    let launch = spawn_detached_command(&argv, log.as_str(), pid.as_str(), label.as_str());
    just(sh_c(launch.as_str()))
}

// ---------------------------------------------------------------------
// Waiting
// ---------------------------------------------------------------------

/// How long a poll asks: what is declared, be it longer or shorter, else
/// the default of its kind.
pub open spec fn deadline(declared: Option<u16>, default_sec: u64) -> u64 {
    match declared {
        Some(sec) => sec as u64,
        None => default_sec,
    }
}

fn poll_timeout(declared: Option<u16>, default_sec: u64) -> (r: u64)
    ensures
        r == deadline(declared, default_sec),
{
    match declared {
        Some(sec) => sec as u64,
        None => default_sec,
    }
}

/// Waiting for ComfyUI's API. Its root page answers before the API does,
/// so the API is what is asked.
pub open spec fn health_step(port: u16, timeout_sec: Option<u16>) -> StepView {
    StepView::HttpPoll {
        url: "http://127.0.0.1:"@ + text::decimal(port as nat) + "/object_info"@,
        timeout_sec: deadline(timeout_sec, COMFYUI_HEALTH_TIMEOUT_SEC),
        pid_file: Some(COMFYUI_PID_PATH@),
        log_path: Some(COMFYUI_LOG_PATH@),
    }
}

fn expand_comfyui_health(port: u16, timeout_sec: Option<u16>) -> (r: Vec<PlannedStep>)
    ensures
        planned_views(r@) == seq![always_view(health_step(port, timeout_sec))],
{
    let mut url = "http://127.0.0.1:".to_owned();
    url.append(number(port as u64).as_str());
    url.append("/object_info");
    just(
        Step::HttpPoll {
            url,
            timeout_sec: poll_timeout(timeout_sec, COMFYUI_HEALTH_TIMEOUT_SEC),
            pid_file: Some(COMFYUI_PID_PATH.to_owned()),
            log_path: Some(COMFYUI_LOG_PATH.to_owned()),
        },
    )
}

/// Waiting for a service, watching the process its launch recorded.
pub open spec fn ready_step(name: Text, check_url: Text, timeout_sec: Option<u16>) -> StepView {
    StepView::HttpPoll {
        url: check_url,
        timeout_sec: deadline(timeout_sec, SERVICE_READY_TIMEOUT_SEC),
        pid_file: Some(service_pid(name)),
        log_path: Some(service_log(name)),
    }
}

fn expand_service_ready(name: &str, check_url: &str, timeout_sec: Option<u16>) -> (r: Vec<
    PlannedStep,
>)
    ensures
        planned_views(r@) == seq![always_view(ready_step(name@, check_url@, timeout_sec))],
{
    just(
        Step::HttpPoll {
            url: check_url.to_owned(),
            timeout_sec: poll_timeout(timeout_sec, SERVICE_READY_TIMEOUT_SEC),
            pid_file: Some(tmp_path(name, ".pid")),
            log_path: Some(tmp_path(name, ".log")),
        },
    )
}

// ---------------------------------------------------------------------
// Every phase
// ---------------------------------------------------------------------

/// The steps of a phase. Only a lifecycle phase has any.
pub open spec fn expansion(payload: ProfileNode) -> Result<Seq<PlannedView>, ErrorView> {
    match payload {
        ProfileNode::SystemApt { packages, .. } => Ok(apt_steps(text::texts(packages@))),
        ProfileNode::ComfyUiInstall { ref_name, repo, .. } => Ok(
            install_steps(ref_name@, text::opt_text(repo)),
        ),
        ProfileNode::PythonVersionCheck { want, .. } => Ok(version_check_steps(want@)),
        ProfileNode::PythonDeps { deps, in_comfy_venv, .. } => Ok(
            deps_steps(text::texts(deps@), in_comfy_venv),
        ),
        ProfileNode::CustomNodes { nodes, .. } => custom_nodes_expansion(nodes),
        ProfileNode::SyncPull { src, dst, env, revision, .. } => pull_expansion(
            src@,
            dst@,
            env.names().len() > 0,
            text::opt_text(revision),
        ),
        ProfileNode::SyncPush { src, dst, .. } => Ok(seq![always_view(push_note(src@, dst@))]),
        ProfileNode::StagingPush { src, dst, revision, .. } => push_expansion(
            src@,
            dst@,
            text::opt_text(revision),
        ),
        ProfileNode::Models { models, .. } => models_expansion(models),
        ProfileNode::LlmModels { models, .. } => llm_expansion(models),
        ProfileNode::PostInstall { script, .. } => Ok(seq![always_view(shell(script@))]),
        ProfileNode::ComfyUiRestart { port, extra_args, .. } => Ok(
            restart_steps(port, text::texts(extra_args@)),
        ),
        ProfileNode::ComfyUiHealth { port, timeout_sec, .. } => Ok(
            seq![always_view(health_step(port, timeout_sec))],
        ),
        ProfileNode::ServiceStart {
            name,
            platform_kind,
            model,
            port,
            dtype,
            tensor_parallel_size,
            extra_args,
            ..
        } => Ok(
            start_steps(
                ServiceView {
                    name: name@,
                    platform_kind: platform_kind@,
                    model: text::opt_text(model),
                    port,
                    dtype: text::opt_text(dtype),
                    tensor_parallel_size,
                    extra_args: text::texts(extra_args@),
                },
            ),
        ),
        ProfileNode::ServiceReady { name, check_url, timeout_sec, .. } => Ok(
            seq![always_view(ready_step(name@, check_url@, timeout_sec))],
        ),
        other => Err(
            ErrorView::PayloadVariant { node: other.id().0, expected: "lifecycle"@ },
        ),
    }
}

/// A borrow of an optional string.
fn borrowed(value: &Option<String>) -> (r: Option<&str>)
    ensures
        text::opt_str(r) == text::opt_text(*value),
{
    match value {
        Some(text) => Some(text.as_str()),
        None => None,
    }
}

/// Reduces a lifecycle phase to its steps. Nothing is performed.
///
/// Any other node is refused, and so is a payload that could not be
/// read, that names a model without a file, or whose route does not
/// resolve.
pub fn expand(payload: &ProfileNode) -> (r: Result<Vec<PlannedStep>, ExecError>)
    ensures
        expansion_result(r) == expansion(*payload),
{
    match payload {
        ProfileNode::SystemApt { packages, .. } => Ok(expand_system_apt(packages)),
        ProfileNode::ComfyUiInstall { ref_name, repo, .. } => Ok(
            expand_comfyui_install(ref_name.as_str(), repo),
        ),
        ProfileNode::PythonVersionCheck { want, .. } => Ok(
            expand_python_version_check(want.as_str()),
        ),
        ProfileNode::PythonDeps { deps, in_comfy_venv, .. } => Ok(
            expand_python_deps(deps, *in_comfy_venv),
        ),
        ProfileNode::CustomNodes { nodes, .. } => expand_custom_nodes(nodes),
        ProfileNode::SyncPull { src, dst, env, revision, .. } => expand_sync_pull(
            src.as_str(),
            dst.as_str(),
            env,
            revision,
        ),
        ProfileNode::SyncPush { src, dst, .. } => Ok(
            just(sync_push_note(src.as_str(), dst.as_str())),
        ),
        ProfileNode::StagingPush { src, dst, revision, .. } => expand_staging_push(
            src.as_str(),
            dst.as_str(),
            revision,
        ),
        ProfileNode::Models { models, .. } => expand_models(models),
        ProfileNode::LlmModels { models, .. } => expand_llm_models(models),
        ProfileNode::PostInstall { script, .. } => Ok(just(sh_c(script.as_str()))),
        ProfileNode::ComfyUiRestart { port, extra_args, .. } => Ok(
            expand_comfyui_restart(*port, extra_args),
        ),
        ProfileNode::ComfyUiHealth { port, timeout_sec, .. } => Ok(
            expand_comfyui_health(*port, *timeout_sec),
        ),
        ProfileNode::ServiceStart {
            name,
            platform_kind,
            model,
            port,
            dtype,
            tensor_parallel_size,
            extra_args,
            ..
        } => Ok(
            expand_service_start(
                &ServiceSpec {
                    name: name.as_str(),
                    platform_kind: platform_kind.as_str(),
                    model: borrowed(model),
                    port: *port,
                    dtype: borrowed(dtype),
                    tensor_parallel_size: *tensor_parallel_size,
                    extra_args,
                },
            ),
        ),
        ProfileNode::ServiceReady { name, check_url, timeout_sec, .. } => Ok(
            expand_service_ready(name.as_str(), check_url.as_str(), *timeout_sec),
        ),
        other => Err(
            ExecError::PayloadVariant { node: other.node_id().0, expected: "lifecycle" },
        ),
    }
}

// ---------------------------------------------------------------------
// Laws
// ---------------------------------------------------------------------

/// A launch records the process number in its pid file and sends the
/// server's output to its log: a poll that watches those two paths
/// watches this launch, and the launch itself can return.
pub proof fn law_a_launch_records_and_redirects(
    argv: Seq<Text>,
    log: Text,
    pid: Text,
    label: Text,
)
    ensures
        text::holds(launch_text(argv, log, pid, label), "echo $pid > "@ + pid),
        text::holds(launch_text(argv, log, pid, label), " > "@ + log + " 2>&1 &"@),
        text::holds(launch_text(argv, log, pid, label), label + " died immediately' >&2"@),
{
    reveal_strlit(" 2>&1 & pid=$!; echo $pid > ");
    reveal_strlit(" 2>&1 & pid=$!; ");
    reveal_strlit("echo $pid > ");
    reveal_strlit(" 2>&1 &");
    reveal_strlit(" pid=$!; echo $pid > ");
    reveal_strlit(" died immediately' >&2; tail -100 ");
    reveal_strlit(" died immediately' >&2");
    reveal_strlit("; tail -100 ");
    let whole = launch_text(argv, log, pid, label);
    let start = "nohup "@ + text::joined(argv, " "@);
    let end = "; sleep 1; kill -0 $pid 2>/dev/null || { echo '"@;
    let close = log + " >&2; exit 1; }"@;
    assert(" 2>&1 & pid=$!; echo $pid > "@ =~= " 2>&1 & pid=$!; "@ + "echo $pid > "@);
    assert(" 2>&1 & pid=$!; echo $pid > "@ =~= " 2>&1 &"@ + " pid=$!; echo $pid > "@);
    assert(" died immediately' >&2; tail -100 "@ =~= " died immediately' >&2"@
        + "; tail -100 "@);
    let recorded = "echo $pid > "@ + pid;
    let after = end + label + " died immediately' >&2; tail -100 "@ + close;
    assert(whole =~= (start + " > "@ + log + " 2>&1 & pid=$!; "@) + recorded + after);
    text::lemma_holds_middle(start + " > "@ + log + " 2>&1 & pid=$!; "@, recorded, after);
    let redirected = " > "@ + log + " 2>&1 &"@;
    let rest = " pid=$!; echo $pid > "@ + pid + after;
    assert(whole =~= start + redirected + rest);
    text::lemma_holds_middle(start, redirected, rest);
    let said = label + " died immediately' >&2"@;
    let lead = start + " > "@ + log + " 2>&1 & pid=$!; echo $pid > "@ + pid + end;
    assert(whole =~= lead + said + ("; tail -100 "@ + close));
    text::lemma_holds_middle(lead, said, "; tail -100 "@ + close);
}

/// Whether a poll watches the pid file and the log a launch writes.
pub open spec fn watches(poll: StepView, launch: StepView) -> bool {
    match (poll, launch) {
        (
            StepView::HttpPoll { pid_file: Some(pid), log_path: Some(log), .. },
            StepView::Sh(argv),
        ) => {
            &&& argv.len() == 3
            &&& text::holds(argv[2], "echo $pid > "@ + pid)
            &&& text::holds(argv[2], " > "@ + log + " 2>&1 &"@)
        },
        _ => false,
    }
}

/// The poll of a service watches the two paths the launch of a service
/// of that name writes.
pub proof fn law_a_ready_poll_watches_its_launch(
    service: ServiceView,
    check_url: Text,
    timeout_sec: Option<u16>,
)
    requires
        service_argv(service) is Some,
    ensures
        start_steps(service).len() == 1,
        watches(
            ready_step(service.name, check_url, timeout_sec),
            start_steps(service)[0].step,
        ),
{
    law_a_launch_records_and_redirects(
        service_argv(service)->0,
        service_log(service.name),
        service_pid(service.name),
        "service "@ + service.name,
    );
}

/// The poll of ComfyUI watches the two paths its launch writes.
pub proof fn law_a_health_poll_watches_its_launch(
    port: u16,
    extra_args: Seq<Text>,
    polled: u16,
    timeout_sec: Option<u16>,
)
    ensures
        restart_steps(port, extra_args).len() == 1,
        watches(health_step(polled, timeout_sec), restart_steps(port, extra_args)[0].step),
{
    let argv = seq![COMFYUI_VENV_PY@, COMFYUI_MAIN_PY@, "--port"@, text::decimal(port as nat)]
        + extra_args;
    let launch = launch_text(argv, COMFYUI_LOG_PATH@, COMFYUI_PID_PATH@, "comfyui"@);
    law_a_launch_records_and_redirects(argv, COMFYUI_LOG_PATH@, COMFYUI_PID_PATH@, "comfyui"@);
    let lead = "cd "@ + COMFYUI_INSTALL_DIR@ + " && "@;
    let command = lead + braced(launch);
    lemma_holds_within("{ "@, launch, "; }"@, "echo $pid > "@ + COMFYUI_PID_PATH@);
    lemma_holds_within("{ "@, launch, "; }"@, " > "@ + COMFYUI_LOG_PATH@ + " 2>&1 &"@);
    let none = Seq::<char>::empty();
    assert(lead + braced(launch) + none =~= command);
    lemma_holds_within(lead, braced(launch), none, "echo $pid > "@ + COMFYUI_PID_PATH@);
    lemma_holds_within(lead, braced(launch), none, " > "@ + COMFYUI_LOG_PATH@ + " 2>&1 &"@);
}

/// What stands in a text stands in any text around it.
proof fn lemma_holds_within(before: Text, middle: Text, after: Text, part: Text)
    requires
        text::holds(middle, part),
    ensures
        text::holds(before + middle + after, part),
{
    let at = choose|at: int| text::stands_at(middle, part, at);
    let whole = before + middle + after;
    assert(whole.subrange(before.len() + at, before.len() + at + part.len()) =~= middle.subrange(
        at,
        at + part.len(),
    ));
    assert(text::stands_at(whole, part, before.len() + at));
}

/// Only a clone, a checkout and a model file say when they are finished:
/// every step of any other phase runs every time.
pub proof fn law_only_what_can_be_observed_is_conditioned(payload: ProfileNode)
    ensures
        expansion(payload) matches Ok(steps) ==> forall|i: int|
            0 <= i < steps.len() && (#[trigger] steps[i]).done is Some ==> payload is ComfyUiInstall
                || payload is CustomNodes || payload is Models,
{
    if let ProfileNode::LlmModels { models, .. } = payload {
        if models is Ok {
            lemma_snapshots_are_unconditioned(models->Ok_0@);
        }
    }
}

/// No snapshot download says when it is finished.
proof fn lemma_snapshots_are_unconditioned(models: Seq<LlmModelSpec>)
    ensures
        llm_steps(models) matches Ok(steps) ==> forall|i: int|
            0 <= i < steps.len() ==> (#[trigger] steps[i]).done is None,
    decreases models.len(),
{
    if models.len() > 0 {
        lemma_snapshots_are_unconditioned(models.drop_last());
    }
}

/// A model file's condition asks about the file its download writes, and
/// the list has one step per entry, in order.
pub proof fn law_a_model_is_conditioned_on_its_own_file(models: Seq<ModelItemSpec>)
    ensures
        models_steps(models) matches Ok(steps) ==> {
            &&& steps.len() == models.len()
            &&& forall|i: int|
                0 <= i < steps.len() ==> {
                    &&& (#[trigger] steps[i]).step matches StepView::Transfer { src, dst } && src
                        == models[i].src@ && steps[i].done == Some(
                        condition::finished_file(dst, declared_digest(models[i].sha256)),
                    )
                }
        },
    decreases models.len(),
{
    if models.len() > 0 {
        law_a_model_is_conditioned_on_its_own_file(models.drop_last());
    }
}

/// Whether a phase expands to one command, with this condition.
pub open spec fn runs_one(payload: ProfileNode, argv: Seq<Text>, done: Option<AssertView>) -> bool {
    &&& expansion(payload) matches Ok(steps)
    &&& steps.len() == 1
    &&& steps[0].step == StepView::Sh(argv)
    &&& steps[0].done == done
}

/// Installing ComfyUI is one shell command: the clone, then `&&`, then the
/// checkout of the ref in the clone, so that the ref is checked out after
/// a clone that succeeded. The repository is the declared one, else
/// `comfyanonymous/ComfyUI`. It is finished once the clone is there and
/// holds the ref.
pub proof fn law_an_install_checks_out_after_the_clone(payload: ProfileNode)
    ensures
        payload matches ProfileNode::ComfyUiInstall { ref_name, repo, .. } ==> ({
            let named = match repo {
                Some(repo) => repo@,
                None => "comfyanonymous/ComfyUI"@,
            };
            let clone = "git clone "@ + ("https://github.com/"@ + named + ".git"@) + " "@
                + "/workspace/ComfyUI"@;
            let checkout = "git -C "@ + "/workspace/ComfyUI"@ + " checkout "@ + ref_name@;
            runs_one(
                payload,
                seq!["sh"@, "-c"@, clone + " && "@ + checkout],
                Some(
                    AssertView::All(
                        seq![
                            AssertView::FileExists { path: "/workspace/ComfyUI/.git"@ },
                            AssertView::GitTreeAt {
                                dir: "/workspace/ComfyUI"@,
                                git_ref: ref_name@,
                            },
                        ],
                    ),
                ),
            )
        }),
{
    if let ProfileNode::ComfyUiInstall { ref_name, repo, .. } = payload {
        reveal_strlit(" && git -C ");
        reveal_strlit(" && ");
        reveal_strlit("git -C ");
        reveal_strlit(".git");
        reveal_strlit("/workspace/ComfyUI");
        reveal_strlit("/workspace/ComfyUI/.git");
        let named = match repo {
            Some(repo) => repo@,
            None => "comfyanonymous/ComfyUI"@,
        };
        let clone = "git clone "@ + ("https://github.com/"@ + named + ".git"@) + " "@
            + "/workspace/ComfyUI"@;
        let checkout = "git -C "@ + "/workspace/ComfyUI"@ + " checkout "@ + ref_name@;
        assert(" && git -C "@ =~= " && "@ + "git -C "@);
        let script = install_steps(ref_name@, text::opt_text(repo))[0].step->Sh_0[2];
        assert(script =~= clone + " && "@ + checkout);
        assert(condition::in_dir("/workspace/ComfyUI"@, ".git"@) =~= "/workspace/ComfyUI/.git"@);
    }
}

/// Packages are installed by one command that asks no questions, with all
/// of them in order; Python packages by the installer of ComfyUI's own
/// environment where that is asked for, else by the system's. Neither can
/// tell that it is finished.
pub proof fn law_packages_are_installed_by_one_command(payload: ProfileNode)
    ensures
        payload matches ProfileNode::SystemApt { packages, .. } ==> runs_one(
            payload,
            seq!["apt-get"@, "install"@, "-y"@] + text::texts(packages@),
            None,
        ),
        payload matches ProfileNode::PythonDeps { deps, in_comfy_venv, .. } ==> {
            &&& in_comfy_venv ==> runs_one(
                payload,
                seq!["/workspace/ComfyUI/venv/bin/pip"@, "install"@] + text::texts(deps@),
                None,
            )
            &&& !in_comfy_venv ==> runs_one(
                payload,
                seq!["pip"@, "install"@] + text::texts(deps@),
                None,
            )
        },
{
}

/// The Python version is checked by a command that fails unless the
/// version begins with the wanted text; it is never skipped. A script is
/// handed to a shell as it is written.
pub proof fn law_a_version_is_checked_every_time(payload: ProfileNode)
    ensures
        payload matches ProfileNode::PythonVersionCheck { want, .. } ==> runs_one(
            payload,
            seq![
                "python3"@,
                "-c"@,
                "import sys; assert sys.version.startswith(\""@ + want@
                    + "\"), \"python version mismatch: want "@ + want@
                    + ", got \" + sys.version"@,
            ],
            None,
        ),
        payload matches ProfileNode::PostInstall { script, .. } ==> runs_one(
            payload,
            seq!["sh"@, "-c"@, script@],
            None,
        ),
{
}

/// The steps of a list of custom nodes are those of its first part and
/// then those of the rest.
pub proof fn law_custom_nodes_come_one_after_the_other(
    first: Seq<CustomNodeSpec>,
    second: Seq<CustomNodeSpec>,
)
    ensures
        nodes_steps(first + second) == nodes_steps(first) + nodes_steps(second),
        nodes_steps(Seq::empty()).len() == 0,
    decreases second.len(),
{
    if second.len() == 0 {
        assert(first + second =~= first);
        assert(nodes_steps(first) + nodes_steps(second) =~= nodes_steps(first));
    } else {
        law_custom_nodes_come_one_after_the_other(first, second.drop_last());
        assert((first + second).drop_last() =~= first + second.drop_last());
        assert((first + second).last() == second.last());
        assert(nodes_steps(first + second) =~= nodes_steps(first) + nodes_steps(second));
    }
}

/// A custom node is cloned into its own directory, its ref is checked out
/// there where it names one, and its requirements are installed there
/// where it asks for that: in this order. The clone is finished once it is
/// there, the checkout once it holds the ref, and the requirements are
/// installed every time.
pub proof fn law_a_custom_node_is_cloned_then_checked_out(payload: ProfileNode, at: int)
    ensures
        payload matches ProfileNode::CustomNodes { nodes: Ok(nodes), .. } ==> (0 <= at < nodes@.len()
            && nodes@[at].name@.len() > 0 && nodes@[at].name@.last() != '/' ==> ({
            let node = nodes@[at];
            let dir = "/workspace/ComfyUI/custom_nodes"@ + "/"@ + node.name@;
            let there = AssertView::FileExists { path: dir + "/.git"@ };
            let clone = PlannedView {
                step: StepView::Sh(
                    seq![
                        "git"@,
                        "clone"@,
                        "https://github.com/"@ + node.repo@ + ".git"@,
                        dir,
                    ],
                ),
                done: Some(there),
            };
            let checkout = match node.git_ref {
                Some(git_ref) => seq![
                    PlannedView {
                        step: StepView::Sh(seq!["git"@, "-C"@, dir, "checkout"@, git_ref@]),
                        done: Some(
                            AssertView::All(
                                seq![there, AssertView::GitTreeAt { dir, git_ref: git_ref@ }],
                            ),
                        ),
                    },
                ],
                None => Seq::empty(),
            };
            let install = if node.pip {
                seq![
                    PlannedView {
                        step: StepView::Sh(
                            seq![
                                "/workspace/ComfyUI/venv/bin/pip"@,
                                "install"@,
                                "-r"@,
                                dir + "/requirements.txt"@,
                            ],
                        ),
                        done: None,
                    },
                ]
            } else {
                Seq::empty()
            };
            expansion(payload) == Ok::<Seq<PlannedView>, ErrorView>(
                nodes_steps(nodes@.take(at)) + (seq![clone] + checkout + install) + nodes_steps(
                    nodes@.skip(at + 1),
                ),
            )
        })),
        payload matches ProfileNode::CustomNodes { nodes: Err(message), .. } ==> expansion(payload)
            == Err::<Seq<PlannedView>, ErrorView>(
            ErrorView::EffectFailed {
                op: "custom_nodes"@,
                message: "nodes_json parse: "@ + message@,
            },
        ),
{
    if let ProfileNode::CustomNodes { nodes: Ok(nodes), .. } = payload {
        if 0 <= at < nodes@.len() && nodes@[at].name@.len() > 0 && nodes@[at].name@.last() != '/' {
            let node = nodes@[at];
            let dir = "/workspace/ComfyUI/custom_nodes"@ + "/"@ + node.name@;
            reveal_strlit(".git");
            reveal_strlit("/.git");
            assert(dir.last() == node.name@.last());
            assert(condition::in_dir(dir, ".git"@) =~= dir + "/.git"@);
            let before = nodes@.take(at);
            let after = nodes@.skip(at + 1);
            assert(before + seq![node] + after =~= nodes@);
            law_custom_nodes_come_one_after_the_other(before + seq![node], after);
            law_custom_nodes_come_one_after_the_other(before, seq![node]);
            assert(seq![node].drop_last() =~= Seq::<CustomNodeSpec>::empty());
            assert(seq![node].last() == node);
            assert(nodes_steps(seq![node].drop_last()).len() == 0);
            assert(nodes_steps(seq![node]) =~= node_steps(node));
        }
    }
}

/// The flag that names a revision: the one the address pins, else the
/// declared one, else none.
pub open spec fn revision_flag(pinned: Option<Text>, declared: Option<Text>) -> Seq<Text> {
    if pinned is Some {
        seq!["--revision"@, pinned->0]
    } else if declared is Some {
        seq!["--revision"@, declared->0]
    } else {
        Seq::empty()
    }
}

/// A revision is named to a command exactly where the address pins one or
/// one is declared, and the pinned one wins.
pub proof fn law_a_pinned_revision_wins(pinned: Option<Text>, declared: Option<Text>)
    ensures
        pinned matches Some(rev) ==> revision_flag(pinned, declared) == seq!["--revision"@, rev],
        pinned is None && declared is Some ==> revision_flag(pinned, declared) == seq![
            "--revision"@,
            declared->0,
        ],
        pinned is None && declared is None ==> revision_flag(pinned, declared).len() == 0,
        forall|argv: Seq<Text>| #[trigger]
            with_revision(argv, either_revision(pinned, declared)) == argv + revision_flag(
                pinned,
                declared,
            ),
{
    assert forall|argv: Seq<Text>| #[trigger]
        with_revision(argv, either_revision(pinned, declared)) == argv + revision_flag(
            pinned,
            declared,
        ) by {
        assert(with_revision(argv, either_revision(pinned, declared)) =~= argv + revision_flag(
            pinned,
            declared,
        ));
    }
}

/// A pull without an environment is a plain download of what its source
/// resolves to; with one, a web address is downloaded as it stands. It is
/// never skipped.
pub proof fn law_a_plain_pull_is_a_download(payload: ProfileNode)
    ensures
        payload matches ProfileNode::SyncPull { src, dst, env, revision, .. } ==> {
            &&& env.names().len() == 0 ==> match scheme::download_target(
                "sync_pull"@,
                src@,
                text::opt_text(revision),
            ) {
                Ok(url) => expansion(payload) matches Ok(steps) && steps.len() == 1
                    && steps[0].step == (StepView::Transfer { src: url, dst: dst@ })
                    && steps[0].done is None,
                Err(error) => expansion(payload) == Err::<Seq<PlannedView>, ErrorView>(error),
            }
            &&& "https://"@.is_prefix_of(src@) || "http://"@.is_prefix_of(src@) ==> (expansion(
                payload,
            ) matches Ok(steps) && steps.len() == 1 && steps[0].step == (StepView::Transfer {
                src: src@,
                dst: dst@,
            }) && steps[0].done is None)
            &&& env.names().len() > 0 && !"b2://"@.is_prefix_of(src@) && !"hf://"@.is_prefix_of(
                src@,
            ) ==> (expansion(payload) matches Ok(steps) && steps.len() == 1 && steps[0].step == (
            StepView::Transfer { src: src@, dst: dst@ }) && steps[0].done is None)
        },
{
    if let ProfileNode::SyncPull { src, .. } = payload {
        reveal_strlit("https://");
        reveal_strlit("http://");
        reveal_strlit("b2://");
        reveal_strlit("hf://");
        if "https://"@.is_prefix_of(src@) {
            assert(src@[0] == "https://"@[0] && src@[1] == "https://"@[1]);
        }
        if "http://"@.is_prefix_of(src@) {
            assert(src@[0] == "http://"@[0] && src@[1] == "http://"@[1]);
        }
        if "b2://"@.is_prefix_of(src@) {
            assert(src@[0] == "b2://"@[0]);
        }
        if "hf://"@.is_prefix_of(src@) {
            assert(src@[0] == "hf://"@[0] && src@[1] == "hf://"@[1]);
        }
    }
}

/// With an environment, a file of a bucket is pulled by the `b2` command,
/// into the file that is named; and a file is always pushed to a bucket by
/// it.
pub proof fn law_a_bucket_is_reached_by_its_command(payload: ProfileNode, bucket: Text, path: Text)
    requires
        bucket.len() > 0,
        !bucket.contains('/'),
        path.len() > 0,
    ensures
        payload matches ProfileNode::SyncPull { src, dst, env, .. } ==> (env.names().len() > 0
            && src@ == "b2://"@ + bucket + "/"@ + path ==> runs_one(
            payload,
            seq!["b2"@, "download-file-by-name"@, bucket, path, dst@],
            None,
        )),
        payload matches ProfileNode::StagingPush { src, dst, .. } ==> (dst@ == "b2://"@ + bucket
            + "/"@ + path ==> runs_one(
            payload,
            seq!["b2"@, "upload-file"@, bucket, src@, path],
            None,
        )),
{
    let rest = bucket + "/"@ + path;
    let address = "b2://"@ + bucket + "/"@ + path;
    assert(address =~= "b2://"@ + rest);
    text::lemma_lead_and_rest("b2://"@, rest);
    scheme::law_a_bucket_is_read_as_it_was_written(bucket, path, "sync_pull"@, address);
    scheme::law_a_bucket_is_read_as_it_was_written(bucket, path, "staging_push"@, address);
}

/// With an environment, a file of a repository is pulled by the `hf`
/// command, into the directory that is named; and a file is always pushed
/// to a repository by it, to the path where one is named. Either names the
/// revision that counts.
pub proof fn law_a_repository_is_reached_by_its_command(
    payload: ProfileNode,
    owner: Text,
    repo: Text,
    pinned: Option<Text>,
    path: Text,
)
    requires
        scheme::hf_segments(owner, repo, pinned),
    ensures
        payload matches ProfileNode::SyncPull { src, dst, env, revision, .. } ==> (
        env.names().len() > 0 && path.len() > 0 && src@ == scheme::hf_address(
            owner,
            repo,
            pinned,
            path,
        ) ==> runs_one(
            payload,
            seq!["hf"@, "download"@, owner + "/"@ + repo, path, "--local-dir"@, dst@]
                + revision_flag(pinned, text::opt_text(revision)),
            None,
        )),
        payload matches ProfileNode::StagingPush { src, dst, revision, .. } ==> (path.len() > 0
            && dst@ == scheme::hf_address(owner, repo, pinned, path) ==> runs_one(
            payload,
            seq!["hf"@, "upload"@, owner + "/"@ + repo, src@, path] + revision_flag(
                pinned,
                text::opt_text(revision),
            ),
            None,
        )),
        payload matches ProfileNode::StagingPush { src, dst, revision, .. } ==> (path.len() == 0
            && dst@ == scheme::hf_address(owner, repo, pinned, path) ==> runs_one(
            payload,
            seq!["hf"@, "upload"@, owner + "/"@ + repo, src@] + revision_flag(
                pinned,
                text::opt_text(revision),
            ),
            None,
        )),
{
    reveal_strlit("hf://");
    reveal_strlit("b2://");
    let address = scheme::hf_address(owner, repo, pinned, path);
    let rest = owner + "/"@ + repo + (match pinned {
        Some(rev) => "@"@ + rev,
        None => Seq::empty(),
    }) + "/"@ + path;
    assert(address =~= "hf://"@ + rest);
    text::lemma_lead_and_rest("hf://"@, rest);
    assert(address[0] == 'h');
    assert(!"b2://"@.is_prefix_of(address)) by {
        assert("b2://"@[0] == 'b');
    }
    scheme::law_an_address_is_read_as_it_was_written(
        owner,
        repo,
        pinned,
        path,
        "sync_pull"@,
        address,
    );
    scheme::law_an_address_is_read_as_it_was_written(
        owner,
        repo,
        pinned,
        path,
        "staging_push"@,
        address,
    );
    if let ProfileNode::SyncPull { revision, .. } = payload {
        law_a_pinned_revision_wins(pinned, text::opt_text(revision));
    }
    if let ProfileNode::StagingPush { src, revision, .. } = payload {
        law_a_pinned_revision_wins(pinned, text::opt_text(revision));
        let head = seq!["hf"@, "upload"@, owner + "/"@ + repo, src@];
        assert(head + Seq::<Text>::empty() =~= head);
        assert(head + seq![path] =~= seq!["hf"@, "upload"@, owner + "/"@ + repo, src@, path]);
    }
}

/// A push to anything but a bucket or a repository is a plain upload; a
/// marker of an upload route runs nothing and says so.
pub proof fn law_a_plain_push_is_an_upload(payload: ProfileNode)
    ensures
        payload matches ProfileNode::StagingPush { src, dst, .. } ==> (!"b2://"@.is_prefix_of(dst@)
            && !"hf://"@.is_prefix_of(dst@) ==> (expansion(payload) matches Ok(steps)
            && steps.len() == 1 && steps[0].step == (StepView::Transfer { src: src@, dst: dst@ })
            && steps[0].done is None)),
        payload matches ProfileNode::SyncPush { src, dst, .. } ==> (expansion(payload) matches Ok(
            steps,
        ) && steps.len() == 1 && steps[0].done is None && steps[0].step == StepView::Note(
            "sync_push src="@ + src@ + " dst="@ + dst@
                + ": marker only; not executed during apply"@,
        )),
{
}

/// Each model file is downloaded from its own source into the model
/// store: in the directory it names, else that of its kind, else
/// `checkpoints`, under its destination, else its name. It is finished
/// once it is there, with the declared content where a digest is declared.
/// A list is refused for its first entry that names no file.
pub proof fn law_a_model_lands_in_the_model_store(payload: ProfileNode, at: int)
    ensures
        payload matches ProfileNode::Models { models: Ok(models), .. } ==> {
            &&& (forall|i: int|
                0 <= i < models@.len() ==> (#[trigger] models@[i]).dst is Some || models@[i].name
                    is Some) ==> (expansion(payload) matches Ok(steps) && steps.len()
                == models@.len() && (0 <= at < models@.len() ==> ({
                let model = models@[at];
                let dir = if model.subdir is Some {
                    model.subdir->0@
                } else if model.kind is Some {
                    model.kind->0@
                } else {
                    "checkpoints"@
                };
                let file = if model.dst is Some {
                    model.dst->0@
                } else {
                    model.name->0@
                };
                let path = "/workspace/ComfyUI/models"@ + "/"@ + dir + "/"@ + file;
                let there = AssertView::FileExists { path };
                &&& steps[at].step == StepView::Transfer { src: model.src@, dst: path }
                &&& model.sha256 is None ==> steps[at].done == Some(there)
                &&& model.sha256 matches Some(hex) ==> steps[at].done == Some(
                    AssertView::All(
                        seq![
                            there,
                            AssertView::FileDigest { path, expected_sha256: text::lower(hex@) },
                        ],
                    ),
                )
            })))
            &&& 0 <= at < models@.len() && models@[at].dst is None && models@[at].name is None && (
            forall|i: int|
                0 <= i < at ==> (#[trigger] models@[i]).dst is Some || models@[i].name is Some)
                ==> expansion(payload) == Err::<Seq<PlannedView>, ErrorView>(
                ErrorView::EffectFailed {
                    op: "models"@,
                    message: "models["@ + text::decimal(at as nat)
                        + "]: entry must declare either 'dst' or 'name' for the target file"@,
                },
            )
        },
        payload matches ProfileNode::Models { models: Err(message), .. } ==> expansion(payload)
            == Err::<Seq<PlannedView>, ErrorView>(
            ErrorView::EffectFailed {
                op: "models"@,
                message: "models_json parse: "@ + message@,
            },
        ),
{
    if let ProfileNode::Models { models: Ok(models), .. } = payload {
        if forall|i: int|
            0 <= i < models@.len() ==> (#[trigger] models@[i]).dst is Some || models@[i].name
                is Some {
            lemma_every_model_has_a_step(models@);
        }
        if 0 <= at < models@.len() && models@[at].dst is None && models@[at].name is None && (
        forall|i: int|
            0 <= i < at ==> (#[trigger] models@[i]).dst is Some || models@[i].name is Some) {
            let upto = models@.take(at + 1);
            assert(upto.drop_last() =~= models@.take(at));
            assert forall|i: int| 0 <= i < models@.take(at).len() implies (
            #[trigger] models@.take(at)[i]).dst is Some || models@.take(at)[i].name is Some by {
                assert(models@.take(at)[i] == models@[i]);
            }
            lemma_every_model_has_a_step(models@.take(at));
            lemma_models_fail(models@, at + 1);
        }
    }
}

/// Where every entry names a file, every entry has the step of its own
/// download.
proof fn lemma_every_model_has_a_step(models: Seq<ModelItemSpec>)
    requires
        forall|i: int|
            0 <= i < models.len() ==> (#[trigger] models[i]).dst is Some || models[i].name is Some,
    ensures
        models_steps(models) matches Ok(steps) && {
            &&& steps.len() == models.len()
            &&& forall|i: int|
                0 <= i < models.len() ==> model_step(models[i], i) == Ok::<PlannedView, ErrorView>(
                    #[trigger] steps[i],
                )
        },
    decreases models.len(),
{
    if models.len() > 0 {
        let before = models.drop_last();
        assert forall|i: int| 0 <= i < before.len() implies (#[trigger] before[i]).dst is Some
            || before[i].name is Some by {
            assert(before[i] == models[i]);
        }
        assert(models.last() == models[models.len() - 1]);
        lemma_every_model_has_a_step(before);
    }
}

/// A snapshot of a repository is downloaded by the `hf` command into the
/// directory that is named, else `/tmp/`, at the revision that counts.
/// The owner and the repository are those of the address; an address
/// without either, or of another scheme, fails the phase.
pub proof fn law_a_snapshot_lands_in_its_directory(
    model: LlmModelSpec,
    owner: Text,
    repo: Text,
    pinned: Option<Text>,
    at: int,
)
    requires
        !owner.contains('/') && !owner.contains('@'),
        !repo.contains('@'),
        model.src@ == "hf://"@ + owner + "/"@ + repo + (match pinned {
            Some(rev) => "@"@ + rev,
            None => Seq::empty(),
        }),
    ensures
        owner.len() > 0 && repo.len() > 0 ==> (llm_step(model, at) matches Ok(step) && step.done
            is None && step.step == StepView::Sh(
            seq![
                "hf"@,
                "download"@,
                owner + "/"@ + repo,
                "--local-dir"@,
                if model.dst_dir is Some {
                    model.dst_dir->0@
                } else {
                    "/tmp/"@
                },
            ] + revision_flag(pinned, text::opt_text(model.revision)),
        )),
        owner.len() == 0 || repo.len() == 0 ==> llm_step(model, at) is Err,
{
    reveal_strlit("/");
    reveal_strlit("@");
    assert("/"@ =~= seq!['/']);
    assert("@"@ =~= seq!['@']);
    let tail = match pinned {
        Some(rev) => "@"@ + rev,
        None => Seq::empty(),
    };
    let named = owner + "/"@ + repo;
    let rest = named + tail;
    assert(model.src@ =~= "hf://"@ + rest);
    text::lemma_lead_and_rest("hf://"@, rest);
    assert(!named.contains('@')) by {
        if named.contains('@') {
            let i = named.index_of('@');
            if i < owner.len() {
                assert(owner[i] == '@');
            } else if i > owner.len() {
                assert(repo[i - owner.len() - 1] == '@');
            }
        }
    }
    match pinned {
        Some(rev) => {
            assert(rest =~= named + seq!['@'] + rev);
            text::lemma_split_at_mark(named, '@', rev);
        },
        None => {
            assert(rest =~= named);
        },
    }
    assert(named =~= owner + seq!['/'] + repo);
    text::lemma_split_at_mark(owner, '/', repo);
    law_a_pinned_revision_wins(pinned, text::opt_text(model.revision));
}

/// A list of snapshots has one step per entry, in order, each the one of
/// its own entry; the first entry that has none fails the phase, and so
/// does every source that is not an `hf://` address.
pub proof fn law_every_snapshot_has_a_step(payload: ProfileNode, at: int)
    ensures
        payload matches ProfileNode::LlmModels { models: Ok(models), .. } ==> {
            &&& expansion(payload) matches Ok(steps) ==> steps.len() == models@.len() && (0 <= at
                < models@.len() ==> llm_step(models@[at], at) == Ok::<PlannedView, ErrorView>(
                steps[at],
            ))
            &&& 0 <= at < models@.len() && (forall|i: int|
                0 <= i < at ==> llm_step(#[trigger] models@[i], i) is Ok) && llm_step(
                models@[at],
                at,
            ) is Err ==> (expansion(payload) matches Err(error) && llm_step(models@[at], at)
                == Err::<PlannedView, ErrorView>(error))
            &&& (forall|i: int| 0 <= i < models@.len() ==> llm_step(#[trigger] models@[i], i) is Ok)
                ==> expansion(payload) is Ok
            &&& 0 <= at < models@.len() && !"hf://"@.is_prefix_of(models@[at].src@) ==> llm_step(
                models@[at],
                at,
            ) == Err::<PlannedView, ErrorView>(
                ErrorView::EffectFailed {
                    op: "llm_models"@,
                    message: "models["@ + text::decimal(at as nat)
                        + "].src must be an hf:// URI, got "@ + models@[at].src@,
                },
            )
        },
        payload matches ProfileNode::LlmModels { models: Err(message), .. } ==> expansion(payload)
            == Err::<Seq<PlannedView>, ErrorView>(
            ErrorView::EffectFailed {
                op: "llm_models"@,
                message: "models_json parse: "@ + message@,
            },
        ),
{
    if let ProfileNode::LlmModels { models: Ok(models), .. } = payload {
        lemma_snapshots_one_by_one(models@);
        if 0 <= at < models@.len() && (forall|i: int|
            0 <= i < at ==> llm_step(#[trigger] models@[i], i) is Ok) && llm_step(
            models@[at],
            at,
        ) is Err {
            let before = models@.take(at);
            let upto = models@.take(at + 1);
            assert(upto.drop_last() =~= before);
            assert forall|i: int| 0 <= i < before.len() implies llm_step(
                #[trigger] before[i],
                i,
            ) is Ok by {
                assert(before[i] == models@[i]);
            }
            lemma_snapshots_one_by_one(before);
            lemma_llm_fail(models@, at + 1);
        }
    }
}

/// A list of snapshots expands where each entry does, to the step of
/// each.
proof fn lemma_snapshots_one_by_one(models: Seq<LlmModelSpec>)
    ensures
        (forall|i: int| 0 <= i < models.len() ==> llm_step(#[trigger] models[i], i) is Ok)
            ==> llm_steps(models) is Ok,
        llm_steps(models) matches Ok(steps) ==> {
            &&& steps.len() == models.len()
            &&& forall|i: int|
                0 <= i < models.len() ==> llm_step(models[i], i) == Ok::<PlannedView, ErrorView>(
                    #[trigger] steps[i],
                )
        },
    decreases models.len(),
{
    if models.len() > 0 {
        let before = models.drop_last();
        lemma_snapshots_one_by_one(before);
        if forall|i: int| 0 <= i < models.len() ==> llm_step(#[trigger] models[i], i) is Ok {
            assert forall|i: int| 0 <= i < before.len() implies llm_step(
                #[trigger] before[i],
                i,
            ) is Ok by {
                assert(before[i] == models[i]);
            }
            assert(llm_step(models[models.len() - 1], models.len() - 1) is Ok);
        }
        if llm_steps(models) is Ok {
            let steps = llm_steps(models)->Ok_0;
            let sofar = llm_steps(before)->Ok_0;
            assert forall|i: int| 0 <= i < models.len() implies llm_step(models[i], i) == Ok::<
                PlannedView,
                ErrorView,
            >(#[trigger] steps[i]) by {
                if i < before.len() {
                    assert(before[i] == models[i]);
                    assert(steps[i] == sofar[i]);
                }
            }
        }
    }
}

/// A launch is five commands, one after the other: the server in the
/// background with its output in the log; its process number kept and
/// written to the pid file; a second's wait; and a look at the process
/// that, where it is gone, says so, shows the log and fails the launch.
pub proof fn law_a_launch_fails_when_the_process_is_gone(
    argv: Seq<Text>,
    log: Text,
    pid: Text,
    label: Text,
)
    ensures
        ({
            let server = "nohup "@ + text::joined(argv, " "@) + " > "@ + log + " 2>&1"@;
            let recorded = "pid=$!"@ + "; "@ + "echo $pid > "@ + pid;
            let look = "kill -0 $pid 2>/dev/null"@;
            let gone = "{ "@ + "echo '"@ + label + " died immediately' >&2"@ + "; "@
                + "tail -100 "@ + log + " >&2"@ + "; "@ + "exit 1"@ + "; }"@;
            launch_text(argv, log, pid, label) == server + " & "@ + recorded + "; "@ + "sleep 1"@
                + "; "@ + look + " || "@ + gone
        }),
{
    reveal_strlit(" 2>&1 & pid=$!; echo $pid > ");
    reveal_strlit(" 2>&1");
    reveal_strlit(" & ");
    reveal_strlit("pid=$!");
    reveal_strlit("; ");
    reveal_strlit("echo $pid > ");
    reveal_strlit("; sleep 1; kill -0 $pid 2>/dev/null || { echo '");
    reveal_strlit("sleep 1");
    reveal_strlit("kill -0 $pid 2>/dev/null");
    reveal_strlit(" || ");
    reveal_strlit("{ ");
    reveal_strlit("echo '");
    reveal_strlit(" died immediately' >&2; tail -100 ");
    reveal_strlit(" died immediately' >&2");
    reveal_strlit("tail -100 ");
    reveal_strlit(" >&2; exit 1; }");
    reveal_strlit(" >&2");
    reveal_strlit("exit 1");
    reveal_strlit("; }");
    assert(" 2>&1 & pid=$!; echo $pid > "@ =~= " 2>&1"@ + " & "@ + "pid=$!"@ + "; "@
        + "echo $pid > "@);
    assert("; sleep 1; kill -0 $pid 2>/dev/null || { echo '"@ =~= "; "@ + "sleep 1"@ + "; "@
        + "kill -0 $pid 2>/dev/null"@ + " || "@ + "{ "@ + "echo '"@);
    assert(" died immediately' >&2; tail -100 "@ =~= " died immediately' >&2"@ + "; "@
        + "tail -100 "@);
    assert(" >&2; exit 1; }"@ =~= " >&2"@ + "; "@ + "exit 1"@ + "; }"@);
    let server = "nohup "@ + text::joined(argv, " "@) + " > "@ + log + " 2>&1"@;
    let recorded = "pid=$!"@ + "; "@ + "echo $pid > "@ + pid;
    let look = "kill -0 $pid 2>/dev/null"@;
    let gone = "{ "@ + "echo '"@ + label + " died immediately' >&2"@ + "; "@ + "tail -100 "@ + log
        + " >&2"@ + "; "@ + "exit 1"@ + "; }"@;
    assert(launch_text(argv, log, pid, label) =~= server + " & "@ + recorded + "; "@ + "sleep 1"@
        + "; "@ + look + " || "@ + gone);
}

/// ComfyUI is launched from its own directory, with its own interpreter,
/// on the declared port and with the extra arguments behind it: only once
/// the directory was entered. The launch is never skipped.
pub proof fn law_comfyui_is_launched_from_its_directory(payload: ProfileNode)
    ensures
        payload matches ProfileNode::ComfyUiRestart { port, extra_args, .. } ==> runs_one(
            payload,
            seq![
                "sh"@,
                "-c"@,
                "cd "@ + "/workspace/ComfyUI"@ + " && "@ + ("{ "@ + launch_text(
                    seq![
                        "/workspace/ComfyUI/venv/bin/python"@,
                        "/workspace/ComfyUI/main.py"@,
                        "--port"@,
                        text::decimal(port as nat),
                    ] + text::texts(extra_args@),
                    "/tmp/comfyui.log"@,
                    "/tmp/comfyui.pid"@,
                    "comfyui"@,
                ) + "; }"@),
            ],
            None,
        ),
{
}

/// A service is launched by the command of its platform: `vllm` and
/// `llamacpp` with the declared model, and `ollama` on its own. A platform
/// that needs a model and has none, and any other platform, is not
/// launched: a note says so.
pub proof fn law_a_service_is_launched_by_its_platform(payload: ProfileNode)
    ensures
        payload matches ProfileNode::ServiceStart {
            name,
            platform_kind,
            model,
            port,
            dtype,
            tensor_parallel_size,
            extra_args,
            ..
        } ==> ({
            let port_flag = if port is Some {
                seq!["--port"@, text::decimal(port->0 as nat)]
            } else {
                Seq::empty()
            };
            let dtype_flag = if dtype is Some {
                seq!["--dtype"@, dtype->0@]
            } else {
                Seq::empty()
            };
            let parallel_flag = if tensor_parallel_size is Some {
                seq!["--tensor-parallel-size"@, text::decimal(tensor_parallel_size->0 as nat)]
            } else {
                Seq::empty()
            };
            let named = "service_start name="@ + name@ + " platform_kind="@ + platform_kind@;
            &&& platform_kind@ == "vllm"@ && model is Some ==> launches(
                payload,
                name@,
                seq![
                    "python"@,
                    "-m"@,
                    "vllm.entrypoints.openai.api_server"@,
                    "--model"@,
                    model->0@,
                ] + port_flag + dtype_flag + parallel_flag + text::texts(extra_args@),
            )
            &&& platform_kind@ == "ollama"@ ==> launches(payload, name@, seq!["ollama"@, "serve"@])
            &&& platform_kind@ == "llamacpp"@ && model is Some ==> launches(
                payload,
                name@,
                seq!["llama-server"@, "--model"@, model->0@] + port_flag + text::texts(extra_args@),
            )
            &&& (platform_kind@ == "vllm"@ || platform_kind@ == "llamacpp"@) && model is None
                ==> notes(
                payload,
                named
                    + ": no launch invocation — the platform requires `model` and the profile declares none"@,
            )
            &&& platform_kind@ != "vllm"@ && platform_kind@ != "ollama"@ && platform_kind@
                != "llamacpp"@ ==> notes(
                payload,
                named + ": no launch invocation — spec 02 specifies vllm / ollama / llamacpp"@,
            )
        }),
{
    reveal_strlit("vllm");
    reveal_strlit("ollama");
    reveal_strlit("llamacpp");
    assert("vllm"@.len() == 4 && "ollama"@.len() == 6 && "llamacpp"@.len() == 8);
}

/// Whether a phase expands to the launch of a service: one shell command
/// with the log and the pid file of the service's name, never skipped.
pub open spec fn launches(payload: ProfileNode, name: Text, argv: Seq<Text>) -> bool {
    runs_one(
        payload,
        seq![
            "sh"@,
            "-c"@,
            launch_text(
                argv,
                "/tmp/"@ + name + ".log"@,
                "/tmp/"@ + name + ".pid"@,
                "service "@ + name,
            ),
        ],
        None,
    )
}

/// Whether a phase expands to one note.
pub open spec fn notes(payload: ProfileNode, message: Text) -> bool {
    &&& expansion(payload) matches Ok(steps)
    &&& steps.len() == 1
    &&& steps[0].step == StepView::Note(message)
    &&& steps[0].done is None
}

/// ComfyUI is waited for on its API, 180 seconds where nothing is
/// declared, and a service on its own URL, 300 seconds where nothing is
/// declared; a declared time counts as it is. Either watches the pid file
/// and the log of its launch.
pub proof fn law_a_wait_asks_as_long_as_declared(payload: ProfileNode)
    ensures
        payload matches ProfileNode::ComfyUiHealth { port, timeout_sec, .. } ==> polls(
            payload,
            "http://127.0.0.1:"@ + text::decimal(port as nat) + "/object_info"@,
            if timeout_sec is Some {
                timeout_sec->0 as u64
            } else {
                180
            },
            "/tmp/comfyui.pid"@,
            "/tmp/comfyui.log"@,
        ),
        payload matches ProfileNode::ServiceReady { name, check_url, timeout_sec, .. } ==> polls(
            payload,
            check_url@,
            if timeout_sec is Some {
                timeout_sec->0 as u64
            } else {
                300
            },
            "/tmp/"@ + name@ + ".pid"@,
            "/tmp/"@ + name@ + ".log"@,
        ),
{
}

/// Whether a phase expands to one wait, never skipped.
pub open spec fn polls(payload: ProfileNode, url: Text, sec: u64, pid: Text, log: Text) -> bool {
    &&& expansion(payload) matches Ok(steps)
    &&& steps.len() == 1
    &&& steps[0].step == StepView::HttpPoll {
        url,
        timeout_sec: sec,
        pid_file: Some(pid),
        log_path: Some(log),
    }
    &&& steps[0].done is None
}

/// A node that is no lifecycle phase has no steps: it is refused by its
/// own number. Of the lifecycle phases only a route, and a list of nodes
/// or models, can fail to expand.
pub proof fn law_only_lifecycle_phases_have_steps(payload: ProfileNode)
    ensures
        payload is Spec || payload is ShExec || payload is FsWrite || payload is NetHttpGet
            || payload is NetHttpPost || payload is NetTransfer || payload is MountBind
            || payload is MountUmount || payload is EnvSecret || payload is EnvLiteral
            || payload is EnvRef ==> expansion(payload) == Err::<Seq<PlannedView>, ErrorView>(
            ErrorView::PayloadVariant { node: payload.id().0, expected: "lifecycle"@ },
        ),
        payload is SystemApt || payload is ComfyUiInstall || payload is PythonVersionCheck
            || payload is PythonDeps || payload is SyncPush || payload is PostInstall
            || payload is ComfyUiRestart || payload is ComfyUiHealth || payload is ServiceStart
            || payload is ServiceReady ==> (expansion(payload) matches Ok(steps) && steps.len()
            == 1),
{
}

/// A snapshot address that is written wrong fails the phase, in words that
/// count the entry, say what is wrong with it and quote it.
pub proof fn law_a_wrong_snapshot_address_is_quoted(model: LlmModelSpec, rest: Text, at: int)
    requires
        model.src@ == "hf://"@ + rest,
        !rest.contains('@'),
    ensures
        ({
            let named = "models["@ + text::decimal(at as nat);
            &&& !rest.contains('/') ==> llm_step(model, at) == Err::<PlannedView, ErrorView>(
                ErrorView::EffectFailed {
                    op: "llm_models"@,
                    message: named + "].src is missing an owner/repo segment: "@ + model.src@,
                },
            )
            &&& rest.len() > 0 && rest[0] == '/' ==> llm_step(model, at) == Err::<
                PlannedView,
                ErrorView,
            >(
                ErrorView::EffectFailed {
                    op: "llm_models"@,
                    message: named + "].src has an invalid owner/repo segment: "@ + model.src@,
                },
            )
        }),
{
    text::lemma_lead_and_rest("hf://"@, rest);
    if rest.len() > 0 && rest[0] == '/' {
        let none = Seq::<char>::empty();
        text::lemma_split_at_mark(none, '/', rest.skip(1));
        assert(none + seq!['/'] + rest.skip(1) =~= rest);
    }
}

} // verus!
