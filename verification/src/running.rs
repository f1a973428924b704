//! Running a step: what is decided around the effect.
//!
//! A step's condition is asked before it runs, and only a satisfied
//! answer skips it: running something that was already finished costs
//! bandwidth, skipping something that was not costs a broken machine.
//! The answers are reported either way.

use crate::condition;
use crate::condition::{
    describe_execution, eval, Assert, AssertNode, AssertOutcome, AssertView, ExecutionIds, NodeView,
    Observe, OutcomeView,
};
use crate::effects::{ExecOutcome, TransferOutcome};
use crate::exec::{ErrorView, ExecError, ExecMode};
use crate::lifecycle::{PlannedStep, PlannedView, Step, StepView};
use crate::names::EnvMap;
use crate::scheme;
use crate::text;
use crate::text::{debug, debug_list, join, lines, number, parse_number, signed_number, trim, Text};
use vstd::prelude::*;

verus! {

/// How long a poll waits between two requests, in seconds.
pub const HTTP_POLL_INTERVAL_SEC: u64 = 2;

/// How many lines of a launch log a failure shows.
pub const DIED_LOG_TAIL_LINES: usize = 100;

// ---------------------------------------------------------------------
// What a step reads as
// ---------------------------------------------------------------------

/// What a step reads as in a trace: of its environment the names only.
pub open spec fn rendered(step: StepView, names: Seq<Text>) -> Text {
    match step {
        StepView::Sh(argv) => if names.len() == 0 {
            "sh argv="@ + text::debug_list_text(argv)
        } else {
            "sh argv="@ + text::debug_list_text(argv) + " env_keys="@ + text::debug_list_text(
                names,
            )
        },
        StepView::Transfer { src, dst } => "transfer src="@ + src + " dst="@ + dst,
        StepView::HttpPoll { url, timeout_sec, pid_file, .. } => {
            let asked = "http_poll url="@ + url + " timeout="@ + text::decimal(timeout_sec as nat)
                + "s"@;
            match pid_file {
                Some(path) => asked + " pid_file="@ + path,
                None => asked,
            }
        },
        StepView::Note(message) => note_text(message),
    }
}

/// What a note reads as.
pub open spec fn note_text(message: Text) -> Text {
    "note \""@ + message + "\""@
}

/// A quoted note.
fn note_line(message: &str) -> (r: String)
    ensures
        r@ == note_text(message@),
{
    let mut out = "note \"".to_owned();
    out.append(message);
    out.append("\"");
    out
}

/// What a step reads as in a trace.
pub fn render_dry(step: &Step, env: &EnvMap) -> (r: String)
    ensures
        r@ == rendered(step@, env.names()),
{
    match step {
        Step::Sh(argv) => {
            let mut out = "sh argv=".to_owned();
            out.append(debug_list(argv).as_str());
            if !env.is_empty() {
                out.append(" env_keys=");
                out.append(debug_list(&env.keys()).as_str());
            }
            out
        },
        Step::Transfer { src, dst } => {
            let mut out = "transfer src=".to_owned();
            out.append(src.as_str());
            out.append(" dst=");
            out.append(dst.as_str());
            out
        },
        Step::HttpPoll { url, timeout_sec, pid_file, .. } => {
            let mut out = "http_poll url=".to_owned();
            out.append(url.as_str());
            out.append(" timeout=");
            out.append(number(*timeout_sec).as_str());
            out.append("s");
            if let Some(path) = pid_file {
                out.append(" pid_file=");
                out.append(path.as_str());
            }
            out
        },
        Step::Note(message) => note_line(message.as_str()),
    }
}

// ---------------------------------------------------------------------
// Results
// ---------------------------------------------------------------------

/// What executing a step observed.
#[derive(Debug, PartialEq, Eq)]
pub struct StepResult {
    /// What the trace says.
    pub summary: String,
    /// Exit code or response status, zero where there is neither.
    pub status: i64,
    /// The end of a command's output.
    pub stdout: Option<String>,
    /// The end of a command's error output.
    pub stderr: Option<String>,
    /// Bytes moved.
    pub bytes: Option<u64>,
    /// Where they went.
    pub dst: Option<String>,
    /// Why the step did what it did.
    pub note: Option<String>,
}

/// The model of a [`StepResult`].
pub struct ResultView {
    pub summary: Text,
    pub status: i64,
    pub stdout: Option<Text>,
    pub stderr: Option<Text>,
    pub bytes: Option<u64>,
    pub dst: Option<Text>,
    pub note: Option<Text>,
}

impl View for StepResult {
    type V = ResultView;

    open spec fn view(&self) -> ResultView {
        ResultView {
            summary: self.summary@,
            status: self.status,
            stdout: text::opt_text(self.stdout),
            stderr: text::opt_text(self.stderr),
            bytes: self.bytes,
            dst: text::opt_text(self.dst),
            note: text::opt_text(self.note),
        }
    }
}

/// A result that says `summary` and observed nothing.
pub open spec fn summary_view(summary: Text) -> ResultView {
    ResultView {
        summary,
        status: 0,
        stdout: None,
        stderr: None,
        bytes: None,
        dst: None,
        note: None,
    }
}

impl Default for StepResult {
    /// A result that says and observed nothing.
    fn default() -> (r: Self)
        ensures
            r@ == summary_view(Seq::empty()),
    {
        StepResult::summary_only(String::new())
    }
}

impl StepResult {
    /// A result that says `summary` and observed nothing.
    fn summary_only(summary: String) -> (r: Self)
        ensures
            r@ == summary_view(summary@),
    {
        StepResult {
            summary,
            status: 0,
            stdout: None,
            stderr: None,
            bytes: None,
            dst: None,
            note: None,
        }
    }
}

/// A step that failed, and what it observed before it did.
#[derive(Debug)]
pub struct StepFailure {
    /// What went wrong.
    pub error: ExecError,
    /// What was observed first; nothing, where it failed before that.
    pub observed: Box<StepResult>,
}

/// The model of a [`StepFailure`].
pub struct FailureView {
    pub error: ErrorView,
    pub observed: ResultView,
}

impl View for StepFailure {
    type V = FailureView;

    open spec fn view(&self) -> FailureView {
        FailureView { error: self.error@, observed: self.observed@ }
    }
}

/// A failure that observed nothing.
pub open spec fn unobserved(error: ErrorView) -> FailureView {
    FailureView { error, observed: summary_view(Seq::empty()) }
}

impl From<ExecError> for StepFailure {
    /// A failure that observed nothing.
    fn from(error: ExecError) -> (r: Self)
        ensures
            r@ == unobserved(error@),
    {
        StepFailure { error, observed: Box::new(StepResult::default()) }
    }
}

impl vstd::std_specs::convert::FromSpecImpl<ExecError> for StepFailure {
    open spec fn obeys_from_spec() -> bool {
        false
    }

    open spec fn from_spec(error: ExecError) -> StepFailure {
        arbitrary()
    }
}

/// The model of running a step.
pub open spec fn step_result(r: Result<StepResult, StepFailure>) -> Result<
    ResultView,
    FailureView,
> {
    match r {
        Ok(result) => Ok(result@),
        Err(failure) => Err(failure@),
    }
}

// ---------------------------------------------------------------------
// Around a condition
// ---------------------------------------------------------------------

/// What a skipped step says: the step as a dry run renders it, and which
/// parts of its condition held.
pub open spec fn skipped(
    step: StepView,
    names: Seq<Text>,
    done: AssertView,
    node: NodeView,
) -> ResultView {
    let held = condition::described(done, Some(node));
    ResultView {
        note: Some("skipped, already done: "@ + held),
        ..summary_view(rendered(step, names) + " skipped: "@ + held)
    }
}

/// What follows from asking a step's condition.
pub enum StepStart {
    /// The step is finished already.
    Skip(StepResult),
    /// The step is to run; the answer of its condition, where it has one.
    Run(Option<AssertNode>),
}

/// Whether `node` is what evaluating `done` may give, with its identities
/// counted from `first` on and `next` the one after them.
pub open spec fn asked<O: Observe>(
    obs: O,
    done: AssertView,
    mode: ExecMode,
    node: NodeView,
    first: u64,
    next: u64,
) -> bool {
    &&& condition::evaluated(obs, done, mode, node)
    &&& condition::numbered(node, first)
    &&& next == condition::ids_after(node, first)
}

/// Whether `start` is what follows from asking the condition of
/// `planned`: only a satisfied answer skips the step. The evaluation
/// takes its identities from `first` on and leaves `next`; a step without
/// a condition takes none.
pub open spec fn started<O: Observe>(
    obs: O,
    planned: PlannedView,
    names: Seq<Text>,
    start: StepStart,
    first: u64,
    next: u64,
) -> bool {
    match planned.done {
        None => start matches StepStart::Run(None) && next == first,
        Some(done) => exists|node: NodeView| #[trigger]
            asked(obs, done, ExecMode::Real, node, first, next) && match start {
                StepStart::Skip(result) => {
                    &&& node.outcome() is Satisfied
                    &&& result@ == skipped(planned.step, names, done, node)
                },
                StepStart::Run(evaluated) => {
                    &&& !(node.outcome() is Satisfied)
                    &&& evaluated is Some
                    &&& evaluated->0@ == node
                },
            },
    }
}

/// Asks a step's condition before it runs.
pub fn begin_step<O: Observe>(
    planned: &PlannedStep,
    env: &EnvMap,
    obs: &O,
    ids: &mut ExecutionIds,
) -> (r: StepStart)
    ensures
        started(*obs, planned@, env.names(), r, old(ids).next, final(ids).next),
{
    let done = match &planned.done {
        Some(done) => done,
        None => {
            return StepStart::Run(None);
        },
    };
    let node = eval(done, ExecMode::Real, obs, ids);
    assert(asked(*obs, done@, ExecMode::Real, node@, old(ids).next, ids.next));
    if node.is_satisfied() {
        StepStart::Skip(skip_result(&planned.step, env, done, &node))
    } else {
        StepStart::Run(Some(node))
    }
}

/// What a skipped step says.
pub fn skip_result(step: &Step, env: &EnvMap, done: &Assert, node: &AssertNode) -> (r: StepResult)
    ensures
        r@ == skipped(step@, env.names(), done@, node@),
{
    let held = describe_execution(done, node);
    let mut summary = render_dry(step, env);
    summary.append(" skipped: ");
    summary.append(held.as_str());
    let mut note = "skipped, already done: ".to_owned();
    note.append(held.as_str());
    StepResult {
        summary,
        status: 0,
        stdout: None,
        stderr: None,
        bytes: None,
        dst: None,
        note: Some(note),
    }
}

/// What a step that ran says: what it observed, and how its condition
/// had answered.
pub open spec fn noted(
    done: Option<AssertView>,
    node: Option<NodeView>,
    result: ResultView,
) -> ResultView {
    match (done, node) {
        (Some(done), Some(node)) => ResultView {
            note: Some("not done: "@ + condition::described(done, Some(node))),
            ..result
        },
        _ => result,
    }
}

/// The model of the answer of a condition, where there is one.
pub open spec fn opt_answer(node: Option<AssertNode>) -> Option<NodeView> {
    match node {
        Some(node) => Some(node@),
        None => None,
    }
}

/// Adds the answer of a step's condition to what the step observed. A
/// failure stays as it is.
pub fn finish_step(
    planned: &PlannedStep,
    evaluated: &Option<AssertNode>,
    effect: Result<StepResult, StepFailure>,
) -> (r: Result<StepResult, StepFailure>)
    ensures
        match effect {
            Ok(result) => r is Ok && r->Ok_0@ == noted(
                planned@.done,
                opt_answer(*evaluated),
                result@,
            ),
            Err(failure) => r is Err && r->Err_0@ == failure@,
        },
{
    let mut result = effect?;
    if let Some(done) = &planned.done {
        if let Some(node) = evaluated {
            let mut note = "not done: ".to_owned();
            note.append(describe_execution(done, node).as_str());
            result.note = Some(note);
        }
    }
    Ok(result)
}

/// What a dry run says of a step.
#[derive(Debug, PartialEq, Eq)]
pub struct DryStep {
    /// What the trace says.
    pub summary: String,
    /// How the condition answered, where there is one.
    pub note: Option<String>,
}

/// What a step would do, in its own words.
pub open spec fn verb_of(step: StepView) -> Text {
    match step {
        StepView::Transfer { .. } => "transfer"@,
        StepView::HttpPoll { .. } => "poll"@,
        StepView::Sh(_) => "run"@,
        StepView::Note(_) => "run"@,
    }
}

fn would_verb(step: &Step) -> (r: &'static str)
    ensures
        r@ == verb_of(step@),
{
    match step {
        Step::Transfer { .. } => "transfer",
        Step::HttpPoll { .. } => "poll",
        Step::Sh(_) => "run",
        Step::Note(_) => "run",
    }
}

/// How a dry run words an answer: only a satisfied one would skip.
pub open spec fn verdict(outcome: OutcomeView, verb: Text) -> Text {
    match outcome {
        OutcomeView::Satisfied => "would skip, already done"@,
        OutcomeView::Unsatisfied => "would "@ + verb + ", not done"@,
        OutcomeView::NotChecked => "undecided (not evaluated in a dry run), would "@ + verb,
        OutcomeView::CheckFailed(_) => "undecided (the condition could not be read), would "@
            + verb,
    }
}

fn dry_run_verdict(outcome: &AssertOutcome, verb: &str) -> (r: String)
    ensures
        r@ == verdict(outcome@, verb@),
{
    match outcome {
        AssertOutcome::Satisfied => "would skip, already done".to_owned(),
        AssertOutcome::Unsatisfied => {
            let mut out = "would ".to_owned();
            out.append(verb);
            out.append(", not done");
            out
        },
        AssertOutcome::NotChecked => {
            let mut out = "undecided (not evaluated in a dry run), would ".to_owned();
            out.append(verb);
            out
        },
        AssertOutcome::CheckFailed(_) => {
            let mut out = "undecided (the condition could not be read), would ".to_owned();
            out.append(verb);
            out
        },
    }
}

/// What a dry run says of a step whose condition answered `node`.
pub open spec fn dry_view(
    step: StepView,
    names: Seq<Text>,
    done: AssertView,
    node: NodeView,
) -> (Text, Option<Text>) {
    let said = verdict(node.outcome(), verb_of(step));
    let answers = condition::described(done, Some(node));
    (
        rendered(step, names) + " "@ + said + ": "@ + answers,
        Some(said + ": "@ + answers),
    )
}

/// What a dry run says of a step whose condition answered `node`.
pub fn dry_step(step: &Step, env: &EnvMap, done: &Assert, node: &AssertNode) -> (r: DryStep)
    ensures
        (r.summary@, text::opt_text(r.note)) == dry_view(step@, env.names(), done@, node@),
{
    let said = dry_run_verdict(node.outcome(), would_verb(step));
    let answers = describe_execution(done, node);
    let mut summary = render_dry(step, env);
    summary.append(" ");
    summary.append(said.as_str());
    summary.append(": ");
    summary.append(answers.as_str());
    let mut note = said;
    note.append(": ");
    note.append(answers.as_str());
    DryStep { summary, note: Some(note) }
}

/// Renders a step for a dry run, asking its condition.
pub fn dry_run_step<O: Observe>(
    planned: &PlannedStep,
    env: &EnvMap,
    obs: &O,
    ids: &mut ExecutionIds,
) -> (r: DryStep)
    ensures
        match planned@.done {
            None => r.summary@ == rendered(planned@.step, env.names()) && r.note is None
                && final(ids).next == old(ids).next,
            Some(done) => exists|node: NodeView| #[trigger]
                asked(
                    *obs,
                    done,
                    ExecMode::DryRun,
                    node,
                    old(ids).next,
                    final(ids).next,
                ) && (
                r.summary@,
                text::opt_text(r.note),
                ) == dry_view(planned@.step, env.names(), done, node),
        },
{
    match &planned.done {
        None => DryStep { summary: render_dry(&planned.step, env), note: None },
        Some(done) => {
            let node = eval(done, ExecMode::DryRun, obs, ids);
            assert(asked(*obs, done@, ExecMode::DryRun, node@, old(ids).next, ids.next));
            dry_step(&planned.step, env, done, &node)
        },
    }
}

/// What running a step produced, in whichever mode it ran.
#[derive(Debug, PartialEq, Eq)]
pub enum StepRun {
    /// A dry run: the step was rendered and its condition answered.
    Dry(DryStep),
    /// A real run: the step's effect happened, or it was skipped.
    Real(StepResult),
}

// ---------------------------------------------------------------------
// What an effect's outcome means
// ---------------------------------------------------------------------

/// What a finished command observed.
pub open spec fn sh_observed(outcome: ExecOutcome) -> ResultView {
    ResultView {
        status: outcome.exit_code as i64,
        stdout: Some(outcome.stdout_tail@),
        stderr: Some(outcome.stderr_tail@),
        ..summary_view(
            "sh exit="@ + text::signed_decimal(outcome.exit_code as int) + " stdout="@
                + text::debug_text(outcome.stdout_tail@),
        )
    }
}

/// What running a command gives: a non-zero exit fails the step, with
/// what was observed beside it.
pub open spec fn sh_ran(
    argv: Seq<Text>,
    op: Text,
    outcome: Result<ExecOutcome, ExecError>,
) -> Result<ResultView, FailureView> {
    match outcome {
        Err(error) => Err(unobserved(error@)),
        Ok(outcome) => if outcome.exit_code != 0 {
            Err(
                FailureView {
                    error: scheme::failed(
                        op,
                        "sh "@ + text::debug_list_text(argv) + " failed: exit "@
                            + text::signed_decimal(outcome.exit_code as int) + " stderr="@
                            + text::debug_text(outcome.stderr_tail@),
                    ),
                    observed: sh_observed(outcome),
                },
            )
        } else {
            Ok(sh_observed(outcome))
        },
    }
}

/// What running a command gives.
pub fn sh_result(argv: &Vec<String>, op: &str, outcome: Result<ExecOutcome, ExecError>) -> (r:
    Result<StepResult, StepFailure>)
    ensures
        step_result(r) == sh_ran(text::texts(argv@), op@, outcome),
{
    let outcome = match outcome {
        Ok(outcome) => outcome,
        Err(error) => {
            return Err(StepFailure::from(error));
        },
    };
    let code = signed_number(outcome.exit_code as i64);
    let mut summary = "sh exit=".to_owned();
    summary.append(code.as_str());
    summary.append(" stdout=");
    summary.append(debug(outcome.stdout_tail.as_str()).as_str());
    let failed = outcome.exit_code != 0;
    let mut message = "sh ".to_owned();
    message.append(debug_list(argv).as_str());
    message.append(" failed: exit ");
    message.append(code.as_str());
    message.append(" stderr=");
    message.append(debug(outcome.stderr_tail.as_str()).as_str());
    let observed = StepResult {
        summary,
        status: outcome.exit_code as i64,
        stdout: Some(outcome.stdout_tail),
        stderr: Some(outcome.stderr_tail),
        bytes: None,
        dst: None,
        note: None,
    };
    if failed {
        Err(
            StepFailure {
                error: ExecError::EffectFailed { op: op.to_owned(), message },
                observed: Box::new(observed),
            },
        )
    } else {
        Ok(observed)
    }
}

/// What a transfer gives.
pub open spec fn transferred(src: Text, outcome: Result<TransferOutcome, ExecError>) -> Result<
    ResultView,
    FailureView,
> {
    match outcome {
        Err(error) => Err(unobserved(error@)),
        Ok(outcome) => Ok(
            ResultView {
                bytes: Some(outcome.bytes),
                dst: Some(outcome.dst@),
                ..summary_view(
                    "transfer src="@ + src + " dst="@ + outcome.dst@ + " bytes="@ + text::decimal(
                        outcome.bytes as nat,
                    ),
                )
            },
        ),
    }
}

/// What a transfer gives.
pub fn transfer_result(src: &str, outcome: Result<TransferOutcome, ExecError>) -> (r: Result<
    StepResult,
    StepFailure,
>)
    ensures
        step_result(r) == transferred(src@, outcome),
{
    let outcome = match outcome {
        Ok(outcome) => outcome,
        Err(error) => {
            return Err(StepFailure::from(error));
        },
    };
    let mut summary = "transfer src=".to_owned();
    summary.append(src);
    summary.append(" dst=");
    summary.append(outcome.dst.as_str());
    summary.append(" bytes=");
    summary.append(number(outcome.bytes).as_str());
    Ok(
        StepResult {
            summary,
            status: 0,
            stdout: None,
            stderr: None,
            bytes: Some(outcome.bytes),
            dst: Some(outcome.dst),
            note: None,
        },
    )
}

/// What a note gives: nothing was done.
pub fn note_result(message: &str) -> (r: StepResult)
    ensures
        r@ == summary_view(note_text(message@)),
{
    StepResult::summary_only(note_line(message))
}

// ---------------------------------------------------------------------
// Waiting for a server
// ---------------------------------------------------------------------

/// What a look at a launch's process concluded.
#[derive(Debug, Clone, Copy, PartialEq, Eq, Structural)]
pub enum Liveness {
    /// The process exists.
    Alive,
    /// The process is gone.
    Dead(u32),
    /// Nothing to conclude: no file, or none with a number in it yet.
    Unknown,
}

/// The process number a pid file holds.
pub open spec fn pid_of(content: Text) -> Option<nat> {
    text::read_number(text::trimmed(content), u32::MAX as nat)
}

/// The process number a pid file holds.
pub fn pid_in(content: &str) -> (r: Option<u32>)
    ensures
        match r {
            Some(pid) => pid_of(content@) == Some(pid as nat),
            None => pid_of(content@) is None,
        },
{
    match parse_number(trim(content).as_str(), u32::MAX as u64) {
        Some(pid) => Some(pid as u32),
        None => None,
    }
}

/// What a pid file and a look at the process conclude. Without a number
/// there is nothing to conclude, least of all a death.
pub fn liveness(pid: Option<u32>, running: bool) -> (r: Liveness)
    ensures
        r == match pid {
            Some(pid) => if running {
                Liveness::Alive
            } else {
                Liveness::Dead(pid)
            },
            None => Liveness::Unknown,
        },
        r == concluded(pid, running),
{
    match pid {
        Some(pid) => if running {
            Liveness::Alive
        } else {
            Liveness::Dead(pid)
        },
        None => Liveness::Unknown,
    }
}

/// Something a poll learns.
pub enum PollEvent {
    /// A request was answered with this status, or failed with this.
    Answered(Result<u16, ErrorView>),
    /// The launch was looked at.
    Probed(Liveness),
}

/// What a poll knows.
pub struct PollView {
    pub last_status: Option<u16>,
    pub last_err: Option<Text>,
    pub armed: bool,
}

/// What a poll knows before it asks.
pub open spec fn unasked() -> PollView {
    PollView { last_status: None, last_err: None, armed: false }
}

/// What a poll knows after one more event. A process seen running arms
/// it; until then a missing process says nothing.
pub open spec fn learned(known: PollView, event: PollEvent) -> PollView {
    match event {
        PollEvent::Answered(Ok(status)) => PollView { last_status: Some(status), ..known },
        PollEvent::Answered(Err(error)) => PollView { last_err: Some(error.sentence()), ..known },
        PollEvent::Probed(Liveness::Alive) => PollView { armed: true, ..known },
        PollEvent::Probed(_) => known,
    }
}

/// What a poll knows after `events`.
pub open spec fn learned_all(events: Seq<PollEvent>) -> PollView
    decreases events.len(),
{
    if events.len() == 0 {
        unasked()
    } else {
        learned(learned_all(events.drop_last()), events.last())
    }
}

/// Whether a status ends the wait well.
pub open spec fn answers_well(status: u16) -> bool {
    200 <= status < 300
}

/// What a wait is for.
pub struct PollTarget<'a> {
    /// The URL to ask.
    pub url: &'a str,
    /// How long to ask, in seconds.
    pub timeout_sec: u64,
    /// Whether there is a launch to look at.
    pub watched: bool,
    /// The launch log, shown when the process dies.
    pub log_path: Option<&'a str>,
    /// The op that waits.
    pub op: &'a str,
}

/// The model of a [`PollTarget`].
pub struct TargetView {
    pub url: Text,
    pub timeout_sec: u64,
    pub watched: bool,
    pub log_path: Option<Text>,
    pub op: Text,
}

impl<'a> View for PollTarget<'a> {
    type V = TargetView;

    open spec fn view(&self) -> TargetView {
        TargetView {
            url: self.url@,
            timeout_sec: self.timeout_sec,
            watched: self.watched,
            log_path: text::opt_str(self.log_path),
            op: self.op@,
        }
    }
}

/// What a wait does next.
#[derive(Debug)]
pub enum PollAction {
    /// Ask the URL.
    Ask,
    /// Look at the launch.
    Probe,
    /// Read the launch log: the process of this number died.
    ReadLog(u32),
    /// Look at the clock.
    Clock,
    /// Wait so many seconds, then ask again.
    Pause(u64),
    /// The wait is over.
    Over(Result<StepResult, StepFailure>),
}

/// The model of a [`PollAction`].
pub enum ActionView {
    Ask,
    Probe,
    ReadLog(u32),
    Clock,
    Pause(u64),
    Over(Result<ResultView, FailureView>),
}

impl View for PollAction {
    type V = ActionView;

    open spec fn view(&self) -> ActionView {
        match self {
            PollAction::Ask => ActionView::Ask,
            PollAction::Probe => ActionView::Probe,
            PollAction::ReadLog(pid) => ActionView::ReadLog(*pid),
            PollAction::Clock => ActionView::Clock,
            PollAction::Pause(sec) => ActionView::Pause(*sec),
            PollAction::Over(result) => ActionView::Over(step_result(*result)),
        }
    }
}

/// A wait for a URL to answer well.
pub struct HttpPoll {
    last_status: Option<u16>,
    last_err: Option<String>,
    armed: bool,
}

impl View for HttpPoll {
    type V = PollView;

    closed spec fn view(&self) -> PollView {
        PollView {
            last_status: self.last_status,
            last_err: text::opt_text(self.last_err),
            armed: self.armed,
        }
    }
}

/// What a wait that ended well says.
pub open spec fn ready_view(url: Text, status: u16) -> ResultView {
    ResultView {
        status: status as i64,
        ..summary_view("http_poll url="@ + url + " status="@ + text::decimal(status as nat))
    }
}

/// What is said of the last answer when the time is up.
pub open spec fn last_heard(known: PollView) -> Text {
    match (known.last_status, known.last_err) {
        (Some(status), _) => "last status="@ + text::decimal(status as nat),
        (None, Some(message)) => message,
        (None, None) => "no response"@,
    }
}

/// The failure of a wait whose time is up.
pub open spec fn timeout(target: TargetView, known: PollView) -> FailureView {
    unobserved(
        scheme::failed(
            target.op,
            "HTTP poll of "@ + target.url + " timed out after "@ + text::decimal(
                target.timeout_sec as nat,
            ) + "s ("@ + last_heard(known) + ")"@,
        ),
    )
}

/// The failure of a wait whose process died, with the end of its log.
pub open spec fn death(target: TargetView, pid: u32, tail: Text) -> FailureView {
    unobserved(
        scheme::failed(
            target.op,
            "process died during readiness wait (pid "@ + text::decimal(pid as nat) + "); "@
                + target.url + " never answered"@ + tail,
        ),
    )
}

/// What follows an answer: a good one ends the wait, any other has the
/// launch looked at where there is one.
pub open spec fn after_answer(target: TargetView, answer: Result<u16, ErrorView>) -> ActionView {
    match answer {
        Ok(status) if answers_well(status) => ActionView::Over(Ok(ready_view(target.url, status))),
        _ => if target.watched {
            ActionView::Probe
        } else {
            ActionView::Clock
        },
    }
}

/// What follows a look at the launch: a process that was seen running and
/// is gone has died during the wait.
pub open spec fn after_probe(target: TargetView, known: PollView, seen: Liveness) -> ActionView {
    match seen {
        Liveness::Dead(pid) if known.armed => match target.log_path {
            Some(_) => ActionView::ReadLog(pid),
            None => ActionView::Over(Err(death(target, pid, Seq::empty()))),
        },
        _ => ActionView::Clock,
    }
}

/// What follows a look at the clock.
pub open spec fn after_clock(target: TargetView, known: PollView, late: bool) -> ActionView {
    if late {
        ActionView::Over(Err(timeout(target, known)))
    } else {
        ActionView::Pause(HTTP_POLL_INTERVAL_SEC)
    }
}

/// The model of an answer.
pub open spec fn answer_view(answer: Result<u16, ExecError>) -> Result<u16, ErrorView> {
    match answer {
        Ok(status) => Ok(status),
        Err(error) => Err(error@),
    }
}

impl HttpPoll {
    /// A wait that has not asked yet. It begins by asking.
    pub fn begin() -> (r: (Self, PollAction))
        ensures
            r.0@ == unasked(),
            r.1@ == ActionView::Ask,
    {
        (HttpPoll { last_status: None, last_err: None, armed: false }, PollAction::Ask)
    }

    /// Takes the answer to a request.
    pub fn answered(&mut self, target: &PollTarget<'_>, answer: Result<u16, ExecError>) -> (r:
        PollAction)
        ensures
            r@ == after_answer(target@, answer_view(answer)),
            r@ is Over <==> (answer matches Ok(status) && 200 <= status && status < 300),
            final(self)@ == (if r@ is Over {
                old(self)@
            } else {
                learned(old(self)@, PollEvent::Answered(answer_view(answer)))
            }),
    {
        match answer {
            Ok(status) => {
                if 200 <= status && status < 300 {
                    let mut summary = "http_poll url=".to_owned();
                    summary.append(target.url);
                    summary.append(" status=");
                    summary.append(number(status as u64).as_str());
                    let mut result = StepResult::summary_only(summary);
                    result.status = status as i64;
                    return PollAction::Over(Ok(result));
                }
                self.last_status = Some(status);
            },
            Err(error) => {
                self.last_err = Some(error.to_string());
            },
        }
        if target.watched {
            PollAction::Probe
        } else {
            PollAction::Clock
        }
    }

    /// Takes a look at the launch.
    pub fn probed(&mut self, target: &PollTarget<'_>, seen: Liveness) -> (r: PollAction)
        ensures
            r@ == after_probe(target@, old(self)@, seen),
            final(self)@ == learned(old(self)@, PollEvent::Probed(seen)),
    {
        match seen {
            Liveness::Alive => {
                self.armed = true;
                PollAction::Clock
            },
            Liveness::Dead(pid) => if self.armed {
                match target.log_path {
                    Some(_) => PollAction::ReadLog(pid),
                    None => {
                        let tail = String::new();
                        assert(tail@ =~= Seq::<char>::empty());
                        PollAction::Over(Err(died(target, pid, tail.as_str())))
                    },
                }
            } else {
                PollAction::Clock
            },
            Liveness::Unknown => PollAction::Clock,
        }
    }

    /// Takes what reading the log of the dead launch gave. A wait that
    /// has no log shows none.
    pub fn read_log(&self, target: &PollTarget<'_>, pid: u32, content: Result<String, String>) -> (r:
        PollAction)
        ensures
            r@ == ActionView::Over(
                Err(
                    death(
                        target@,
                        pid,
                        match target@.log_path {
                            Some(path) => log_shown(path, content_view(content)),
                            None => Seq::empty(),
                        },
                    ),
                ),
            ),
    {
        let tail = match target.log_path {
            Some(path) => log_tail(path, content),
            None => {
                let none = String::new();
                assert(none@ =~= Seq::<char>::empty());
                none
            },
        };
        PollAction::Over(Err(died(target, pid, tail.as_str())))
    }

    /// Takes a look at the clock: whether the time is up.
    pub fn clock(&self, target: &PollTarget<'_>, late: bool) -> (r: PollAction)
        ensures
            r@ == after_clock(target@, self@, late),
    {
        if !late {
            return PollAction::Pause(HTTP_POLL_INTERVAL_SEC);
        }
        let mut message = "HTTP poll of ".to_owned();
        message.append(target.url);
        message.append(" timed out after ");
        message.append(number(target.timeout_sec).as_str());
        message.append("s (");
        match (&self.last_status, &self.last_err) {
            (Some(status), _) => {
                let mut said = "last status=".to_owned();
                said.append(number(*status as u64).as_str());
                message.append(said.as_str());
            },
            (None, Some(said)) => message.append(said.as_str()),
            (None, None) => message.append("no response"),
        }
        message.append(")");
        PollAction::Over(
            Err(
                StepFailure::from(
                    ExecError::EffectFailed { op: target.op.to_owned(), message },
                ),
            ),
        )
    }
}

/// The failure of a wait whose process died.
fn died(target: &PollTarget<'_>, pid: u32, tail: &str) -> (r: StepFailure)
    ensures
        r@ == death(target@, pid, tail@),
{
    let mut message = "process died during readiness wait (pid ".to_owned();
    message.append(number(pid as u64).as_str());
    message.append("); ");
    message.append(target.url);
    message.append(" never answered");
    message.append(tail);
    StepFailure::from(ExecError::EffectFailed { op: target.op.to_owned(), message })
}

/// The last lines of a list, at most [`DIED_LOG_TAIL_LINES`].
pub open spec fn last_lines(all: Seq<Text>) -> Seq<Text> {
    if all.len() > DIED_LOG_TAIL_LINES {
        all.skip(all.len() - DIED_LOG_TAIL_LINES)
    } else {
        all
    }
}

/// What a failure shows of a launch log, or why it shows none.
pub open spec fn log_shown(path: Text, content: Result<Text, Text>) -> Text {
    match content {
        Ok(content) => {
            let shown = last_lines(text::lines_of(content));
            "\n--- "@ + path + " (last "@ + text::decimal(shown.len()) + " lines) ---\n"@
                + text::joined(shown, "\n"@)
        },
        Err(why) => "\n--- "@ + path + " unreadable: "@ + why + " ---"@,
    }
}

/// The model of what reading a log gave.
pub open spec fn content_view(content: Result<String, String>) -> Result<Text, Text> {
    match content {
        Ok(content) => Ok(content@),
        Err(why) => Err(why@),
    }
}

/// What a failure shows of a launch log, or why it shows none.
pub fn log_tail(path: &str, content: Result<String, String>) -> (r: String)
    ensures
        r@ == log_shown(path@, content_view(content)),
{
    let mut out = "\n--- ".to_owned();
    out.append(path);
    match content {
        Ok(content) => {
            let all = lines(content.as_str());
            let n = all.len();
            let start: usize = if n > DIED_LOG_TAIL_LINES {
                n - DIED_LOG_TAIL_LINES
            } else {
                0
            };
            let mut shown: Vec<String> = Vec::new();
            let mut i: usize = start;
            while i < n
                invariant
                    start <= i <= n == all@.len(),
                    text::texts(shown@) == text::texts(all@).subrange(start as int, i as int),
                decreases n - i,
            {
                let ghost sofar = text::texts(shown@);
                shown.push(all[i].clone());
                assert(text::texts(shown@) =~= sofar.push(text::texts(all@)[i as int]));
                assert(text::texts(shown@) =~= text::texts(all@).subrange(start as int, i + 1));
                i = i + 1;
            }
            assert(text::texts(shown@) =~= last_lines(text::texts(all@)));
            out.append(" (last ");
            out.append(number(shown.len() as u64).as_str());
            out.append(" lines) ---\n");
            out.append(join(&shown, "\n").as_str());
            out
        },
        Err(why) => {
            out.append(" unreadable: ");
            out.append(why.as_str());
            out.append(" ---");
            out
        },
    }
}

// ---------------------------------------------------------------------
// Laws
// ---------------------------------------------------------------------

/// Whether some look found the process running.
pub open spec fn sighted(events: Seq<PollEvent>) -> bool {
    exists|i: int|
        0 <= i < events.len() && #[trigger] events[i] == PollEvent::Probed(Liveness::Alive)
}

/// A poll is armed exactly when some look found the process running: a
/// number left behind by an earlier launch never becomes a death.
pub proof fn law_a_death_needs_a_sighting(events: Seq<PollEvent>)
    ensures
        learned_all(events).armed <==> sighted(events),
    decreases events.len(),
{
    if events.len() > 0 {
        let before = events.drop_last();
        law_a_death_needs_a_sighting(before);
        if events.last() == PollEvent::Probed(Liveness::Alive) {
            assert(events[events.len() - 1] == PollEvent::Probed(Liveness::Alive));
        }
        if learned_all(before).armed {
            let i = choose|i: int|
                0 <= i < before.len() && #[trigger] before[i] == PollEvent::Probed(
                    Liveness::Alive,
                );
            assert(events[i] == PollEvent::Probed(Liveness::Alive));
        }
        if sighted(events) {
            let i = choose|i: int|
                0 <= i < events.len() && #[trigger] events[i] == PollEvent::Probed(
                    Liveness::Alive,
                );
            if i < before.len() {
                assert(before[i] == PollEvent::Probed(Liveness::Alive));
            }
        }
    }
}

/// A wait ends for one of three reasons and no other: an answer was good,
/// a process that some look found running is gone, or the time is up.
/// A good answer ends it whatever the launch is doing, and until the
/// time is up it goes on asking.
pub proof fn law_a_wait_ends_for_a_reason(
    target: TargetView,
    events: Seq<PollEvent>,
    answer: Result<u16, ErrorView>,
    seen: Liveness,
    late: bool,
)
    ensures
        after_answer(target, answer) is Over <==> (answer matches Ok(status) && answers_well(
            status,
        )),
        after_answer(target, answer) matches ActionView::Over(result) ==> result is Ok,
        after_probe(target, learned_all(events), seen) is Clock <==> !(seen is Dead && sighted(
            events,
        )),
        after_clock(target, learned_all(events), late) is Over <==> late,
        !late ==> after_clock(target, learned_all(events), late) == ActionView::Pause(
            HTTP_POLL_INTERVAL_SEC,
        ),
{
    law_a_death_needs_a_sighting(events);
}

/// What a step reads as does not depend on any value of its environment.
pub proof fn law_rendering_hides_values(step: StepView, first: EnvMap, second: EnvMap)
    requires
        first.names() == second.names(),
    ensures
        rendered(step, first.names()) == rendered(step, second.names()),
{
}

/// A step without a condition is never skipped, and one whose condition
/// was not found satisfied is not skipped either.
pub proof fn law_only_satisfied_skips<O: Observe>(
    obs: O,
    planned: PlannedView,
    names: Seq<Text>,
    start: StepStart,
    first: u64,
    next: u64,
)
    requires
        started(obs, planned, names, start, first, next),
        start is Skip,
    ensures
        planned.done is Some,
        exists|node: NodeView| #[trigger]
            condition::evaluated(obs, planned.done->0, ExecMode::Real, node)
                && node.outcome() is Satisfied,
{
    let done = planned.done->0;
    let node = choose|node: NodeView|
        #[trigger] asked(obs, done, ExecMode::Real, node, first, next) && match start {
            StepStart::Skip(result) => node.outcome() is Satisfied && result@ == skipped(
                planned.step,
                names,
                done,
                node,
            ),
            _ => false,
        };
    assert(condition::evaluated(obs, done, ExecMode::Real, node));
}

/// An answer ends a wait well exactly when its status is at least 200 and
/// below 300. Any other status, and a request that failed, leads to a look
/// at the launch where there is one, and to the clock where there is none.
pub proof fn law_only_a_good_status_ends_the_wait(
    target: TargetView,
    status: u16,
    error: ErrorView,
)
    ensures
        200 <= status && status < 300 <==> after_answer(target, Ok(status)) is Over,
        200 <= status && status < 300 ==> (after_answer(target, Ok(status)) matches ActionView::Over(
            Ok(result),
        ) && result.status == status && result.summary == "http_poll url="@ + target.url
            + " status="@ + text::decimal(status as nat) && result.note is None && result.bytes
            is None && result.dst is None && result.stdout is None && result.stderr is None),
        (status < 200 || status >= 300) && target.watched ==> after_answer(target, Ok(status))
            is Probe,
        (status < 200 || status >= 300) && !target.watched ==> after_answer(target, Ok(status))
            is Clock,
        target.watched ==> after_answer(target, Err(error)) is Probe,
        !target.watched ==> after_answer(target, Err(error)) is Clock,
{
}

/// A wait remembers the last status and the last failure apart from each
/// other, and each answer replaces the one before it.
pub proof fn law_a_wait_remembers_what_it_heard(
    known: PollView,
    status: u16,
    error: ErrorView,
    seen: Liveness,
)
    ensures
        ({
            let after = learned(known, PollEvent::Answered(Ok(status)));
            &&& after.last_status == Some(status)
            &&& after.last_err == known.last_err && after.armed == known.armed
        }),
        ({
            let after = learned(known, PollEvent::Answered(Err(error)));
            &&& after.last_err == Some(error.sentence())
            &&& after.last_status == known.last_status && after.armed == known.armed
        }),
        ({
            let after = learned(known, PollEvent::Probed(seen));
            &&& after.armed == (known.armed || seen == Liveness::Alive)
            &&& after.last_status == known.last_status && after.last_err == known.last_err
        }),
        unasked().last_status is None && unasked().last_err is None && !unasked().armed,
{
}

/// A process that was seen running and is gone ends the wait in a failure
/// that names its number and the URL, once its log was read where there
/// is one. Nothing else a look finds ends the wait.
pub proof fn law_a_death_ends_the_wait(target: TargetView, known: PollView, pid: u32, tail: Text)
    ensures
        known.armed && target.log_path is Some ==> after_probe(target, known, Liveness::Dead(pid))
            == ActionView::ReadLog(pid),
        known.armed && target.log_path is None ==> (after_probe(
            target,
            known,
            Liveness::Dead(pid),
        ) matches ActionView::Over(Err(failure)) && failure == death(target, pid, Seq::empty())),
        !known.armed ==> after_probe(target, known, Liveness::Dead(pid)) is Clock,
        after_probe(target, known, Liveness::Alive) is Clock,
        after_probe(target, known, Liveness::Unknown) is Clock,
        death(target, pid, tail).error == (ErrorView::EffectFailed {
            op: target.op,
            message: "process died during readiness wait (pid "@ + text::decimal(pid as nat)
                + "); "@ + target.url + " never answered"@ + tail,
        }),
        death(target, pid, tail).observed.status == 0,
{
}

/// Until the time is up a wait pauses two seconds and asks again; when it
/// is up the wait fails, and says how long it waited and what it heard
/// last: a status if there was one, else the last failure, else nothing.
pub proof fn law_a_wait_fails_when_the_time_is_up(target: TargetView, known: PollView)
    ensures
        after_clock(target, known, false) == ActionView::Pause(2),
        after_clock(target, known, true) matches ActionView::Over(Err(failure)) && {
            let lead = "HTTP poll of "@ + target.url + " timed out after "@ + text::decimal(
                target.timeout_sec as nat,
            ) + "s ("@;
            &&& failure.error matches ErrorView::EffectFailed { op, message }
            &&& op == target.op
            &&& known.last_status matches Some(status) ==> message == lead + ("last status="@
                + text::decimal(status as nat)) + ")"@
            &&& known.last_status is None && known.last_err is Some ==> message == lead
                + known.last_err->0 + ")"@
            &&& known.last_status is None && known.last_err is None ==> message == lead
                + "no response"@ + ")"@
            &&& failure.observed.status == 0
        },
{
}

/// Of a launch log the last 100 lines are shown, in order, and their
/// number is said; a log that cannot be read is named with the reason.
pub proof fn law_the_end_of_a_log_is_shown(path: Text, all: Seq<Text>, content: Text, why: Text)
    ensures
        all.len() <= 100 ==> last_lines(all) == all,
        all.len() > 100 ==> last_lines(all).len() == 100,
        forall|i: int|
            0 <= i < last_lines(all).len() ==> #[trigger] last_lines(all)[i] == all[all.len()
                - last_lines(all).len() + i],
        text::lines_of(content).len() <= 100 ==> log_shown(path, Ok(content)) == "\n--- "@ + path
            + " (last "@ + text::decimal(text::lines_of(content).len()) + " lines) ---\n"@
            + text::joined(text::lines_of(content), "\n"@),
        text::lines_of(content).len() > 100 ==> log_shown(path, Ok(content)) == "\n--- "@ + path
            + " (last "@ + text::decimal(100) + " lines) ---\n"@ + text::joined(
            text::lines_of(content).skip(text::lines_of(content).len() - 100),
            "\n"@,
        ),
        log_shown(path, Err(why)) == "\n--- "@ + path + " unreadable: "@ + why + " ---"@,
{
}

/// A command step succeeds exactly when the command ran and exited with
/// 0. A command that exited with anything else fails its op, with its
/// exit code and both outputs beside the failure; one that could not be
/// started fails with nothing observed.
pub proof fn law_only_exit_zero_succeeds(
    argv: Seq<Text>,
    op: Text,
    ran: ExecOutcome,
    error: ExecError,
)
    ensures
        sh_ran(argv, op, Ok(ran)) is Ok <==> ran.exit_code == 0,
        sh_ran(argv, op, Err(error)) matches Err(failure) && failure.error == error@
            && failure.observed.status == 0 && failure.observed.stdout is None
            && failure.observed.stderr is None && failure.observed.summary.len() == 0,
        ran.exit_code == 0 ==> (sh_ran(argv, op, Ok(ran)) matches Ok(result) && result.status == 0
            && result.stdout == Some(ran.stdout_tail@) && result.stderr == Some(ran.stderr_tail@)
            && result.summary == "sh exit="@ + text::signed_decimal(0) + " stdout="@
            + text::debug_text(ran.stdout_tail@) && result.bytes is None && result.dst is None
            && result.note is None),
        ran.exit_code != 0 ==> (sh_ran(argv, op, Ok(ran)) matches Err(failure) && {
            &&& failure.observed.status == ran.exit_code
            &&& failure.observed.stdout == Some(ran.stdout_tail@)
            &&& failure.observed.stderr == Some(ran.stderr_tail@)
            &&& failure.error == (ErrorView::EffectFailed {
                op,
                message: "sh "@ + text::debug_list_text(argv) + " failed: exit "@
                    + text::signed_decimal(ran.exit_code as int) + " stderr="@ + text::debug_text(
                    ran.stderr_tail@,
                ),
            })
        }),
{
}

/// A transfer step succeeds exactly when the transfer did, and says what
/// was moved and where to.
pub proof fn law_a_transfer_says_what_it_moved(src: Text, moved: TransferOutcome, error: ExecError)
    ensures
        transferred(src, Ok(moved)) matches Ok(result) && result.bytes == Some(moved.bytes)
            && result.dst == Some(moved.dst@) && result.status == 0 && result.summary
            == "transfer src="@ + src + " dst="@ + moved.dst@ + " bytes="@ + text::decimal(
            moved.bytes as nat,
        ) && result.note is None && result.stdout is None && result.stderr is None,
        transferred(src, Err(error)) matches Err(failure) && failure.error == error@
            && failure.observed.bytes is None,
{
}

/// A step reads as what it does and with what; of its environment the
/// names are shown where there are any.
pub proof fn law_a_step_reads_as_what_it_does(step: StepView, names: Seq<Text>)
    ensures
        step matches StepView::Sh(argv) ==> {
            &&& names.len() == 0 ==> rendered(step, names) == "sh argv="@ + text::debug_list_text(
                argv,
            )
            &&& names.len() > 0 ==> rendered(step, names) == "sh argv="@ + text::debug_list_text(
                argv,
            ) + " env_keys="@ + text::debug_list_text(names)
        },
        step matches StepView::Transfer { src, dst } ==> rendered(step, names) == "transfer src="@
            + src + " dst="@ + dst,
        step matches StepView::HttpPoll { url, timeout_sec, pid_file, .. } ==> rendered(step, names)
            == "http_poll url="@ + url + " timeout="@ + text::decimal(timeout_sec as nat) + "s"@ + (
        match pid_file {
            Some(path) => " pid_file="@ + path,
            None => Seq::empty(),
        }),
        step matches StepView::Note(message) ==> rendered(step, names) == "note \""@ + message
            + "\""@,
{
    if let StepView::HttpPoll { url, timeout_sec, pid_file, .. } = step {
        let asked = "http_poll url="@ + url + " timeout="@ + text::decimal(timeout_sec as nat)
            + "s"@;
        match pid_file {
            Some(path) => {
                assert(asked + (" pid_file="@ + path) =~= asked + " pid_file="@ + path);
            },
            None => {
                assert(asked + Seq::<char>::empty() =~= asked);
            },
        }
    }
}

/// A skipped step says that it was, with the answers that made it so, and
/// observed nothing; a step that ran keeps what it observed and adds how
/// its condition had answered.
pub proof fn law_a_step_says_why_it_ran_or_not(
    step: StepView,
    names: Seq<Text>,
    done: AssertView,
    node: NodeView,
    result: ResultView,
)
    ensures
        ({
            let said = skipped(step, names, done, node);
            let answers = condition::described(done, Some(node));
            &&& said.note == Some("skipped, already done: "@ + answers)
            &&& said.summary == rendered(step, names) + " skipped: "@ + answers
            &&& said.status == 0 && said.bytes is None && said.dst is None
            &&& said.stdout is None && said.stderr is None
        }),
        ({
            let said = noted(Some(done), Some(node), result);
            &&& said.note == Some("not done: "@ + condition::described(done, Some(node)))
            &&& said.summary == result.summary && said.status == result.status
            &&& said.bytes == result.bytes && said.dst == result.dst
            &&& said.stdout == result.stdout && said.stderr == result.stderr
        }),
        noted(None, Some(node), result) == result,
        noted(Some(done), None, result) == result,
{
}

/// A dry run says that a step would be skipped exactly where its
/// condition was found to hold; otherwise it says what the step would do,
/// and why that is.
pub proof fn law_a_dry_run_says_what_would_happen(
    step: StepView,
    names: Seq<Text>,
    done: AssertView,
    node: NodeView,
)
    ensures
        ({
            let (summary, note) = dry_view(step, names, done, node);
            let answers = condition::described(done, Some(node));
            let doing = if step is Transfer {
                "transfer"@
            } else if step is HttpPoll {
                "poll"@
            } else {
                "run"@
            };
            &&& note is Some
            &&& summary == rendered(step, names) + " "@ + note->0
            &&& node.outcome() is Satisfied ==> note->0 == "would skip, already done"@ + ": "@
                + answers
            &&& node.outcome() is Unsatisfied ==> note->0 == "would "@ + doing + ", not done"@
                + ": "@ + answers
            &&& node.outcome() is NotChecked ==> note->0
                == "undecided (not evaluated in a dry run), would "@ + doing + ": "@ + answers
            &&& node.outcome() is CheckFailed ==> note->0
                == "undecided (the condition could not be read), would "@ + doing + ": "@ + answers
        }),
{
    let (summary, note) = dry_view(step, names, done, node);
    assert(summary =~= rendered(step, names) + " "@ + note->0);
}

/// A step whose condition was found to hold does not run, and every other
/// step does: one whose condition does not hold, was left open, could not
/// be read, or that has none.
pub proof fn law_a_step_runs_unless_it_is_finished<O: Observe>(
    obs: O,
    planned: PlannedView,
    names: Seq<Text>,
    start: StepStart,
    first: u64,
    next: u64,
)
    requires
        started(obs, planned, names, start, first, next),
    ensures
        planned.done is None ==> start is Run,
        planned.done is Some && (forall|node: NodeView| #[trigger]
            condition::evaluated(obs, planned.done->0, ExecMode::Real, node)
                ==> node.outcome() is Satisfied) ==> start is Skip,
        planned.done is Some && (forall|node: NodeView| #[trigger]
            condition::evaluated(obs, planned.done->0, ExecMode::Real, node)
                ==> !(node.outcome() is Satisfied)) ==> start is Run,
{
    if let Some(done) = planned.done {
        let node = choose|node: NodeView|
            #[trigger] asked(obs, done, ExecMode::Real, node, first, next) && match start {
                StepStart::Skip(result) => {
                    &&& node.outcome() is Satisfied
                    &&& result@ == skipped(planned.step, names, done, node)
                },
                StepStart::Run(evaluated) => {
                    &&& !(node.outcome() is Satisfied)
                    &&& evaluated is Some
                    &&& evaluated->0@ == node
                },
            };
        assert(condition::evaluated(obs, done, ExecMode::Real, node));
    }
}

/// What a pid file and a look at the process conclude: a process that is
/// gone has died only where the file named it, and without a number there
/// is nothing to conclude.
pub open spec fn concluded(pid: Option<u32>, running: bool) -> Liveness {
    match (pid, running) {
        (Some(_), true) => Liveness::Alive,
        (Some(pid), false) => Liveness::Dead(pid),
        (None, _) => Liveness::Unknown,
    }
}

/// A launch is concluded to have died exactly where its file names a
/// process that does not run, and to be alive exactly where it names one
/// that does.
pub proof fn law_only_a_named_process_dies(pid: Option<u32>, running: bool)
    ensures
        concluded(pid, running) is Dead <==> pid is Some && !running,
        concluded(pid, running) matches Liveness::Dead(gone) ==> pid == Some(gone),
        concluded(pid, running) is Alive <==> pid is Some && running,
        concluded(pid, running) is Unknown <==> pid is None,
{
}

} // verus!
