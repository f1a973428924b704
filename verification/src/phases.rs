//! Phases that are lists of steps: what comes before the first of them,
//! and what is said of each.
//!
//! The same is said of a step whether the phase runs as one op or each
//! step is a call of its own.

use crate::admission;
use crate::admission::{
    check_env_ref, check_lifecycle_steps, mark_report_failed, record_phase_failure, report_base,
    resolve_call, Admitted, CallError, LIFECYCLE_STEP_CALL_LABEL,
};
use crate::audit;
use crate::audit::{AuditEvent, EventView};
use crate::context::{ContextView, ExecContext};
use crate::demand;
use crate::exec;
use crate::exec::{ErrorView, ExecError, ExecMode};
use crate::lifecycle;
use crate::lifecycle::{expand, PlannedStep, PlannedView, Step, StepView};
use crate::names::EnvMap;
use crate::payload::payload_at;
use crate::profile::{NodeId, ProfileNode, Slots};
use crate::report;
use crate::report::{DeclaredAt, ReportView, StepReport};
use crate::running::{DryStep, ResultView, StepFailure, StepResult, StepRun};
use crate::steps;
use crate::text;
use crate::text::{copy_list, join, number, same, Text};
use vstd::prelude::*;

verus! {

/// The effect that a step makes, as its entry calls it.
pub open spec fn effect_name(step: StepView) -> Text {
    match step {
        StepView::Sh(_) => "sh.exec"@,
        StepView::Transfer { .. } => "net.transfer"@,
        StepView::HttpPoll { .. } => "net.http_get"@,
        StepView::Note(_) => "note"@,
    }
}

/// The effect that a step makes, as its entry calls it.
pub fn step_effect_op(step: &Step) -> (r: &'static str)
    ensures
        r@ == effect_name(step@),
{
    match step {
        Step::Sh(_) => "sh.exec",
        Step::Transfer { .. } => "net.transfer",
        Step::HttpPoll { .. } => "net.http_get",
        Step::Note(_) => "note",
    }
}

/// What the transcript says of a step before it runs.
pub open spec fn step_event(
    mode: ExecMode,
    kind: Text,
    step: StepView,
    names: Seq<Text>,
) -> EventView {
    let mode = audit::mode_name(mode);
    match step {
        StepView::Sh(argv) => EventView::ShExec {
            mode,
            kind,
            argv,
            env_keys: audit::shown_names(names),
        },
        StepView::Transfer { src, dst } => EventView::Transfer { mode, kind, src, dst },
        StepView::HttpPoll { url, timeout_sec, .. } => EventView::HttpPoll {
            mode,
            kind,
            url,
            timeout_sec,
        },
        StepView::Note(message) => EventView::Note { mode, kind, note: message },
    }
}

/// What the transcript says of a step before it runs.
pub fn audit_lifecycle_step(mode: ExecMode, kind: &str, step: &Step, env: &EnvMap) -> (r:
    AuditEvent)
    ensures
        r@ == step_event(mode, kind@, step@, env.names()),
{
    match step {
        Step::Sh(argv) => audit::sh_exec(mode, kind, argv, env),
        Step::Transfer { src, dst } => audit::transfer(mode, kind, src.as_str(), dst.as_str()),
        Step::HttpPoll { url, timeout_sec, .. } => audit::http_poll(
            mode,
            kind,
            url.as_str(),
            *timeout_sec,
        ),
        Step::Note(message) => audit::note(mode, kind, message.as_str()),
    }
}

// ---------------------------------------------------------------------
// The entry of a step
// ---------------------------------------------------------------------

/// An entry with what a step declares.
pub open spec fn with_inputs(entry: ReportView, step: StepView) -> ReportView {
    match step {
        StepView::Sh(argv) => ReportView { argv: Some(argv), ..entry },
        StepView::Transfer { src, dst } => ReportView { src: Some(src), dst: Some(dst), ..entry },
        StepView::HttpPoll { url, .. } => ReportView { url: Some(url), ..entry },
        StepView::Note(message) => ReportView { note: Some(message), ..entry },
    }
}

/// Put what a step declares into its entry.
pub fn apply_step_input_fields(entry: &mut StepReport, step: &Step)
    ensures
        final(entry)@ == with_inputs(old(entry)@, step@),
{
    match step {
        Step::Sh(argv) => {
            entry.argv = Some(copy_list(argv));
        },
        Step::Transfer { src, dst } => {
            entry.src = Some(src.clone());
            entry.dst = Some(dst.clone());
        },
        Step::HttpPoll { url, .. } => {
            entry.url = Some(url.clone());
        },
        Step::Note(message) => {
            entry.note = Some(message.clone());
        },
    }
}

/// What was observed, or what stood there before if nothing was.
pub open spec fn either<T>(observed: Option<T>, before: Option<T>) -> Option<T> {
    match observed {
        Some(_) => observed,
        None => before,
    }
}

/// An entry with what a step observed: the status always, the rest as
/// far as there is anything.
pub open spec fn with_observed(entry: ReportView, result: ResultView) -> ReportView {
    ReportView {
        status: result.status,
        stdout: either(result.stdout, entry.stdout),
        stderr: either(result.stderr, entry.stderr),
        bytes: either(result.bytes, entry.bytes),
        dst: either(result.dst, entry.dst),
        note: either(result.note, entry.note),
        ..entry
    }
}

/// Put what a step observed into its entry.
pub fn apply_step_result_fields(entry: &mut StepReport, result: &StepResult)
    ensures
        final(entry)@ == with_observed(old(entry)@, result@),
{
    entry.status = result.status;
    if let Some(stdout) = &result.stdout {
        entry.stdout = Some(stdout.clone());
    }
    if let Some(stderr) = &result.stderr {
        entry.stderr = Some(stderr.clone());
    }
    if result.bytes.is_some() {
        entry.bytes = result.bytes;
    }
    if let Some(dst) = &result.dst {
        entry.dst = Some(dst.clone());
    }
    if let Some(note) = &result.note {
        entry.note = Some(note.clone());
    }
}

/// The entry of a step before it runs.
pub open spec fn step_entry(id: Text, kind: Text, at: DeclaredAt, step: StepView) -> ReportView {
    with_inputs(
        ReportView {
            declared_at: Some(at),
            ..report::succeeded(id, kind, effect_name(step))
        },
        step,
    )
}

/// The entry of a step in a dry run. A step that makes no effect is the
/// same in either mode.
pub open spec fn dry_entry(entry: ReportView, step: StepView, note: Option<Text>) -> ReportView {
    ReportView {
        note: either(note, entry.note),
        dry_run: if step is Note {
            entry.dry_run
        } else {
            Some(true)
        },
        ..entry
    }
}

/// The entry of a step that ran or failed, and what the run goes on
/// with. What a failing step observed goes in before the failure, so a
/// code that it ended in is kept.
pub open spec fn step_recorded(
    mode: ExecMode,
    entry: ReportView,
    step: StepView,
    run: Result<StepRun, StepFailure>,
) -> (ReportView, Result<Text, ErrorView>) {
    match run {
        Ok(StepRun::Dry(said)) => (
            dry_entry(entry, step, text::opt_text(said.note)),
            Ok(said.summary@),
        ),
        Ok(StepRun::Real(result)) => (with_observed(entry, result@), Ok(result.summary@)),
        Err(failure) => (
            admission::marked(mode, with_observed(entry, failure.observed@), failure.error@),
            Err(failure.error@),
        ),
    }
}

/// Report a step, and give what the trace says of it.
pub fn record_lifecycle_step(
    ctx: &mut ExecContext,
    id: String,
    kind: String,
    at: DeclaredAt,
    step: &Step,
    run: Result<StepRun, StepFailure>,
) -> (r: Result<String, ExecError>)
    ensures
        ({
            let (entry, said) = step_recorded(
                old(ctx)@.mode,
                step_entry(id@, kind@, at, step@),
                step@,
                run,
            );
            &&& final(ctx)@ == old(ctx)@.with_report(entry)
            &&& exec::text_result(r) == said
        }),
{
    let mut entry = StepReport::new(id, kind, step_effect_op(step));
    entry.declared_at = Some(at);
    apply_step_input_fields(&mut entry, step);
    match run {
        Ok(StepRun::Dry(said)) => {
            if let Some(note) = said.note {
                entry.note = Some(note);
            }
            if !matches!(step, Step::Note(_)) {
                entry.dry_run = Some(true);
            }
            ctx.push_report(entry);
            Ok(said.summary)
        },
        Ok(StepRun::Real(result)) => {
            apply_step_result_fields(&mut entry, &result);
            ctx.push_report(entry);
            Ok(result.summary)
        },
        Err(failure) => {
            apply_step_result_fields(&mut entry, &failure.observed);
            mark_report_failed(ctx.mode, &mut entry, &failure.error);
            ctx.push_report(entry);
            Err(failure.error)
        },
    }
}

/// The identity of a step's entry: that of its phase and its number.
pub open spec fn step_id(base: Text, index: nat) -> Text {
    base + "_"@ + text::decimal(index)
}

fn new_step_id(base: &str, index: usize) -> (r: String)
    ensures
        r@ == step_id(base@, index as nat),
{
    let mut id = base.to_owned();
    id.append("_");
    id.append(number(index as u64).as_str());
    id
}

// ---------------------------------------------------------------------
// A phase as one op
// ---------------------------------------------------------------------

/// The steps of a phase, all of them checked, and what they run with.
pub struct PhaseRun {
    pub node: NodeId,
    pub name: &'static str,
    pub id: String,
    pub kind: String,
    pub env: EnvMap,
    pub steps: Vec<PlannedStep>,
}

/// The value nodes of a phase's variables, for the two kinds of phase
/// that declare any.
pub open spec fn variables_of(payload: ProfileNode) -> Option<Slots> {
    match payload {
        ProfileNode::SyncPull { env, .. } => Some(env),
        ProfileNode::StagingPush { env, .. } => Some(env),
        _ => None,
    }
}

/// The value nodes that the host resolves before a phase begins.
pub fn phase_variables(payload: &ProfileNode) -> (r: Option<&Slots>)
    ensures
        match r {
            Some(slots) => variables_of(*payload) == Some(*slots),
            None => variables_of(*payload) is None,
        },
{
    match payload {
        ProfileNode::SyncPull { env, .. } => Some(env),
        ProfileNode::StagingPush { env, .. } => Some(env),
        _ => None,
    }
}

/// Why a phase does not begin. In this order: its variables could not be
/// resolved, it has no steps to give, a step is refused.
pub open spec fn phase_refusal(
    ctx: ContextView,
    payload: ProfileNode,
    env: Result<EnvMap, ExecError>,
) -> Option<ErrorView> {
    match env {
        Err(error) => Some(error@),
        Ok(_) => match lifecycle::expansion(payload) {
            Err(error) => Some(error),
            Ok(steps) => admission::steps_refusal(ctx, steps),
        },
    }
}

/// Begin a phase: every step is checked before any runs.
pub fn run_lifecycle<'a>(
    ctx: &mut ExecContext<'a>,
    admitted: &Admitted<'a>,
    env: Result<EnvMap, ExecError>,
) -> (r: Result<PhaseRun, ExecError>)
    ensures
        match phase_refusal(old(ctx)@, admitted.phase(), env) {
            Some(error) => {
                &&& r is Err
                &&& r->Err_0@ == error
                &&& final(ctx)@ == old(ctx)@.with_report(
                    admission::phase_failure(old(ctx)@, admitted.at(), error),
                )
            },
            None => {
                &&& final(ctx)@ == old(ctx)@
                &&& r is Ok
                &&& env == Ok::<EnvMap, ExecError>(r->Ok_0.env)
                &&& lifecycle::expansion(admitted.phase()) == Ok::<Seq<PlannedView>, ErrorView>(
                    lifecycle::planned_views(r->Ok_0.steps@),
                )
                &&& r->Ok_0.node == admitted.at()
                &&& r->Ok_0.name@ == admitted.op()
                &&& (r->Ok_0.id@, r->Ok_0.kind@) == admission::base_of(old(ctx)@, admitted.at())
            },
        },
{
    let node = admitted.node();
    let (id, kind) = report_base(ctx, node);
    let env = match env {
        Ok(env) => env,
        Err(error) => {
            record_phase_failure(ctx, node, &error);
            return Err(error);
        },
    };
    let steps = match expand(admitted.payload()) {
        Ok(steps) => steps,
        Err(error) => {
            record_phase_failure(ctx, node, &error);
            return Err(error);
        },
    };
    check_lifecycle_steps(ctx, node, &steps)?;
    Ok(PhaseRun { node, name: admitted.name(), id, kind, env, steps })
}

/// Tell of a step of a phase before it runs.
pub fn begin_phase_step(ctx: &mut ExecContext, run: &PhaseRun, index: usize)
    requires
        index < run.steps@.len(),
    ensures
        final(ctx)@ == old(ctx)@.with_audit(
            step_event(
                old(ctx)@.mode,
                run.kind@,
                run.steps@[index as int]@.step,
                run.env.names(),
            ),
        ),
{
    ctx.push_audit(
        audit_lifecycle_step(ctx.mode, run.kind.as_str(), &run.steps[index].step, &run.env),
    );
}

/// Report a step of a phase that ran.
pub fn finish_phase_step(
    ctx: &mut ExecContext,
    run: &PhaseRun,
    index: usize,
    outcome: Result<StepRun, StepFailure>,
) -> (r: Result<String, ExecError>)
    requires
        index < run.steps@.len(),
    ensures
        ({
            let step = run.steps@[index as int]@.step;
            let (entry, said) = step_recorded(
                old(ctx)@.mode,
                step_entry(
                    step_id(run.id@, (index + 1) as nat),
                    run.kind@,
                    (old(ctx)@.meta_of(run.node).0, (index + 1) as usize),
                    step,
                ),
                step,
                outcome,
            );
            &&& final(ctx)@ == old(ctx)@.with_report(entry)
            &&& exec::text_result(r) == said
        }),
{
    let count = run.steps.len();
    assert(index < count);
    let id = new_step_id(run.id.as_str(), index + 1);
    let at = (ctx.phase_meta_of(run.node).0, index + 1);
    record_lifecycle_step(ctx, id, run.kind.clone(), at, &run.steps[index].step, outcome)
}

/// Which step of a phase runs next, after `done` of them: the next one in
/// order, unless the last one failed.
pub open spec fn next_step(steps: nat, done: nat, failed: bool) -> Option<nat> {
    if failed || done >= steps {
        None
    } else {
        Some(done)
    }
}

/// Which step of a phase runs next.
pub fn next_phase_step(run: &PhaseRun, done: usize, failed: bool) -> (r: Option<usize>)
    ensures
        match r {
            Some(index) => next_step(run.steps@.len(), done as nat, failed) == Some(index as nat)
                && index < run.steps@.len(),
            None => next_step(run.steps@.len(), done as nat, failed) is None,
        },
{
    if failed || done >= run.steps.len() {
        None
    } else {
        Some(done)
    }
}

/// What is said of all steps of a phase.
pub open spec fn phase_line(name: Text, said: Seq<Text>) -> Text {
    name + " "@ + text::joined(said, "; "@)
}

/// Say what all steps of a phase came to.
pub fn finish_lifecycle(ctx: &mut ExecContext, run: &PhaseRun, said: &Vec<String>) -> (r: String)
    ensures
        r@ == run.name@ + " "@ + text::joined(text::texts(said@), "; "@),
        r@ == phase_line(run.name@, text::texts(said@)),
        final(ctx)@ == old(ctx)@.with_line(r@),
{
    let mut line = run.name.to_owned();
    line.append(" ");
    line.append(join(said, "; ").as_str());
    ctx.record_line(line)
}

// ---------------------------------------------------------------------
// A step as a call
// ---------------------------------------------------------------------

/// A suspended step whose phase was found, and what its phase is.
pub struct StepCall<'a> {
    node: NodeId,
    payload: &'a ProfileNode,
}

impl<'a> StepCall<'a> {
    /// The identity of the step.
    pub closed spec fn at(&self) -> NodeId {
        self.node
    }

    /// The phase that composed it.
    pub closed spec fn phase(&self) -> ProfileNode {
        *self.payload
    }

    /// The phase that composed it.
    pub fn payload(&self) -> (r: &'a ProfileNode)
        ensures
            *r == self.phase(),
    {
        self.payload
    }
}

/// What is answered for an identity that stands for no step.
pub open spec fn unplanned(node: NodeId) -> Text {
    "n"@ + text::decimal(node.0 as nat) + " is labelled '"@ + LIFECYCLE_STEP_CALL_LABEL@
        + "' but the step plan does not project it; the AST and the plan disagree"@
}

fn not_planned(node: NodeId) -> (r: CallError)
    ensures
        r.0@ == unplanned(node),
{
    let mut message = "n".to_owned();
    message.append(number(node.0).as_str());
    message.append(" is labelled '");
    message.append(LIFECYCLE_STEP_CALL_LABEL);
    message.append("' but the step plan does not project it; the AST and the plan disagree");
    CallError(message)
}

/// What the finding of a suspended step comes to: what it leaves behind,
/// and its answer if there is no step to run.
pub open spec fn step_found<'a>(ctx: ContextView<'a>, node: NodeId) -> (ContextView<'a>, Option<Text>) {
    match steps::found(ctx.plan, node) {
        None => (ctx, Some(unplanned(node))),
        Some((_, at, _)) => {
            let phase = at.phase;
            if !ctx.payloads.contains_key(phase.0) {
                let error = ErrorView::PayloadMissing(phase.0);
                (
                    ctx.with_report(admission::phase_failure(ctx, phase, error)),
                    Some(error.sentence()),
                )
            } else {
                match admission::env_ref_refusal(ctx, *ctx.payloads[phase.0]) {
                    Some(error) => (
                        ctx.with_report(admission::phase_failure(ctx, phase, error)),
                        Some(error.sentence()),
                    ),
                    None => (ctx, None),
                }
            }
        },
    }
}

/// Find the phase of a suspended step, and check what is checked before
/// the phase's variables are resolved.
pub fn find_lifecycle_step<'a>(ctx: &mut ExecContext<'a>, node: NodeId) -> (r: Result<
    StepCall<'a>,
    CallError,
>)
    ensures
        final(ctx)@ == step_found(old(ctx)@, node).0,
        match r {
            Ok(call) => {
                &&& step_found(old(ctx)@, node).1 is None
                &&& call.at() == node
                &&& call.phase() == *old(ctx)@.payloads[(steps::found(old(ctx)@.plan, node)->0).1.phase.0]
            },
            Err(error) => step_found(old(ctx)@, node).1 == Some(error.0@),
        },
{
    let at = match ctx.step_plan.locate(node) {
        Some((_, at, _)) => at,
        None => {
            return Err(not_planned(node));
        },
    };
    let phase = at.phase;
    let payload = match payload_at(&ctx.payloads, phase) {
        Some(payload) => payload,
        None => {
            let error = ExecError::PayloadMissing(phase.0);
            record_phase_failure(ctx, phase, &error);
            return Err(CallError::from(&error));
        },
    };
    if let Err(error) = check_env_ref(ctx, phase, payload) {
        return Err(CallError::from(&error));
    }
    Ok(StepCall { node, payload })
}

/// What a call is for: a phase that was admitted, or a step that was
/// found.
pub enum Taken<'a> {
    Phase(Admitted<'a>),
    Step(StepCall<'a>),
}

/// What taking a call leaves behind, and its answer if there is nothing
/// to run. A step is found in the plan, before any payload is looked for.
pub open spec fn call_taken<'a>(ctx: ContextView<'a>, label: Text, node: NodeId) -> (
    ContextView<'a>,
    Option<Text>,
) {
    if label == LIFECYCLE_STEP_CALL_LABEL@ {
        step_found(ctx, node)
    } else {
        let refusal = admission::call_refusal(ctx, label, node);
        (
            admission::refused_with(ctx, refusal),
            match admission::error_of(refusal) {
                Some(error) => Some(error.sentence()),
                None => if admission::op_of_label(label) is None {
                    Some(admission::unknown_call(label))
                } else {
                    None
                },
            },
        )
    }
}

/// Take a suspended call to what it is for, by its label.
pub fn take_call<'a>(ctx: &mut ExecContext<'a>, label: &str, node: NodeId) -> (r: Result<
    Taken<'a>,
    CallError,
>)
    ensures
        final(ctx)@ == call_taken(old(ctx)@, label@, node).0,
        match r {
            Ok(Taken::Step(call)) => {
                &&& label@ == LIFECYCLE_STEP_CALL_LABEL@
                &&& call_taken(old(ctx)@, label@, node).1 is None
                &&& call.at() == node
                &&& call.phase() == *old(ctx)@.payloads[(steps::found(
                    old(ctx)@.plan,
                    node,
                )->0).1.phase.0]
            },
            Ok(Taken::Phase(admitted)) => {
                &&& label@ != LIFECYCLE_STEP_CALL_LABEL@
                &&& call_taken(old(ctx)@, label@, node).1 is None
                &&& admitted.op() == (admission::op_of_label(label@)->0).0
                &&& admitted.at() == node
                &&& old(ctx)@.payloads.contains_key(node.0)
                &&& admitted.phase() == *old(ctx)@.payloads[node.0]
            },
            Err(error) => call_taken(old(ctx)@, label@, node).1 == Some(error.0@),
        },
{
    if same(label, LIFECYCLE_STEP_CALL_LABEL) {
        match find_lifecycle_step(ctx, node) {
            Ok(call) => Ok(Taken::Step(call)),
            Err(error) => Err(error),
        }
    } else {
        match resolve_call(ctx, label, node) {
            Ok(admitted) => Ok(Taken::Phase(admitted)),
            Err(error) => Err(error),
        }
    }
}

/// A step to run, of a phase whose every step was checked.
pub struct StepTask<'a> {
    pub op: &'static str,
    pub id: String,
    pub kind: String,
    pub at: DeclaredAt,
    pub env: EnvMap,
    pub step: &'a PlannedStep,
}

/// Why a step does not begin: its phase's variables could not be
/// resolved, or a step of its phase is refused.
pub open spec fn call_step_refusal(
    ctx: ContextView,
    node: NodeId,
    env: Result<EnvMap, ExecError>,
) -> Option<ErrorView> {
    match env {
        Err(error) => Some(error@),
        Ok(_) => admission::steps_refusal(ctx, (steps::found(ctx.plan, node)->0).0.steps),
    }
}

/// What a step that begins runs with.
pub open spec fn task_of(ctx: ContextView, node: NodeId, env: EnvMap, task: StepTask) -> bool {
    let (phase, at, step) = steps::found(ctx.plan, node)->0;
    let (base, kind) = admission::base_of(ctx, at.phase);
    &&& task.op@ == phase.op
    &&& task.id@ == step_id(base, at.index as nat)
    &&& task.kind@ == kind
    &&& task.at == (ctx.meta_of(at.phase).0, at.index)
    &&& task.env == env
    &&& task.step@ == step
}

/// Begin a suspended step. Its whole phase is checked, at each step, so
/// that a phase whose second step would be refused does not run its
/// first.
pub fn begin_lifecycle_step<'a>(
    ctx: &mut ExecContext<'a>,
    call: &StepCall<'a>,
    env: Result<EnvMap, ExecError>,
) -> (r: Result<StepTask<'a>, CallError>)
    ensures
        match steps::found(old(ctx)@.plan, call.at()) {
            None => {
                &&& r is Err
                &&& r->Err_0.0@ == unplanned(call.at())
                &&& final(ctx)@ == old(ctx)@
            },
            Some((_, at, _)) => match call_step_refusal(old(ctx)@, call.at(), env) {
                Some(error) => {
                    &&& r is Err
                    &&& r->Err_0.0@ == error.sentence()
                    &&& final(ctx)@ == old(ctx)@.with_report(
                        admission::phase_failure(old(ctx)@, at.phase, error),
                    )
                },
                None => {
                    &&& r is Ok
                    &&& task_of(old(ctx)@, call.at(), env->Ok_0, r->Ok_0)
                    &&& final(ctx)@ == old(ctx)@.with_audit(
                        step_event(
                            old(ctx)@.mode,
                            r->Ok_0.kind@,
                            r->Ok_0.step@.step,
                            r->Ok_0.env.names(),
                        ),
                    )
                },
            },
        },
{
    let plan = ctx.step_plan;
    let (phase_steps, at, step) = match plan.locate(call.node) {
        Some(found) => found,
        None => {
            return Err(not_planned(call.node));
        },
    };
    let env = match env {
        Ok(env) => env,
        Err(error) => {
            record_phase_failure(ctx, at.phase, &error);
            return Err(CallError::from(&error));
        },
    };
    if let Err(error) = check_lifecycle_steps(ctx, at.phase, &phase_steps.steps) {
        return Err(CallError::from(&error));
    }
    let (base, kind) = report_base(ctx, at.phase);
    let id = new_step_id(base.as_str(), at.index);
    let position = (ctx.phase_meta_of(at.phase).0, at.index);
    ctx.push_audit(audit_lifecycle_step(ctx.mode, kind.as_str(), &step.step, &env));
    Ok(StepTask { op: phase_steps.op, id, kind, at: position, env, step })
}

/// Report a suspended step that ran, and give the value of its call.
pub fn finish_lifecycle_step<'a>(
    ctx: &mut ExecContext<'a>,
    task: StepTask<'a>,
    outcome: Result<StepRun, StepFailure>,
) -> (r: Result<String, CallError>)
    ensures
        ({
            let (entry, said) = step_recorded(
                old(ctx)@.mode,
                step_entry(task.id@, task.kind@, task.at, task.step@.step),
                task.step@.step,
                outcome,
            );
            let told = old(ctx)@.with_report(entry);
            match said {
                Ok(summary) => {
                    &&& r is Ok
                    &&& r->Ok_0@ == task.op@ + " "@ + summary
                    &&& r->Ok_0@ == phase_line(task.op@, seq![summary])
                    &&& final(ctx)@ == told.with_line(task.op@ + " "@ + summary)
                },
                Err(error) => {
                    &&& r is Err
                    &&& r->Err_0.0@ == error.sentence()
                    &&& final(ctx)@ == told
                },
            }
        }),
{
    match record_lifecycle_step(ctx, task.id, task.kind, task.at, &task.step.step, outcome) {
        Ok(summary) => {
            let mut line = task.op.to_owned();
            line.append(" ");
            line.append(summary.as_str());
            Ok(ctx.record_line(line))
        },
        Err(error) => Err(CallError::from(&error)),
    }
}

// ---------------------------------------------------------------------
// What holds of every step
// ---------------------------------------------------------------------

/// A step that fails is reported by an entry that fails for its reason,
/// and that keeps the code the step ended in.
pub proof fn law_a_failed_step_keeps_its_code(
    mode: ExecMode,
    id: Text,
    kind: Text,
    at: DeclaredAt,
    step: StepView,
    failure: StepFailure,
)
    ensures
        ({
            let (entry, said) = step_recorded(
                mode,
                step_entry(id, kind, at, step),
                step,
                Err(failure),
            );
            &&& said == Err::<Text, ErrorView>(failure@.error)
            &&& admission::tells_failure(entry, failure@.error)
            &&& failure@.observed.status != 0 ==> entry.status == failure@.observed.status
        }),
{
}

/// What a run has said once the steps of a phase ran, from step `done`
/// on: each is told of and reported, and the next one is the one that
/// [`next_step`] names. `outcomes` is what each step comes to if it runs.
pub open spec fn phase_told<'a>(
    ctx: ContextView<'a>,
    run: PhaseRun,
    outcomes: Seq<Result<StepRun, StepFailure>>,
    done: nat,
    failed: bool,
) -> ContextView<'a>
    decreases run.steps@.len() - done,
{
    match next_step(run.steps@.len(), done, failed) {
        None => ctx,
        Some(at) => {
            let step = run.steps@[at as int]@.step;
            let (entry, said) = step_recorded(
                ctx.mode,
                step_entry(
                    step_id(run.id@, at + 1),
                    run.kind@,
                    (ctx.meta_of(run.node).0, (at + 1) as usize),
                    step,
                ),
                step,
                outcomes[at as int],
            );
            phase_told(
                ctx.with_audit(
                    step_event(ctx.mode, run.kind@, step, run.env.names()),
                ).with_report(entry),
                run,
                outcomes,
                done + 1,
                said is Err,
            )
        },
    }
}

/// The first step that fails is the last that runs: it is the last one
/// told of, its entry is the last of the phase and fails for its reason,
/// and no line is said of the phase.
pub proof fn law_a_failed_step_is_the_last<'a>(
    ctx: ContextView<'a>,
    run: PhaseRun,
    outcomes: Seq<Result<StepRun, StepFailure>>,
    at: int,
)
    requires
        0 <= at < run.steps@.len(),
        outcomes.len() == run.steps@.len(),
        outcomes[at] is Err,
        forall|i: int| 0 <= i < at ==> (#[trigger] outcomes[i]) is Ok,
    ensures
        ({
            let after = phase_told(ctx, run, outcomes, 0, false);
            &&& after.reports.len() == ctx.reports.len() + at + 1
            &&& after.audits.len() == ctx.audits.len() + at + 1
            &&& admission::tells_failure(after.reports.last(), outcomes[at]->Err_0@.error)
            &&& after.log == ctx.log
        }),
{
    lemma_told_up_to_the_failure(ctx, run, outcomes, 0, at);
}

/// [`law_a_failed_step_is_the_last`] from a later step on.
proof fn lemma_told_up_to_the_failure<'a>(
    ctx: ContextView<'a>,
    run: PhaseRun,
    outcomes: Seq<Result<StepRun, StepFailure>>,
    done: nat,
    at: int,
)
    requires
        done <= at < run.steps@.len(),
        outcomes.len() == run.steps@.len(),
        outcomes[at] is Err,
        forall|i: int| 0 <= i < at ==> (#[trigger] outcomes[i]) is Ok,
    ensures
        ({
            let after = phase_told(ctx, run, outcomes, done, false);
            &&& after.reports.len() == ctx.reports.len() + (at - done) + 1
            &&& after.audits.len() == ctx.audits.len() + (at - done) + 1
            &&& admission::tells_failure(after.reports.last(), outcomes[at]->Err_0@.error)
            &&& after.log == ctx.log
        }),
    decreases at - done,
{
    let step = run.steps@[done as int]@.step;
    let (entry, said) = step_recorded(
        ctx.mode,
        step_entry(
            step_id(run.id@, done + 1),
            run.kind@,
            (ctx.meta_of(run.node).0, (done + 1) as usize),
            step,
        ),
        step,
        outcomes[done as int],
    );
    let told = ctx.with_audit(
        step_event(ctx.mode, run.kind@, step, run.env.names()),
    ).with_report(entry);
    if done < at {
        assert(outcomes[done as int] is Ok);
        lemma_told_up_to_the_failure(told, run, outcomes, done + 1, at);
    } else {
        assert(phase_told(told, run, outcomes, done + 1, true) == told);
        assert(told.reports.last() == entry);
    }
}

/// While no step fails, every step of a phase runs, once and in order.
pub proof fn law_every_step_runs_while_none_fails<'a>(
    ctx: ContextView<'a>,
    run: PhaseRun,
    outcomes: Seq<Result<StepRun, StepFailure>>,
    done: nat,
)
    requires
        done <= run.steps@.len(),
        outcomes.len() == run.steps@.len(),
        forall|i: int| 0 <= i < outcomes.len() ==> (#[trigger] outcomes[i]) is Ok,
    ensures
        ({
            let after = phase_told(ctx, run, outcomes, done, false);
            &&& after.reports.len() == ctx.reports.len() + (run.steps@.len() - done)
            &&& after.audits.len() == ctx.audits.len() + (run.steps@.len() - done)
            &&& after.log == ctx.log
        }),
    decreases run.steps@.len() - done,
{
    if done < run.steps@.len() {
        let step = run.steps@[done as int]@.step;
        assert(outcomes[done as int] is Ok);
        let (entry, said) = step_recorded(
            ctx.mode,
            step_entry(
                step_id(run.id@, done + 1),
                run.kind@,
                (ctx.meta_of(run.node).0, (done + 1) as usize),
                step,
            ),
            step,
            outcomes[done as int],
        );
        law_every_step_runs_while_none_fails(
            ctx.with_audit(
                step_event(ctx.mode, run.kind@, step, run.env.names()),
            ).with_report(entry),
            run,
            outcomes,
            done + 1,
        );
    }
}

/// A phase is refused alike whether it runs as one op or step by step,
/// where the plan holds the steps that the phase expands to.
pub proof fn law_both_drivers_refuse_alike(
    ctx: ContextView,
    node: NodeId,
    env: Result<EnvMap, ExecError>,
)
    requires
        steps::found(ctx.plan, node) is Some,
        ctx.payloads.contains_key((steps::found(ctx.plan, node)->0).1.phase.0),
        lifecycle::expansion(
            *ctx.payloads[(steps::found(ctx.plan, node)->0).1.phase.0],
        ) == Ok::<Seq<PlannedView>, ErrorView>((steps::found(ctx.plan, node)->0).0.steps),
    ensures
        phase_refusal(
            ctx,
            *ctx.payloads[(steps::found(ctx.plan, node)->0).1.phase.0],
            env,
        ) == call_step_refusal(ctx, node, env),
{
}

/// A step is reported under the same identity, kind and position, and
/// with the same inputs, whether its phase runs as one op or step by
/// step.
pub proof fn law_both_drivers_report_alike(
    ctx: ContextView,
    node: NodeId,
    env: EnvMap,
    task: StepTask,
    run: PhaseRun,
    index: usize,
)
    requires
        steps::found(ctx.plan, node) is Some,
        task_of(ctx, node, env, task),
        (run.id@, run.kind@) == admission::base_of(ctx, run.node),
        (steps::found(ctx.plan, node)->0).1.phase == run.node,
        (steps::found(ctx.plan, node)->0).1.index == index + 1,
        index < run.steps@.len(),
        run.steps@[index as int]@ == (steps::found(ctx.plan, node)->0).2,
    ensures
        step_entry(task.id@, task.kind@, task.at, task.step@.step) == step_entry(
            step_id(run.id@, (index + 1) as nat),
            run.kind@,
            (ctx.meta_of(run.node).0, (index + 1) as usize),
            run.steps@[index as int]@.step,
        ),
{
}

/// Every entry of a step carries the position that it was declared at.
pub proof fn law_every_step_is_placed(
    mode: ExecMode,
    id: Text,
    kind: Text,
    at: DeclaredAt,
    step: StepView,
    run: Result<StepRun, StepFailure>,
)
    ensures
        step_recorded(mode, step_entry(id, kind, at, step), step, run).0.declared_at == Some(at),
{
}

/// A step is called by the capability that it demands; a note, which
/// demands none, by itself.
pub proof fn law_a_step_is_called_by_its_effect(step: StepView)
    ensures
        step is Sh ==> effect_name(step) == "sh.exec"@,
        step is Transfer ==> effect_name(step) == "net.transfer"@,
        step is HttpPoll ==> effect_name(step) == "net.http_get"@,
        step is Note ==> effect_name(step) == "note"@,
        demand::step_demand(step) matches Ok(demand) ==> (demand.capability matches Some(capability)
            ==> capability == effect_name(step)),
{
}

/// Each step is told of by the event of its own effect, with the mode and
/// the kind of its phase, and with what it declares; of its variables the
/// names.
pub proof fn law_a_step_is_told_of_by_its_effect(
    mode: ExecMode,
    kind: Text,
    step: StepView,
    names: Seq<Text>,
)
    ensures
        ({
            let called = if mode == ExecMode::DryRun {
                "dry-run"@
            } else {
                "real"@
            };
            &&& step matches StepView::Sh(argv) ==> step_event(mode, kind, step, names) == (
            EventView::ShExec {
                mode: called,
                kind,
                argv,
                env_keys: audit::shown_names(names),
            })
            &&& step matches StepView::Transfer { src, dst } ==> step_event(
                mode,
                kind,
                step,
                names,
            ) == (EventView::Transfer { mode: called, kind, src, dst })
            &&& step matches StepView::HttpPoll { url, timeout_sec, .. } ==> step_event(
                mode,
                kind,
                step,
                names,
            ) == (EventView::HttpPoll { mode: called, kind, url, timeout_sec })
            &&& step matches StepView::Note(message) ==> step_event(mode, kind, step, names) == (
            EventView::Note { mode: called, kind, note: message })
        }),
{
}

/// The entry of a step has its names, its place and what it declares, and
/// begins as that of a step that went well.
pub proof fn law_an_entry_has_what_its_step_declares(
    id: Text,
    kind: Text,
    at: DeclaredAt,
    step: StepView,
)
    ensures
        ({
            let entry = step_entry(id, kind, at, step);
            &&& entry.id == id && entry.kind == kind && entry.declared_at == Some(at)
            &&& entry.ok && entry.status == 0 && entry.dry_run is None && entry.reason is None
            &&& step matches StepView::Sh(argv) ==> entry.argv == Some(argv) && entry.op
                == "sh.exec"@
            &&& step matches StepView::Transfer { src, dst } ==> entry.src == Some(src)
                && entry.dst == Some(dst) && entry.op == "net.transfer"@
            &&& step matches StepView::HttpPoll { url, .. } ==> entry.url == Some(url) && entry.op
                == "net.http_get"@
            &&& step matches StepView::Note(message) ==> entry.note == Some(message) && entry.op
                == "note"@
        }),
{
}

/// The entry of a step that ran has what the step observed, and what it
/// declares where it observed nothing; the trace goes on with what the
/// step said.
pub proof fn law_an_entry_has_what_its_step_observed(
    mode: ExecMode,
    entry: ReportView,
    step: StepView,
    result: StepResult,
)
    ensures
        ({
            let (after, said) = step_recorded(mode, entry, step, Ok(StepRun::Real(result)));
            &&& said == Ok::<Text, ErrorView>(result@.summary)
            &&& after.status == result@.status && after.ok == entry.ok && after.reason
                == entry.reason && after.dry_run == entry.dry_run
            &&& result@.stdout is Some ==> after.stdout == result@.stdout
            &&& result@.stdout is None ==> after.stdout == entry.stdout
            &&& result@.stderr is Some ==> after.stderr == result@.stderr
            &&& result@.stderr is None ==> after.stderr == entry.stderr
            &&& result@.bytes is Some ==> after.bytes == result@.bytes
            &&& result@.bytes is None ==> after.bytes == entry.bytes
            &&& result@.dst is Some ==> after.dst == result@.dst
            &&& result@.dst is None ==> after.dst == entry.dst
            &&& result@.note is Some ==> after.note == result@.note
            &&& result@.note is None ==> after.note == entry.note
            &&& after.id == entry.id && after.kind == entry.kind && after.op == entry.op
            &&& after.argv == entry.argv && after.url == entry.url && after.src == entry.src
            &&& after.path == entry.path && after.declared_at == entry.declared_at
        }),
{
}

/// The entry of a step in a dry run is marked as such, but for a note,
/// which does the same in either mode; it has what the dry run said of the
/// step's condition, and is otherwise that of a step that has not run.
pub proof fn law_a_dry_step_is_marked(
    mode: ExecMode,
    entry: ReportView,
    step: StepView,
    dry: DryStep,
)
    ensures
        ({
            let (after, said) = step_recorded(mode, entry, step, Ok(StepRun::Dry(dry)));
            &&& said == Ok::<Text, ErrorView>(dry.summary@)
            &&& !(step is Note) ==> after.dry_run == Some(true)
            &&& step is Note ==> after.dry_run == entry.dry_run
            &&& dry.note matches Some(note) ==> after.note == Some(note@)
            &&& dry.note is None ==> after.note == entry.note
            &&& after.ok == entry.ok && after.status == entry.status && after.reason
                == entry.reason
            &&& after.id == entry.id && after.kind == entry.kind && after.op == entry.op
            &&& after.declared_at == entry.declared_at
        }),
{
}

/// The entry of a step that failed has the code the step ended in, and -1
/// where it ended in none, and both outputs that were observed.
pub proof fn law_a_failed_step_is_told_with_what_it_observed(
    mode: ExecMode,
    entry: ReportView,
    step: StepView,
    failure: StepFailure,
)
    ensures
        ({
            let (after, said) = step_recorded(mode, entry, step, Err(failure));
            let observed = failure@.observed;
            &&& said == Err::<Text, ErrorView>(failure@.error)
            &&& after.ok == false
            &&& observed.status == 0 ==> after.status == -1
            &&& observed.status != 0 ==> after.status == observed.status
            &&& after.reason == Some(failure@.error.sentence())
            &&& observed.stdout is Some ==> after.stdout == observed.stdout
            &&& observed.stderr is Some ==> after.stderr == observed.stderr
            &&& mode == ExecMode::DryRun ==> after.dry_run == Some(true)
        }),
{
}

/// A step's entry is called by its phase and its number, counted from one;
/// what is said of a phase is what its steps said, in order.
pub proof fn law_a_step_is_called_by_phase_and_number(
    base: Text,
    index: nat,
    name: Text,
    said: Seq<Text>,
    more: Text,
)
    ensures
        step_id(base, index) == base + "_"@ + text::decimal(index),
        phase_line(name, seq![more]) == name + " "@ + more,
        said.len() > 0 ==> phase_line(name, said.push(more)) == phase_line(name, said) + "; "@
            + more,
{
    if said.len() > 0 {
        assert(said.push(more).drop_last() =~= said);
        assert(said.push(more).last() == more);
        assert(phase_line(name, said.push(more)) =~= phase_line(name, said) + "; "@ + more);
    }
}

/// The steps of a phase run in order, one after the other, until one
/// fails or none is left.
pub proof fn law_steps_run_in_order(steps: nat, done: nat, failed: bool)
    ensures
        next_step(steps, done, true) is None,
        done < steps ==> next_step(steps, done, false) == Some(done),
        done >= steps ==> next_step(steps, done, failed) is None,
{
}

/// A phase does not begin where its variables could not be resolved, where
/// it does not expand, or where one of its steps is refused, and for the
/// first of these reasons; otherwise it does.
pub proof fn law_a_phase_begins_unless_something_is_wrong(
    ctx: ContextView,
    payload: ProfileNode,
    env: Result<EnvMap, ExecError>,
)
    ensures
        env matches Err(error) ==> phase_refusal(ctx, payload, env) == Some(error@),
        env is Ok && lifecycle::expansion(payload) is Err ==> phase_refusal(ctx, payload, env)
            == Some(lifecycle::expansion(payload)->Err_0),
        env is Ok && lifecycle::expansion(payload) is Ok && (forall|i: int|
            0 <= i < (lifecycle::expansion(payload)->Ok_0).len() ==> admission::step_refusal(
                ctx,
                (#[trigger] (lifecycle::expansion(payload)->Ok_0)[i]).step,
            ) is None) ==> phase_refusal(ctx, payload, env) is None,
{
    if env is Ok && lifecycle::expansion(payload) is Ok {
        let planned = lifecycle::expansion(payload)->Ok_0;
        if forall|i: int|
            0 <= i < planned.len() ==> admission::step_refusal(
                ctx,
                (#[trigger] planned[i]).step,
            ) is None {
            admission::law_the_first_refused_step_decides(ctx, planned, planned.len() as int);
        }
    }
}

/// A call of the label `lifecycle.step` is taken to a step of the plan,
/// and is answered in words where the plan has none or where its phase has
/// no payload; every other label is taken as that of a phase.
pub proof fn law_a_step_call_is_taken_to_its_step<'a>(
    ctx: ContextView<'a>,
    label: Text,
    node: NodeId,
)
    ensures
        steps::found(ctx.plan, node) is None ==> call_taken(ctx, "lifecycle.step"@, node) == (
            ctx,
            Some(
                "n"@ + text::decimal(node.0 as nat) + " is labelled '"@ + "lifecycle.step"@
                    + "' but the step plan does not project it; the AST and the plan disagree"@,
            ),
        ),
        steps::found(ctx.plan, node) matches Some((_, at, _)) ==> {
            &&& ctx.payloads.contains_key(at.phase.0) && !demand::refers(
                *ctx.payloads[at.phase.0],
            ) ==> call_taken(ctx, "lifecycle.step"@, node) == (ctx, None::<Text>)
            &&& !ctx.payloads.contains_key(at.phase.0) ==> call_taken(
                ctx,
                "lifecycle.step"@,
                node,
            ).1 == Some(ErrorView::PayloadMissing(at.phase.0).sentence())
            &&& ctx.payloads.contains_key(at.phase.0) && demand::refers(
                *ctx.payloads[at.phase.0],
            ) && !ctx.granted.contains("env.ref"@) ==> call_taken(
                ctx,
                "lifecycle.step"@,
                node,
            ).1 == Some(ErrorView::CapabilityDenied("env.ref"@).sentence())
        },
        label != "lifecycle.step"@ && ctx.payloads.contains_key(node.0) && label
            != "net.transfer"@ && label != "net.http_get"@ && label != "net.http_post"@
            ==> call_taken(ctx, label, node).1 == Some(
            "no host resolver is registered for the call '"@ + label + "'"@,
        ),
{
}

/// Only a pull and a push declare variables.
pub proof fn law_only_routes_declare_variables(payload: ProfileNode)
    ensures
        payload matches ProfileNode::SyncPull { env, .. } ==> variables_of(payload) == Some(env),
        payload matches ProfileNode::StagingPush { env, .. } ==> variables_of(payload) == Some(env),
        !(payload is SyncPull) && !(payload is StagingPush) ==> variables_of(payload) is None,
{
}

/// A step that is a call runs by the op of its phase, with the variables
/// of its phase, and is reported in its phase under its own number.
pub proof fn law_a_called_step_runs_as_its_phase_would(
    ctx: ContextView,
    node: NodeId,
    env: EnvMap,
    task: StepTask,
)
    requires
        task_of(ctx, node, env, task),
    ensures
        steps::found(ctx.plan, node) matches Some((phase, at, step)) ==> {
            &&& task.op@ == phase.op
            &&& task.env == env
            &&& task.step@ == step
            &&& task.at.1 == at.index
            &&& ctx.meta.contains_key(at.phase.0) ==> task.at.0 == ctx.meta[at.phase.0].0
                && task.kind@ == ctx.meta[at.phase.0].1
            &&& ctx.meta.contains_key(at.phase.0) && ctx.meta[at.phase.0].0 > 0 ==> task.id@
                == text::decimal(ctx.meta[at.phase.0].0 as nat) + "_"@ + ctx.meta[at.phase.0].1
                + "_"@ + text::decimal(at.index as nat)
        },
{
}

} // verus!
