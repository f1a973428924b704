//! What stands between a phase and its effect: the capability gate, the
//! path and URL lists, and the report of a phase that did not pass.
//!
//! Every check is made before any effect, in a dry run as in a real one,
//! and every refusal adds a failing entry to the report.

use crate::context;
use crate::context::{ContextView, ExecContext};
use crate::demand;
use crate::demand::{Demand, DemandView};
use crate::exec::{ErrorView, ExecError, ExecMode};
use crate::lifecycle;
use crate::lifecycle::{PlannedStep, PlannedView, Step, StepView};
use crate::payload::payload_at;
use crate::policy;
use crate::profile::{NodeId, ProfileNode};
use crate::report;
use crate::report::{ReportView, StepReport};
use crate::scheme;
use crate::text;
use crate::text::{number, same, Text};
use vstd::prelude::*;

verus! {

/// The seven ops that make one effect each.
pub const DIRECT_OPS: [&'static str; 7] = [
    "sh_exec",
    "fs_write",
    "net_http_get",
    "net_http_post",
    "net_transfer",
    "mount_bind",
    "mount_umount",
];

/// The fifteen ops whose phases are lists of steps.
pub const LIFECYCLE_OPS: [&'static str; 15] = [
    "system_apt",
    "comfyui_install",
    "python_version_check",
    "python_deps",
    "custom_nodes",
    "sync_pull",
    "sync_push",
    "staging_push",
    "models",
    "llm_models",
    "post_install",
    "comfyui_restart",
    "comfyui_health",
    "service_start",
    "service_ready",
];

/// Whether an op's phase is a list of steps.
pub open spec fn is_lifecycle(name: Text) -> bool {
    ||| name == "system_apt"@
    ||| name == "comfyui_install"@
    ||| name == "python_version_check"@
    ||| name == "python_deps"@
    ||| name == "custom_nodes"@
    ||| name == "sync_pull"@
    ||| name == "sync_push"@
    ||| name == "staging_push"@
    ||| name == "models"@
    ||| name == "llm_models"@
    ||| name == "post_install"@
    ||| name == "comfyui_restart"@
    ||| name == "comfyui_health"@
    ||| name == "service_start"@
    ||| name == "service_ready"@
}

/// Whether an op's phase is a list of steps.
pub fn is_lifecycle_op(name: &str) -> (r: bool)
    ensures
        r == is_lifecycle(name@),
{
    let mut i: usize = 0;
    while i < LIFECYCLE_OPS.len()
        invariant
            i <= 15,
            forall|j: int| 0 <= j < i ==> LIFECYCLE_OPS@[j]@ != name@,
        decreases 15 - i,
    {
        if same(name, LIFECYCLE_OPS[i]) {
            return true;
        }
        i = i + 1;
    }
    false
}

// ---------------------------------------------------------------------
// Entries of phases that failed
// ---------------------------------------------------------------------

/// The identity and the kind of a phase's entry. A node that is no phase
/// is called by its own identity.
pub open spec fn base_of(ctx: ContextView, node: NodeId) -> (Text, Text) {
    let (index, kind) = ctx.meta_of(node);
    if index == 0 {
        ("n"@ + text::decimal(node.0 as nat), kind)
    } else {
        (text::decimal(index as nat) + "_"@ + kind, kind)
    }
}

/// The identity and the kind of a phase's entry.
pub fn report_base(ctx: &ExecContext, node: NodeId) -> (r: (String, String))
    ensures
        (r.0@, r.1@) == base_of(ctx@, node),
{
    let (index, kind) = ctx.phase_meta_of(node);
    if index == 0 {
        let mut id = "n".to_owned();
        id.append(number(node.0).as_str());
        (id, kind)
    } else {
        let mut id = number(index as u64);
        id.append("_");
        id.append(kind.as_str());
        (id, kind)
    }
}

/// An entry that failed. A status that says more than success stays.
pub open spec fn marked(mode: ExecMode, entry: ReportView, error: ErrorView) -> ReportView {
    ReportView {
        ok: false,
        status: if entry.status == 0 {
            -1i64
        } else {
            entry.status
        },
        reason: Some(error.sentence()),
        dry_run: if mode == ExecMode::DryRun {
            Some(true)
        } else {
            entry.dry_run
        },
        ..entry
    }
}

/// Make an entry one that failed.
pub fn mark_report_failed(mode: ExecMode, entry: &mut StepReport, error: &ExecError)
    ensures
        final(entry)@ == marked(mode, old(entry)@, error@),
{
    entry.ok = false;
    if entry.status == 0 {
        entry.status = -1;
    }
    entry.reason = Some(error.to_string());
    if mode == ExecMode::DryRun {
        entry.dry_run = Some(true);
    }
}

/// The entry of a phase that failed before any effect. It is called by
/// its kind, there being no effect to call it by.
pub open spec fn phase_failure(ctx: ContextView, node: NodeId, error: ErrorView) -> ReportView {
    let (id, kind) = base_of(ctx, node);
    marked(ctx.mode, report::succeeded(id, kind, kind), error)
}

/// Report a phase that failed before any effect.
pub fn record_phase_failure(ctx: &mut ExecContext, node: NodeId, error: &ExecError)
    ensures
        final(ctx)@ == old(ctx)@.with_report(phase_failure(old(ctx)@, node, error@)),
{
    let (id, kind) = report_base(ctx, node);
    let op = kind.clone();
    let mut entry = StepReport::new(id, kind, op.as_str());
    mark_report_failed(ctx.mode, &mut entry, error);
    ctx.push_report(entry);
}

/// An entry with what a direct phase reaches.
pub open spec fn reaching(entry: ReportView, payload: ProfileNode) -> ReportView {
    match payload {
        ProfileNode::FsWrite { path, .. } => ReportView { path: Some(path@), ..entry },
        ProfileNode::MountUmount { path, .. } => ReportView { path: Some(path@), ..entry },
        ProfileNode::NetHttpGet { url, .. } => ReportView { url: Some(url@), ..entry },
        ProfileNode::NetHttpPost { url, .. } => ReportView { url: Some(url@), ..entry },
        ProfileNode::NetTransfer { src, dst, .. } => ReportView {
            src: Some(src@),
            dst: Some(dst@),
            ..entry
        },
        ProfileNode::MountBind { src, dst, .. } => ReportView {
            src: Some(src@),
            dst: Some(dst@),
            ..entry
        },
        _ => entry,
    }
}

/// The entry of a direct phase that a list refused: with what it would
/// have reached.
pub open spec fn policy_failure(
    ctx: ContextView,
    node: NodeId,
    payload: ProfileNode,
    error: ErrorView,
) -> ReportView {
    let (id, kind) = base_of(ctx, node);
    marked(ctx.mode, reaching(report::succeeded(id, kind, kind), payload), error)
}

/// Report a direct phase that a list refused.
pub fn push_policy_failure(
    ctx: &mut ExecContext,
    node: NodeId,
    payload: &ProfileNode,
    error: &ExecError,
)
    ensures
        final(ctx)@ == old(ctx)@.with_report(policy_failure(old(ctx)@, node, *payload, error@)),
{
    let (id, kind) = report_base(ctx, node);
    let op = kind.clone();
    let mut entry = StepReport::new(id, kind, op.as_str());
    match payload {
        ProfileNode::FsWrite { path, .. } => {
            entry.path = Some(path.clone());
        },
        ProfileNode::MountUmount { path, .. } => {
            entry.path = Some(path.clone());
        },
        ProfileNode::NetHttpGet { url, .. } => {
            entry.url = Some(url.clone());
        },
        ProfileNode::NetHttpPost { url, .. } => {
            entry.url = Some(url.clone());
        },
        ProfileNode::NetTransfer { src, dst, .. } => {
            entry.src = Some(src.clone());
            entry.dst = Some(dst.clone());
        },
        ProfileNode::MountBind { src, dst, .. } => {
            entry.src = Some(src.clone());
            entry.dst = Some(dst.clone());
        },
        _ => {},
    }
    mark_report_failed(ctx.mode, &mut entry, error);
    ctx.push_report(entry);
}

/// The error and the entry of a payload that is not what its op is for.
pub open spec fn variant_error(node: NodeId, expected: Text) -> ErrorView {
    ErrorView::PayloadVariant { node: node.0, expected }
}

/// The entry of a payload that is not what its op is for.
pub open spec fn variant_failure(
    ctx: ContextView,
    node: NodeId,
    op: Text,
    expected: Text,
) -> ReportView {
    let (id, kind) = base_of(ctx, node);
    marked(ctx.mode, report::succeeded(id, kind, op), variant_error(node, expected))
}

/// Report a payload that is not what its op is for.
pub fn variant_fail(ctx: &mut ExecContext, node: NodeId, op: &str, expected: &'static str) -> (r:
    ExecError)
    ensures
        r@ == variant_error(node, expected@),
        final(ctx)@ == old(ctx)@.with_report(variant_failure(old(ctx)@, node, op@, expected@)),
{
    let error = ExecError::PayloadVariant { node: node.0, expected };
    let (id, kind) = report_base(ctx, node);
    let mut entry = StepReport::new(id, kind, op);
    mark_report_failed(ctx.mode, &mut entry, &error);
    ctx.push_report(entry);
    error
}

// ---------------------------------------------------------------------
// Checks
// ---------------------------------------------------------------------

/// Why a capability is refused.
pub open spec fn gate_refusal(ctx: ContextView, capability: Text) -> Option<ErrorView> {
    if ctx.granted.contains(capability) {
        None
    } else {
        Some(ErrorView::CapabilityDenied(capability))
    }
}

/// The first path that no declared root holds.
pub open spec fn refused_path(roots: Seq<Text>, paths: Seq<Text>) -> Option<Text>
    decreases paths.len(),
{
    if paths.len() == 0 {
        None
    } else if !policy::path_allowed(roots, paths[0]) {
        Some(paths[0])
    } else {
        refused_path(roots, paths.drop_first())
    }
}

/// The first URL that no declared pattern matches.
pub open spec fn refused_url(patterns: Seq<Text>, urls: Seq<Text>) -> Option<Text>
    decreases urls.len(),
{
    if urls.len() == 0 {
        None
    } else if !policy::url_allowed(patterns, urls[0]) {
        Some(urls[0])
    } else {
        refused_url(patterns, urls.drop_first())
    }
}

/// Why a demand's paths and URLs are refused; paths are checked first.
pub open spec fn policy_refusal(ctx: ContextView, demand: DemandView) -> Option<ErrorView> {
    match refused_path(ctx.roots, demand.paths) {
        Some(path) => Some(ErrorView::PathDenied { path }),
        None => match refused_url(ctx.patterns, demand.urls) {
            Some(url) => Some(ErrorView::HttpDenied { url }),
            None => None,
        },
    }
}

/// The model of a check as the error it ends in.
pub open spec fn refusal_in(r: Result<(), ExecError>) -> Option<ErrorView> {
    match r {
        Ok(()) => None,
        Err(error) => Some(error@),
    }
}

fn check_paths(ctx: &ExecContext, paths: &Vec<String>) -> (r: Result<(), ExecError>)
    ensures
        refusal_in(r) == match refused_path(ctx@.roots, text::texts(paths@)) {
            Some(path) => Some(ErrorView::PathDenied { path }),
            None => None,
        },
{
    let ghost all = text::texts(paths@);
    let mut i: usize = 0;
    assert(all.skip(0) =~= all);
    while i < paths.len()
        invariant
            i <= paths@.len(),
            all == text::texts(paths@),
            refused_path(ctx@.roots, all) == refused_path(ctx@.roots, all.skip(i as int)),
        decreases paths@.len() - i,
    {
        proof {
            assert(all.skip(i as int)[0] == paths@[i as int]@);
            assert(all.skip(i as int).drop_first() =~= all.skip(i + 1));
        }
        ctx.path_policy.check(paths[i].as_str())?;
        i = i + 1;
    }
    Ok(())
}

fn check_urls(ctx: &ExecContext, urls: &Vec<String>) -> (r: Result<(), ExecError>)
    ensures
        refusal_in(r) == match refused_url(ctx@.patterns, text::texts(urls@)) {
            Some(url) => Some(ErrorView::HttpDenied { url }),
            None => None,
        },
{
    let ghost all = text::texts(urls@);
    let mut i: usize = 0;
    assert(all.skip(0) =~= all);
    while i < urls.len()
        invariant
            i <= urls@.len(),
            all == text::texts(urls@),
            refused_url(ctx@.patterns, all) == refused_url(ctx@.patterns, all.skip(i as int)),
        decreases urls@.len() - i,
    {
        proof {
            assert(all.skip(i as int)[0] == urls@[i as int]@);
            assert(all.skip(i as int).drop_first() =~= all.skip(i + 1));
        }
        ctx.http_policy.check(urls[i].as_str())?;
        i = i + 1;
    }
    Ok(())
}

/// Check what a demand reaches against the declared lists.
pub fn check_policy(ctx: &ExecContext, demand: &Demand) -> (r: Result<(), ExecError>)
    ensures
        refusal_in(r) == policy_refusal(ctx@, demand@),
{
    check_paths(ctx, &demand.paths)?;
    check_urls(ctx, &demand.urls)
}

/// Why a phase that refers to the profile's own environment is refused.
pub open spec fn env_ref_refusal(ctx: ContextView, payload: ProfileNode) -> Option<ErrorView> {
    if demand::refers(payload) {
        gate_refusal(ctx, "env.ref"@)
    } else {
        None
    }
}

/// Why a direct phase is refused, and the entry that says so. In this
/// order: a reference to the profile's own environment, what the payload
/// demands, the capability, the paths and the URLs.
pub open spec fn refusal(
    ctx: ContextView,
    node: NodeId,
    payload: ProfileNode,
) -> Option<(ReportView, ErrorView)> {
    match env_ref_refusal(ctx, payload) {
        Some(error) => Some((phase_failure(ctx, node, error), error)),
        None => demand_refusal(ctx, node, payload),
    }
}

/// Why what a direct phase demands is refused.
pub open spec fn demand_refusal(
    ctx: ContextView,
    node: NodeId,
    payload: ProfileNode,
) -> Option<(ReportView, ErrorView)> {
    match demand::direct_demand(payload) {
        Err(error) => Some((policy_failure(ctx, node, payload, error), error)),
        Ok(demand) => match capability_refusal(ctx, demand) {
            Some(error) => Some((phase_failure(ctx, node, error), error)),
            None => match policy_refusal(ctx, demand) {
                Some(error) => Some((policy_failure(ctx, node, payload, error), error)),
                None => None,
            },
        },
    }
}

/// Why a demand's capability is refused.
pub open spec fn capability_refusal(ctx: ContextView, demand: DemandView) -> Option<ErrorView> {
    match demand.capability {
        Some(capability) => gate_refusal(ctx, capability),
        None => None,
    }
}

/// What a check leaves behind: nothing, or a failing entry.
pub open spec fn refused_with<'a>(
    ctx: ContextView<'a>,
    refusal: Option<(ReportView, ErrorView)>,
) -> ContextView<'a> {
    match refusal {
        Some((entry, _)) => ctx.with_report(entry),
        None => ctx,
    }
}

/// The error of a refusal.
pub open spec fn error_of(refusal: Option<(ReportView, ErrorView)>) -> Option<ErrorView> {
    match refusal {
        Some((_, error)) => Some(error),
        None => None,
    }
}

/// Check a phase's reference to the profile's own environment.
pub fn check_env_ref(ctx: &mut ExecContext, node: NodeId, payload: &ProfileNode) -> (r: Result<
    (),
    ExecError,
>)
    ensures
        refusal_in(r) == env_ref_refusal(old(ctx)@, *payload),
        final(ctx)@ == match env_ref_refusal(old(ctx)@, *payload) {
            Some(error) => old(ctx)@.with_report(phase_failure(old(ctx)@, node, error)),
            None => old(ctx)@,
        },
{
    if let Some(capability) = demand::env_ref(payload) {
        if let Err(error) = ctx.gate.require(capability) {
            record_phase_failure(ctx, node, &error);
            return Err(error);
        }
    }
    Ok(())
}

/// Check what a direct phase demands.
fn check_demand(ctx: &mut ExecContext, node: NodeId, payload: &ProfileNode) -> (r: Result<
    (),
    ExecError,
>)
    ensures
        refusal_in(r) == error_of(demand_refusal(old(ctx)@, node, *payload)),
        final(ctx)@ == refused_with(old(ctx)@, demand_refusal(old(ctx)@, node, *payload)),
{
    let demanded = match demand::direct(payload) {
        Ok(demanded) => demanded,
        Err(error) => {
            push_policy_failure(ctx, node, payload, &error);
            return Err(error);
        },
    };
    if let Some(capability) = demanded.capability {
        if let Err(error) = ctx.gate.require(capability) {
            record_phase_failure(ctx, node, &error);
            return Err(error);
        }
    }
    if let Err(error) = check_policy(ctx, &demanded) {
        push_policy_failure(ctx, node, payload, &error);
        return Err(error);
    }
    Ok(())
}

/// Check all that a direct phase answers for before its effect.
pub fn check_routed_demand(ctx: &mut ExecContext, node: NodeId, payload: &ProfileNode) -> (r:
    Result<(), ExecError>)
    ensures
        refusal_in(r) == error_of(refusal(old(ctx)@, node, *payload)),
        final(ctx)@ == refused_with(old(ctx)@, refusal(old(ctx)@, node, *payload)),
{
    check_env_ref(ctx, node, payload)?;
    check_demand(ctx, node, payload)
}

// ---------------------------------------------------------------------
// Admission of a phase to its op
// ---------------------------------------------------------------------

/// A phase that passed every check that its op makes before the host
/// resolves the phase's values. There is no other way to get one.
pub struct Admitted<'a> {
    name: &'static str,
    node: NodeId,
    payload: &'a ProfileNode,
}

impl<'a> Admitted<'a> {
    /// The op that runs the phase.
    pub closed spec fn op(&self) -> Text {
        self.name@
    }

    /// The phase's identity.
    pub closed spec fn at(&self) -> NodeId {
        self.node
    }

    /// The phase.
    pub closed spec fn phase(&self) -> ProfileNode {
        *self.payload
    }

    /// The op that runs the phase.
    pub fn name(&self) -> (r: &'static str)
        ensures
            r@ == self.op(),
    {
        self.name
    }

    /// The phase's identity.
    pub fn node(&self) -> (r: NodeId)
        ensures
            r == self.at(),
    {
        self.node
    }

    /// The phase.
    pub fn payload(&self) -> (r: &'a ProfileNode)
        ensures
            *r == self.phase(),
    {
        self.payload
    }
}

/// Why an op does not take a phase, and the entry that says so. A phase
/// that is a list of steps answers for its steps later.
pub open spec fn op_refusal(ctx: ContextView, name: Text, node: NodeId) -> Option<
    (ReportView, ErrorView),
> {
    if !ctx.payloads.contains_key(node.0) {
        let error = ErrorView::PayloadMissing(node.0);
        Some((phase_failure(ctx, node, error), error))
    } else {
        let payload = *ctx.payloads[node.0];
        match env_ref_refusal(ctx, payload) {
            Some(error) => Some((phase_failure(ctx, node, error), error)),
            None => if is_lifecycle(name) {
                None
            } else {
                demand_refusal(ctx, node, payload)
            },
        }
    }
}

/// The model of an admission.
pub open spec fn admission<'a>(
    r: Result<Admitted<'a>, ExecError>,
    ctx: ContextView<'a>,
    name: Text,
    node: NodeId,
    refusal: Option<(ReportView, ErrorView)>,
) -> bool {
    match r {
        Ok(admitted) => {
            &&& refusal is None
            &&& ctx.payloads.contains_key(node.0)
            &&& admitted.op() == name
            &&& admitted.at() == node
            &&& admitted.phase() == *ctx.payloads[node.0]
        },
        Err(error) => error_of(refusal) == Some(error@),
    }
}

/// Take a phase to its op: find its payload, and make every check there
/// is before the payload's values are resolved.
pub fn dispatch<'a>(ctx: &mut ExecContext<'a>, name: &'static str, node: NodeId) -> (r: Result<
    Admitted<'a>,
    ExecError,
>)
    ensures
        admission(r, old(ctx)@, name@, node, op_refusal(old(ctx)@, name@, node)),
        final(ctx)@ == refused_with(old(ctx)@, op_refusal(old(ctx)@, name@, node)),
{
    let payload = match payload_at(&ctx.payloads, node) {
        Some(payload) => payload,
        None => {
            let error = ExecError::PayloadMissing(node.0);
            record_phase_failure(ctx, node, &error);
            return Err(error);
        },
    };
    check_env_ref(ctx, node, payload)?;
    if !is_lifecycle_op(name) {
        check_demand(ctx, node, payload)?;
    }
    Ok(Admitted { name, node, payload })
}

// ---------------------------------------------------------------------
// Admission of a phase to a call
// ---------------------------------------------------------------------

/// The label of a transfer's call.
pub const TRANSFER_CALL_LABEL: &'static str = "net.transfer";

/// The label of a GET request's call.
pub const HTTP_GET_CALL_LABEL: &'static str = "net.http_get";

/// The label of a POST request's call.
pub const HTTP_POST_CALL_LABEL: &'static str = "net.http_post";

/// The label of a lifecycle step's call.
pub const LIFECYCLE_STEP_CALL_LABEL: &'static str = "lifecycle.step";

/// Why a call failed, in words. What a program reads stands in the
/// step's entry.
#[derive(Debug, Clone, PartialEq, Eq)]
pub struct CallError(pub String);

impl<'e> From<&'e ExecError> for CallError {
    /// The error in words.
    fn from(error: &'e ExecError) -> (r: Self)
        ensures
            r.0@ == error@.sentence(),
    {
        CallError(error.to_string())
    }
}

impl<'e> vstd::std_specs::convert::FromSpecImpl<&'e ExecError> for CallError {
    open spec fn obeys_from_spec() -> bool {
        false
    }

    open spec fn from_spec(error: &'e ExecError) -> CallError {
        arbitrary()
    }
}

impl CallError {
    /// The error in words.
    pub fn to_string(&self) -> (r: String)
        ensures
            r@ == self.0@,
    {
        self.0.clone()
    }
}

/// What a suspension that is no call is answered with.
pub open spec fn no_call(node: NodeId, reason: Text) -> Text {
    "the suspension at n"@ + text::decimal(node.0 as nat) + " is not a Call ("@ + reason
        + "); the host resolves Call effects only"@
}

/// What a suspension that is no call is answered with.
pub fn not_a_call(node: NodeId, reason: &str) -> (r: CallError)
    ensures
        r.0@ == "the suspension at n"@ + text::decimal(node.0 as nat) + " is not a Call ("@
            + reason@ + "); the host resolves Call effects only"@,
        r.0@ == no_call(node, reason@),
{
    let mut message = "the suspension at n".to_owned();
    message.append(number(node.0).as_str());
    message.append(" is not a Call (");
    message.append(reason);
    message.append("); the host resolves Call effects only");
    CallError(message)
}

/// The op of a label, and what its payload has to be.
pub open spec fn op_of_label(label: Text) -> Option<(Text, Text)> {
    if label == TRANSFER_CALL_LABEL@ {
        Some(("net_transfer"@, "NetTransfer"@))
    } else if label == HTTP_GET_CALL_LABEL@ {
        Some(("net_http_get"@, "NetHttpGet"@))
    } else if label == HTTP_POST_CALL_LABEL@ {
        Some(("net_http_post"@, "NetHttpPost"@))
    } else {
        None
    }
}

/// Whether a payload is what a label is for.
pub open spec fn fits_label(label: Text, payload: ProfileNode) -> bool {
    ||| label == TRANSFER_CALL_LABEL@ && payload is NetTransfer
    ||| label == HTTP_GET_CALL_LABEL@ && payload is NetHttpGet
    ||| label == HTTP_POST_CALL_LABEL@ && payload is NetHttpPost
}

/// Why a call of a known label does not take a phase, and the entry that
/// says so.
pub open spec fn call_refusal(ctx: ContextView, label: Text, node: NodeId) -> Option<
    (ReportView, ErrorView),
> {
    if !ctx.payloads.contains_key(node.0) {
        let error = ErrorView::PayloadMissing(node.0);
        Some((phase_failure(ctx, node, error), error))
    } else {
        let payload = *ctx.payloads[node.0];
        match op_of_label(label) {
            None => None,
            Some((_, expected)) => if fits_label(label, payload) {
                refusal(ctx, node, payload)
            } else {
                Some(
                    (
                        variant_failure(ctx, node, label, expected),
                        variant_error(node, expected),
                    ),
                )
            },
        }
    }
}

/// What a call of an unknown label is answered with.
pub open spec fn unknown_call(label: Text) -> Text {
    "no host resolver is registered for the call '"@ + label + "'"@
}

/// Take a suspended phase to its effect: find its payload by the node
/// that was suspended, and make every check that its op would. A step of
/// a phase is no phase: a call of its label is taken by
/// [`crate::phases::take_call`].
pub fn resolve_call<'a>(ctx: &mut ExecContext<'a>, label: &str, node: NodeId) -> (r: Result<
    Admitted<'a>,
    CallError,
>)
    ensures
        final(ctx)@ == refused_with(old(ctx)@, call_refusal(old(ctx)@, label@, node)),
        match r {
            Ok(admitted) => {
                &&& call_refusal(old(ctx)@, label@, node) is None
                &&& old(ctx)@.payloads.contains_key(node.0)
                &&& op_of_label(label@) is Some
                &&& admitted.op() == (op_of_label(label@)->0).0
                &&& admitted.at() == node
                &&& admitted.phase() == *old(ctx)@.payloads[node.0]
            },
            Err(error) => match error_of(call_refusal(old(ctx)@, label@, node)) {
                Some(cause) => error.0@ == cause.sentence(),
                None => op_of_label(label@) is None && error.0@ == unknown_call(label@),
            },
        },
{
    let payload = match payload_at(&ctx.payloads, node) {
        Some(payload) => payload,
        None => {
            let error = ExecError::PayloadMissing(node.0);
            record_phase_failure(ctx, node, &error);
            return Err(CallError::from(&error));
        },
    };
    let (name, expected, fits): (&'static str, &'static str, bool) = if same(
        label,
        TRANSFER_CALL_LABEL,
    ) {
        ("net_transfer", "NetTransfer", matches!(payload, ProfileNode::NetTransfer { .. }))
    } else if same(label, HTTP_GET_CALL_LABEL) {
        ("net_http_get", "NetHttpGet", matches!(payload, ProfileNode::NetHttpGet { .. }))
    } else if same(label, HTTP_POST_CALL_LABEL) {
        ("net_http_post", "NetHttpPost", matches!(payload, ProfileNode::NetHttpPost { .. }))
    } else {
        let mut message = "no host resolver is registered for the call '".to_owned();
        message.append(label);
        message.append("'");
        return Err(CallError(message));
    };
    proof {
        lemma_labels_differ();
    }
    if !fits {
        let error = variant_fail(ctx, node, label, expected);
        return Err(CallError::from(&error));
    }
    if let Err(error) = check_routed_demand(ctx, node, payload) {
        return Err(CallError::from(&error));
    }
    Ok(Admitted { name, node, payload })
}

/// No two labels are the same.
proof fn lemma_labels_differ()
    ensures
        TRANSFER_CALL_LABEL@ != HTTP_GET_CALL_LABEL@,
        TRANSFER_CALL_LABEL@ != HTTP_POST_CALL_LABEL@,
        HTTP_GET_CALL_LABEL@ != HTTP_POST_CALL_LABEL@,
{
    reveal_strlit("net.transfer");
    reveal_strlit("net.http_get");
    reveal_strlit("net.http_post");
    assert(TRANSFER_CALL_LABEL@[4] == 't');
    assert(HTTP_GET_CALL_LABEL@[4] == 'h');
    assert(HTTP_POST_CALL_LABEL@[4] == 'h');
    assert(HTTP_GET_CALL_LABEL@[9] == 'g');
    assert(HTTP_POST_CALL_LABEL@[9] == 'p');
}

// ---------------------------------------------------------------------
// Lists of steps
// ---------------------------------------------------------------------

/// Why a step is refused.
pub open spec fn step_refusal(ctx: ContextView, step: StepView) -> Option<ErrorView> {
    match demand::step_demand(step) {
        Err(error) => Some(error),
        Ok(demand) => match capability_refusal(ctx, demand) {
            Some(error) => Some(error),
            None => policy_refusal(ctx, demand),
        },
    }
}

/// Why a list of steps is refused: for the first of them that is.
pub open spec fn steps_refusal(ctx: ContextView, steps: Seq<PlannedView>) -> Option<ErrorView>
    decreases steps.len(),
{
    if steps.len() == 0 {
        None
    } else {
        match step_refusal(ctx, steps[0].step) {
            Some(error) => Some(error),
            None => steps_refusal(ctx, steps.drop_first()),
        }
    }
}

fn check_step(ctx: &ExecContext, step: &Step) -> (r: Result<(), ExecError>)
    ensures
        refusal_in(r) == step_refusal(ctx@, step@),
{
    let demanded = demand::step(step)?;
    if let Some(capability) = demanded.capability {
        ctx.gate.require(capability)?;
    }
    check_policy(ctx, &demanded)
}

/// Check every step of a phase before any of them runs: a phase whose
/// second step would be refused does not run its first. A refusal is
/// reported at the phase.
pub fn check_lifecycle_steps(ctx: &mut ExecContext, phase: NodeId, steps: &Vec<PlannedStep>) -> (r:
    Result<(), ExecError>)
    ensures
        refusal_in(r) == steps_refusal(old(ctx)@, lifecycle::planned_views(steps@)),
        final(ctx)@ == match steps_refusal(old(ctx)@, lifecycle::planned_views(steps@)) {
            Some(error) => old(ctx)@.with_report(phase_failure(old(ctx)@, phase, error)),
            None => old(ctx)@,
        },
{
    let ghost all = lifecycle::planned_views(steps@);
    let mut i: usize = 0;
    assert(all.skip(0) =~= all);
    while i < steps.len()
        invariant
            i <= steps@.len(),
            all == lifecycle::planned_views(steps@),
            ctx@ == old(ctx)@,
            steps_refusal(ctx@, all) == steps_refusal(ctx@, all.skip(i as int)),
        decreases steps@.len() - i,
    {
        proof {
            assert(all.skip(i as int)[0] == steps@[i as int]@);
            assert(all.skip(i as int).drop_first() =~= all.skip(i + 1));
        }
        if let Err(error) = check_step(ctx, &steps[i].step) {
            record_phase_failure(ctx, phase, &error);
            return Err(error);
        }
        i = i + 1;
    }
    Ok(())
}

// ---------------------------------------------------------------------
// What holds of every check
// ---------------------------------------------------------------------

/// Whether an entry says that a step failed, and why.
pub open spec fn tells_failure(entry: ReportView, error: ErrorView) -> bool {
    &&& !entry.ok
    &&& entry.status != 0
    &&& entry.reason == Some(error.sentence())
}

/// Every refusal is reported by an entry that fails for its reason, and
/// nothing else is said: no line and no event.
pub proof fn law_a_refusal_is_reported(ctx: ContextView, name: Text, label: Text, node: NodeId)
    ensures
        op_refusal(ctx, name, node) matches Some((entry, error)) ==> tells_failure(entry, error)
            && refused_with(ctx, op_refusal(ctx, name, node)) == ctx.with_report(entry),
        call_refusal(ctx, label, node) matches Some((entry, error)) ==> tells_failure(
            entry,
            error,
        ) && refused_with(ctx, call_refusal(ctx, label, node)) == ctx.with_report(entry),
{
}

/// A check changes nothing of a run but what it has said, and takes back
/// nothing of that.
pub proof fn law_a_check_only_adds(ctx: ContextView, refusal: Option<(ReportView, ErrorView)>)
    ensures
        ctx.goes_on_as(refused_with(ctx, refusal)),
{
    context::lemma_saying_more(ctx);
}

/// A phase that may be run either way is admitted or refused alike, for
/// the same reason and with the same entry, whichever way it is run.
pub proof fn law_both_routes_refuse_alike(ctx: ContextView, label: Text, node: NodeId)
    requires
        op_of_label(label) is Some,
        ctx.payloads.contains_key(node.0),
        fits_label(label, *ctx.payloads[node.0]),
    ensures
        op_refusal(ctx, (op_of_label(label)->0).0, node) == call_refusal(ctx, label, node),
{
    lemma_direct_ops_are_not_lifecycle();
}

proof fn lemma_direct_ops_are_not_lifecycle()
    ensures
        !is_lifecycle("net_transfer"@),
        !is_lifecycle("net_http_get"@),
        !is_lifecycle("net_http_post"@),
{
    reveal_strlit("net_transfer");
    reveal_strlit("net_http_get");
    reveal_strlit("net_http_post");
    reveal_strlit("system_apt");
    reveal_strlit("comfyui_install");
    reveal_strlit("python_version_check");
    reveal_strlit("python_deps");
    reveal_strlit("custom_nodes");
    reveal_strlit("sync_pull");
    reveal_strlit("sync_push");
    reveal_strlit("staging_push");
    reveal_strlit("models");
    reveal_strlit("llm_models");
    reveal_strlit("post_install");
    reveal_strlit("comfyui_restart");
    reveal_strlit("comfyui_health");
    reveal_strlit("service_start");
    reveal_strlit("service_ready");
    let transfer = "net_transfer"@;
    let get = "net_http_get"@;
    let post = "net_http_post"@;
    assert(transfer[0] == 'n' && get[0] == 'n' && post[0] == 'n');
    assert("system_apt"@[0] == 's');
    assert("comfyui_install"@[0] == 'c');
    assert("python_version_check"@[0] == 'p');
    assert("python_deps"@[0] == 'p');
    assert("custom_nodes"@[0] == 'c');
    assert("sync_pull"@[0] == 's');
    assert("sync_push"@[0] == 's');
    assert("staging_push"@[0] == 's');
    assert("models"@[0] == 'm');
    assert("llm_models"@[0] == 'l');
    assert("post_install"@[0] == 'p');
    assert("comfyui_restart"@[0] == 'c');
    assert("comfyui_health"@[0] == 'c');
    assert("service_start"@[0] == 's');
    assert("service_ready"@[0] == 's');
}

/// What a direct phase demands is granted, and everything it reaches is
/// allowed, whenever it is not refused.
pub proof fn law_what_is_admitted_is_declared(ctx: ContextView, node: NodeId, payload: ProfileNode)
    requires
        refusal(ctx, node, payload) is None,
    ensures
        demand::refers(payload) ==> ctx.granted.contains("env.ref"@),
        demand::direct_demand(payload) matches Ok(demand) && {
            &&& demand.capability matches Some(capability) ==> ctx.granted.contains(capability)
            &&& forall|i: int|
                0 <= i < demand.paths.len() ==> policy::path_allowed(
                    ctx.roots,
                    #[trigger] demand.paths[i],
                )
            &&& forall|i: int|
                0 <= i < demand.urls.len() ==> policy::url_allowed(
                    ctx.patterns,
                    #[trigger] demand.urls[i],
                )
        },
{
    let demand = demand::direct_demand(payload)->Ok_0;
    assert forall|i: int| 0 <= i < demand.paths.len() implies policy::path_allowed(
        ctx.roots,
        #[trigger] demand.paths[i],
    ) by {
        lemma_no_refused_path(ctx.roots, demand.paths, i);
    }
    assert forall|i: int| 0 <= i < demand.urls.len() implies policy::url_allowed(
        ctx.patterns,
        #[trigger] demand.urls[i],
    ) by {
        lemma_no_refused_url(ctx.patterns, demand.urls, i);
    }
}

proof fn lemma_no_refused_path(roots: Seq<Text>, paths: Seq<Text>, i: int)
    requires
        refused_path(roots, paths) is None,
        0 <= i < paths.len(),
    ensures
        policy::path_allowed(roots, paths[i]),
    decreases paths.len(),
{
    if i > 0 {
        lemma_no_refused_path(roots, paths.drop_first(), i - 1);
    }
}

proof fn lemma_no_refused_url(patterns: Seq<Text>, urls: Seq<Text>, i: int)
    requires
        refused_url(patterns, urls) is None,
        0 <= i < urls.len(),
    ensures
        policy::url_allowed(patterns, urls[i]),
    decreases urls.len(),
{
    if i > 0 {
        lemma_no_refused_url(patterns, urls.drop_first(), i - 1);
    }
}

/// A list of steps passes only where each of its steps does, so a phase
/// that runs its first step may run every one.
pub proof fn law_one_refused_step_refuses_the_phase(
    ctx: ContextView,
    steps: Seq<PlannedView>,
    i: int,
)
    requires
        0 <= i < steps.len(),
        step_refusal(ctx, steps[i].step) is Some,
    ensures
        steps_refusal(ctx, steps) is Some,
    decreases steps.len(),
{
    if i > 0 {
        assert(steps.drop_first()[i - 1] == steps[i]);
        law_one_refused_step_refuses_the_phase(ctx, steps.drop_first(), i - 1);
    }
}

// ---------------------------------------------------------------------
// What a check comes to
// ---------------------------------------------------------------------

/// A direct phase whose capability is granted and whose targets are
/// allowed is admitted, whatever op takes it; one whose capability is not
/// granted is refused for exactly that capability.
pub proof fn law_a_granted_phase_is_admitted(ctx: ContextView, name: Text, node: NodeId)
    requires
        ctx.payloads.contains_key(node.0),
        demand::refers(*ctx.payloads[node.0]) ==> ctx.granted.contains("env.ref"@),
        !is_lifecycle(name),
    ensures
        *ctx.payloads[node.0] matches ProfileNode::ShExec { .. } ==> {
            &&& ctx.granted.contains("sh.exec"@) ==> op_refusal(ctx, name, node) is None
            &&& !ctx.granted.contains("sh.exec"@) ==> error_of(op_refusal(ctx, name, node)) == Some(
                ErrorView::CapabilityDenied("sh.exec"@),
            )
        },
        *ctx.payloads[node.0] matches ProfileNode::FsWrite { path, .. } ==> {
            &&& ctx.granted.contains("fs.write"@) && policy::path_allowed(ctx.roots, path@)
                ==> op_refusal(ctx, name, node) is None
            &&& !ctx.granted.contains("fs.write"@) ==> error_of(op_refusal(ctx, name, node))
                == Some(ErrorView::CapabilityDenied("fs.write"@))
            &&& ctx.granted.contains("fs.write"@) && !policy::path_allowed(ctx.roots, path@)
                ==> error_of(op_refusal(ctx, name, node)) == Some(
                ErrorView::PathDenied { path: path@ },
            )
        },
        *ctx.payloads[node.0] matches ProfileNode::NetHttpGet { url, .. } ==> {
            &&& ctx.granted.contains("net.http_get"@) && policy::url_allowed(ctx.patterns, url@)
                ==> op_refusal(ctx, name, node) is None
            &&& !ctx.granted.contains("net.http_get"@) ==> error_of(op_refusal(ctx, name, node))
                == Some(ErrorView::CapabilityDenied("net.http_get"@))
            &&& ctx.granted.contains("net.http_get"@) && !policy::url_allowed(ctx.patterns, url@)
                ==> error_of(op_refusal(ctx, name, node)) == Some(
                ErrorView::HttpDenied { url: url@ },
            )
        },
        *ctx.payloads[node.0] matches ProfileNode::NetHttpPost { url, .. } ==> {
            &&& ctx.granted.contains("net.http_post"@) && policy::url_allowed(ctx.patterns, url@)
                ==> op_refusal(ctx, name, node) is None
            &&& !ctx.granted.contains("net.http_post"@) ==> error_of(op_refusal(ctx, name, node))
                == Some(ErrorView::CapabilityDenied("net.http_post"@))
            &&& ctx.granted.contains("net.http_post"@) && !policy::url_allowed(ctx.patterns, url@)
                ==> error_of(op_refusal(ctx, name, node)) == Some(
                ErrorView::HttpDenied { url: url@ },
            )
        },
        *ctx.payloads[node.0] matches ProfileNode::MountBind { src, dst, .. } ==> {
            &&& ctx.granted.contains("mount.bind"@) && policy::path_allowed(ctx.roots, src@)
                && policy::path_allowed(ctx.roots, dst@) ==> op_refusal(ctx, name, node) is None
            &&& !ctx.granted.contains("mount.bind"@) ==> error_of(op_refusal(ctx, name, node))
                == Some(ErrorView::CapabilityDenied("mount.bind"@))
            &&& ctx.granted.contains("mount.bind"@) && !policy::path_allowed(ctx.roots, src@)
                ==> error_of(op_refusal(ctx, name, node)) == Some(
                ErrorView::PathDenied { path: src@ },
            )
            &&& ctx.granted.contains("mount.bind"@) && policy::path_allowed(ctx.roots, src@)
                && !policy::path_allowed(ctx.roots, dst@) ==> error_of(op_refusal(ctx, name, node))
                == Some(ErrorView::PathDenied { path: dst@ })
        },
        *ctx.payloads[node.0] matches ProfileNode::MountUmount { path, .. } ==> {
            &&& ctx.granted.contains("mount.umount"@) && policy::path_allowed(ctx.roots, path@)
                ==> op_refusal(ctx, name, node) is None
            &&& !ctx.granted.contains("mount.umount"@) ==> error_of(op_refusal(ctx, name, node))
                == Some(ErrorView::CapabilityDenied("mount.umount"@))
            &&& ctx.granted.contains("mount.umount"@) && !policy::path_allowed(ctx.roots, path@)
                ==> error_of(op_refusal(ctx, name, node)) == Some(
                ErrorView::PathDenied { path: path@ },
            )
        },
{
    reveal_with_fuel(refused_path, 3);
    reveal_with_fuel(refused_url, 2);
    if let ProfileNode::MountBind { src, dst, .. } = *ctx.payloads[node.0] {
        assert(seq![src@, dst@].drop_first() =~= seq![dst@]);
    }
}

/// A transfer between a web address and an allowed path is admitted where
/// `net.transfer` is granted and the address is allowed, in either
/// direction; and it is refused for the capability, the path or the URL,
/// in this order.
pub proof fn law_a_granted_transfer_is_admitted(
    ctx: ContextView,
    name: Text,
    node: NodeId,
    local: Text,
    remote: Text,
)
    requires
        ctx.payloads.contains_key(node.0),
        !is_lifecycle(name),
        *ctx.payloads[node.0] matches ProfileNode::NetTransfer { src, dst, .. } && (src@ == local
            && dst@ == remote || src@ == remote && dst@ == local),
        "https://"@.is_prefix_of(remote) || "http://"@.is_prefix_of(remote),
        !text::holds(local, "://"@),
    ensures
        ctx.granted.contains("net.transfer"@) && policy::path_allowed(ctx.roots, local)
            && policy::url_allowed(ctx.patterns, remote) ==> op_refusal(ctx, name, node) is None,
        !ctx.granted.contains("net.transfer"@) ==> error_of(op_refusal(ctx, name, node)) == Some(
            ErrorView::CapabilityDenied("net.transfer"@),
        ),
        ctx.granted.contains("net.transfer"@) && !policy::path_allowed(ctx.roots, local)
            ==> error_of(op_refusal(ctx, name, node)) == Some(
            ErrorView::PathDenied { path: local },
        ),
        ctx.granted.contains("net.transfer"@) && policy::path_allowed(ctx.roots, local)
            && !policy::url_allowed(ctx.patterns, remote) ==> error_of(
            op_refusal(ctx, name, node),
        ) == Some(ErrorView::HttpDenied { url: remote }),
{
    reveal_with_fuel(refused_path, 2);
    reveal_with_fuel(refused_url, 2);
    demand::law_a_transfer_is_checked_where_it_lands(*ctx.payloads[node.0], local, remote);
}

/// A phase that refers to the profile's own environment is refused for
/// `env.ref` before anything else is looked at, and a node that has no
/// payload before that, in either way of running it.
pub proof fn law_a_reference_needs_its_capability(
    ctx: ContextView,
    name: Text,
    label: Text,
    node: NodeId,
)
    ensures
        !ctx.payloads.contains_key(node.0) ==> error_of(op_refusal(ctx, name, node)) == Some(
            ErrorView::PayloadMissing(node.0),
        ) && error_of(call_refusal(ctx, label, node)) == Some(ErrorView::PayloadMissing(node.0)),
        ctx.payloads.contains_key(node.0) && demand::refers(*ctx.payloads[node.0])
            && !ctx.granted.contains("env.ref"@) ==> error_of(op_refusal(ctx, name, node)) == Some(
            ErrorView::CapabilityDenied("env.ref"@),
        ),
        ctx.payloads.contains_key(node.0) && is_lifecycle(name) && (demand::refers(
            *ctx.payloads[node.0],
        ) ==> ctx.granted.contains("env.ref"@)) ==> op_refusal(ctx, name, node) is None,
{
}

/// The phases that are lists of steps are these fifteen and no other.
pub proof fn law_there_are_fifteen_lists_of_steps(name: Text)
    ensures
        is_lifecycle(name) <==> {
            ||| name == "system_apt"@ || name == "comfyui_install"@
            ||| name == "python_version_check"@ || name == "python_deps"@ || name
                == "custom_nodes"@
            ||| name == "sync_pull"@ || name == "sync_push"@ || name == "staging_push"@
            ||| name == "models"@ || name == "llm_models"@ || name == "post_install"@
            ||| name == "comfyui_restart"@ || name == "comfyui_health"@
            ||| name == "service_start"@ || name == "service_ready"@
        },
        DIRECT_OPS@.len() == 7 && LIFECYCLE_OPS@.len() == 15,
        DIRECT_OPS@[0]@ == "sh_exec"@ && DIRECT_OPS@[1]@ == "fs_write"@ && DIRECT_OPS@[2]@
            == "net_http_get"@ && DIRECT_OPS@[3]@ == "net_http_post"@ && DIRECT_OPS@[4]@
            == "net_transfer"@ && DIRECT_OPS@[5]@ == "mount_bind"@ && DIRECT_OPS@[6]@
            == "mount_umount"@,
{
}

/// A call is routed by its label: a transfer's to `net_transfer`, a GET
/// request's to `net_http_get`, a POST request's to `net_http_post`, and
/// each takes the payload of its own kind and no other. No other label
/// leads anywhere.
pub proof fn law_a_label_leads_to_its_own_op(ctx: ContextView, label: Text, node: NodeId)
    ensures
        op_of_label("net.transfer"@) == Some(("net_transfer"@, "NetTransfer"@)),
        op_of_label("net.http_get"@) == Some(("net_http_get"@, "NetHttpGet"@)),
        op_of_label("net.http_post"@) == Some(("net_http_post"@, "NetHttpPost"@)),
        op_of_label(label) is Some ==> label == "net.transfer"@ || label == "net.http_get"@ || label
            == "net.http_post"@,
        ctx.payloads.contains_key(node.0) ==> ({
            let payload = *ctx.payloads[node.0];
            &&& !(payload is NetTransfer) ==> error_of(call_refusal(ctx, "net.transfer"@, node))
                == Some(ErrorView::PayloadVariant { node: node.0, expected: "NetTransfer"@ })
            &&& payload is NetTransfer ==> call_refusal(ctx, "net.transfer"@, node) == refusal(
                ctx,
                node,
                payload,
            )
            &&& !(payload is NetHttpGet) ==> error_of(call_refusal(ctx, "net.http_get"@, node))
                == Some(ErrorView::PayloadVariant { node: node.0, expected: "NetHttpGet"@ })
            &&& payload is NetHttpGet ==> call_refusal(ctx, "net.http_get"@, node) == refusal(
                ctx,
                node,
                payload,
            )
            &&& !(payload is NetHttpPost) ==> error_of(call_refusal(ctx, "net.http_post"@, node))
                == Some(ErrorView::PayloadVariant { node: node.0, expected: "NetHttpPost"@ })
            &&& payload is NetHttpPost ==> call_refusal(ctx, "net.http_post"@, node) == refusal(
                ctx,
                node,
                payload,
            )
        }),
{
    lemma_labels_differ();
}

/// An entry made one that failed says so, with the sentence of what went
/// wrong; the code of an effect that ended badly stays, and anything else
/// fails with -1. A dry run is marked as one. All else stays as it was.
pub proof fn law_a_failed_entry_says_why(mode: ExecMode, entry: ReportView, error: ErrorView)
    ensures
        ({
            let after = marked(mode, entry, error);
            &&& after.ok == false
            &&& after.status == (if entry.status == 0 {
                -1i64
            } else {
                entry.status
            })
            &&& after.reason == Some(error.sentence())
            &&& mode == ExecMode::DryRun ==> after.dry_run == Some(true)
            &&& mode == ExecMode::Real ==> after.dry_run == entry.dry_run
            &&& after.id == entry.id && after.kind == entry.kind && after.op == entry.op
            &&& after.path == entry.path && after.url == entry.url
            &&& after.src == entry.src && after.dst == entry.dst
            &&& after.stdout == entry.stdout && after.stderr == entry.stderr
            &&& after.bytes == entry.bytes && after.note == entry.note
            &&& after.declared_at == entry.declared_at
        }),
{
}

/// The entry of a phase is called by the number the phase has and its
/// kind, and that of a node that is no phase by its identity.
pub proof fn law_an_entry_is_called_by_its_phase(ctx: ContextView, node: NodeId, error: ErrorView)
    ensures
        !ctx.meta.contains_key(node.0) ==> phase_failure(ctx, node, error).id == "n"@
            + text::decimal(node.0 as nat),
        ctx.meta.contains_key(node.0) && ctx.meta[node.0].0 > 0 ==> phase_failure(
            ctx,
            node,
            error,
        ).id == text::decimal(ctx.meta[node.0].0 as nat) + "_"@ + ctx.meta[node.0].1,
        ctx.meta.contains_key(node.0) ==> phase_failure(ctx, node, error).kind
            == ctx.meta[node.0].1 && phase_failure(ctx, node, error).op == ctx.meta[node.0].1,
{
}

/// The entry of a phase that a list refused says what the phase would
/// have reached.
pub proof fn law_a_refused_target_is_told(
    ctx: ContextView,
    node: NodeId,
    payload: ProfileNode,
    error: ErrorView,
)
    ensures
        ({
            let entry = policy_failure(ctx, node, payload, error);
            &&& payload matches ProfileNode::FsWrite { path, .. } ==> entry.path == Some(path@)
            &&& payload matches ProfileNode::MountUmount { path, .. } ==> entry.path == Some(path@)
            &&& payload matches ProfileNode::NetHttpGet { url, .. } ==> entry.url == Some(url@)
            &&& payload matches ProfileNode::NetHttpPost { url, .. } ==> entry.url == Some(url@)
            &&& payload matches ProfileNode::NetTransfer { src, dst, .. } ==> entry.src == Some(
                src@,
            ) && entry.dst == Some(dst@)
            &&& payload matches ProfileNode::MountBind { src, dst, .. } ==> entry.src == Some(src@)
                && entry.dst == Some(dst@)
            &&& entry.ok == false
            &&& entry.status == -1
        }),
{
}

/// A list of steps is refused for the first of its steps that is refused,
/// and passes where none is.
pub proof fn law_the_first_refused_step_decides(
    ctx: ContextView,
    steps: Seq<PlannedView>,
    at: int,
)
    requires
        0 <= at <= steps.len(),
        forall|i: int| 0 <= i < at ==> step_refusal(ctx, (#[trigger] steps[i]).step) is None,
    ensures
        at == steps.len() ==> steps_refusal(ctx, steps) is None,
        at < steps.len() && step_refusal(ctx, steps[at].step) is Some ==> steps_refusal(ctx, steps)
            == step_refusal(ctx, steps[at].step),
    decreases steps.len(),
{
    if at > 0 {
        let rest = steps.drop_first();
        assert(step_refusal(ctx, steps[0].step) is None);
        assert forall|i: int| 0 <= i < at - 1 implies step_refusal(
            ctx,
            (#[trigger] rest[i]).step,
        ) is None by {
            assert(rest[i] == steps[i + 1]);
        }
        law_the_first_refused_step_decides(ctx, rest, at - 1);
    }
}

/// A step passes exactly where its capability is granted and what it
/// reaches is allowed: a command needs `sh.exec`, a poll `net.http_get`
/// and its URL, a transfer of a web address `net.transfer`, its path and
/// its address, and a note nothing.
pub proof fn law_a_granted_step_passes(ctx: ContextView, step: StepView)
    ensures
        step is Sh ==> (step_refusal(ctx, step) is None <==> ctx.granted.contains("sh.exec"@)),
        step matches StepView::HttpPoll { url, .. } ==> (step_refusal(ctx, step) is None
            <==> ctx.granted.contains("net.http_get"@) && policy::url_allowed(ctx.patterns, url)),
        step is Note ==> step_refusal(ctx, step) is None,
        step matches StepView::Transfer { src, dst } ==> {
            &&& ("https://"@.is_prefix_of(src) || "http://"@.is_prefix_of(src)) && !text::holds(
                dst,
                "://"@,
            ) ==> (step_refusal(ctx, step) is None <==> ctx.granted.contains("net.transfer"@)
                && policy::path_allowed(ctx.roots, dst) && policy::url_allowed(ctx.patterns, src))
            &&& ("https://"@.is_prefix_of(dst) || "http://"@.is_prefix_of(dst)) && !text::holds(
                src,
                "://"@,
            ) ==> (step_refusal(ctx, step) is None <==> ctx.granted.contains("net.transfer"@)
                && policy::path_allowed(ctx.roots, src) && policy::url_allowed(ctx.patterns, dst))
        },
{
    reveal_with_fuel(refused_path, 2);
    reveal_with_fuel(refused_url, 2);
    if let StepView::Transfer { src, dst } = step {
        let payload = arbitrary::<ProfileNode>();
        if ("https://"@.is_prefix_of(src) || "http://"@.is_prefix_of(src)) && !text::holds(
            dst,
            "://"@,
        ) {
            demand::law_a_transfer_is_checked_where_it_lands(payload, dst, src);
        }
        if ("https://"@.is_prefix_of(dst) || "http://"@.is_prefix_of(dst)) && !text::holds(
            src,
            "://"@,
        ) {
            demand::law_a_transfer_is_checked_where_it_lands(payload, src, dst);
        }
    }
}

/// A call that leads nowhere is answered in words that name it.
pub proof fn law_a_call_that_leads_nowhere_is_named(label: Text, node: NodeId, reason: Text)
    ensures
        unknown_call(label) == "no host resolver is registered for the call '"@ + label + "'"@,
        no_call(node, reason) == "the suspension at n"@ + text::decimal(node.0 as nat)
            + " is not a Call ("@ + reason + "); the host resolves Call effects only"@,
{
}

/// A transfer that does not resolve is refused for that, whatever is
/// granted.
pub proof fn law_an_unresolved_transfer_is_refused_first(
    ctx: ContextView,
    name: Text,
    node: NodeId,
)
    requires
        ctx.payloads.contains_key(node.0),
        !is_lifecycle(name),
    ensures
        *ctx.payloads[node.0] matches ProfileNode::NetTransfer { src, dst, .. } ==> (scheme::route(
            "net_transfer"@,
            src@,
            dst@,
        ) matches Err(error) ==> error_of(op_refusal(ctx, name, node)) == Some(error)),
{
}

/// The entry of a payload that is not what its op is for is called by the
/// op that was asked for, and fails with what was expected.
pub proof fn law_an_unfit_payload_is_told(
    ctx: ContextView,
    node: NodeId,
    op: Text,
    expected: Text,
)
    ensures
        ({
            let entry = variant_failure(ctx, node, op, expected);
            &&& entry.op == op && !entry.ok && entry.status == -1
            &&& entry.reason == Some(
                "payload for node n"@ + text::decimal(node.0 as nat) + " is not a "@ + expected
                    + " node"@,
            )
            &&& entry.kind == ctx.meta_of(node).1
        }),
        variant_error(node, expected) == (ErrorView::PayloadVariant { node: node.0, expected }),
{
}

} // verus!
