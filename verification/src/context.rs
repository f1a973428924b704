//! What every op of a run shares: what the profile declares, and what
//! the run has said so far.

use crate::audit::{AuditEvent, EventView};
use crate::capgate;
use crate::capgate::CapabilityGate;
use crate::exec::{ErrorView, ExecError, ExecMode};
use crate::payload;
use crate::payload::{build_payload_map, PayloadMap};
use crate::policy::{HttpPolicy, PathPolicy};
use crate::profile::{NodeId, ProfileNode};
use crate::report;
use crate::report::{ReportView, StepReport};
use crate::steps;
use crate::steps::{PlanView, StepPlan};
use crate::text;
use crate::text::{copy_list, Text};
use std::collections::HashMap;
use vstd::prelude::*;

verus! {

/// What a node is called in reports.
pub open spec fn kind_name(node: ProfileNode) -> Text {
    match node {
        ProfileNode::Spec { .. } => "spec"@,
        ProfileNode::ShExec { .. } => "sh.exec"@,
        ProfileNode::FsWrite { .. } => "fs.write"@,
        ProfileNode::NetHttpGet { .. } => "net.http_get"@,
        ProfileNode::NetHttpPost { .. } => "net.http_post"@,
        ProfileNode::NetTransfer { .. } => "net.transfer"@,
        ProfileNode::MountBind { .. } => "mount.bind"@,
        ProfileNode::MountUmount { .. } => "mount.umount"@,
        ProfileNode::SystemApt { .. } => "system.apt"@,
        ProfileNode::ComfyUiInstall { .. } => "comfyui.install"@,
        ProfileNode::PythonVersionCheck { .. } => "python.version_check"@,
        ProfileNode::PythonDeps { .. } => "python.deps"@,
        ProfileNode::CustomNodes { .. } => "custom_nodes"@,
        ProfileNode::SyncPull { .. } => "sync.pull"@,
        ProfileNode::SyncPush { .. } => "sync.push"@,
        ProfileNode::StagingPush { .. } => "staging.push"@,
        ProfileNode::Models { .. } => "models"@,
        ProfileNode::LlmModels { .. } => "llm_models"@,
        ProfileNode::PostInstall { .. } => "hooks.post_install"@,
        ProfileNode::ComfyUiRestart { .. } => "comfyui.restart"@,
        ProfileNode::ComfyUiHealth { .. } => "comfyui.health"@,
        ProfileNode::ServiceStart { .. } => "service.start"@,
        ProfileNode::ServiceReady { .. } => "service.ready"@,
        ProfileNode::EnvSecret { .. } => "env.secret"@,
        ProfileNode::EnvLiteral { .. } => "env.literal"@,
        ProfileNode::EnvRef { .. } => "env.ref"@,
    }
}

/// What a node is called in reports.
pub fn kind_of(node: &ProfileNode) -> (r: &'static str)
    ensures
        r@ == kind_name(*node),
{
    match node {
        ProfileNode::Spec { .. } => "spec",
        ProfileNode::ShExec { .. } => "sh.exec",
        ProfileNode::FsWrite { .. } => "fs.write",
        ProfileNode::NetHttpGet { .. } => "net.http_get",
        ProfileNode::NetHttpPost { .. } => "net.http_post",
        ProfileNode::NetTransfer { .. } => "net.transfer",
        ProfileNode::MountBind { .. } => "mount.bind",
        ProfileNode::MountUmount { .. } => "mount.umount",
        ProfileNode::SystemApt { .. } => "system.apt",
        ProfileNode::ComfyUiInstall { .. } => "comfyui.install",
        ProfileNode::PythonVersionCheck { .. } => "python.version_check",
        ProfileNode::PythonDeps { .. } => "python.deps",
        ProfileNode::CustomNodes { .. } => "custom_nodes",
        ProfileNode::SyncPull { .. } => "sync.pull",
        ProfileNode::SyncPush { .. } => "sync.push",
        ProfileNode::StagingPush { .. } => "staging.push",
        ProfileNode::Models { .. } => "models",
        ProfileNode::LlmModels { .. } => "llm_models",
        ProfileNode::PostInstall { .. } => "hooks.post_install",
        ProfileNode::ComfyUiRestart { .. } => "comfyui.restart",
        ProfileNode::ComfyUiHealth { .. } => "comfyui.health",
        ProfileNode::ServiceStart { .. } => "service.start",
        ProfileNode::ServiceReady { .. } => "service.ready",
        ProfileNode::EnvSecret { .. } => "env.secret",
        ProfileNode::EnvLiteral { .. } => "env.literal",
        ProfileNode::EnvRef { .. } => "env.ref",
    }
}

/// What every op of a run shares.
pub struct ExecContext<'a> {
    /// Whether effects run.
    pub mode: ExecMode,
    /// The declared capabilities.
    pub gate: CapabilityGate,
    /// The declared paths.
    pub path_policy: PathPolicy,
    /// The declared URLs.
    pub http_policy: HttpPolicy,
    /// The nodes of the profile by identity.
    pub payloads: PayloadMap<'a>,
    /// The steps of the lifecycle phases.
    pub step_plan: &'a StepPlan,
    /// The number, counted from one, and the kind of every phase.
    pub phase_meta: HashMap<u64, (usize, String)>,
    /// One line for each phase or step that was run.
    pub log: Vec<String>,
    /// One entry for each step.
    pub reports: Vec<StepReport>,
    /// What the audit transcript says.
    pub audits: Vec<AuditEvent>,
}

/// The model of an [`ExecContext`].
#[verifier::ext_equal]
pub struct ContextView<'a> {
    pub mode: ExecMode,
    pub granted: Set<Text>,
    pub roots: Seq<Text>,
    pub patterns: Seq<Text>,
    pub payloads: Map<u64, &'a ProfileNode>,
    pub plan: PlanView,
    pub meta: Map<u64, (usize, Text)>,
    pub log: Seq<Text>,
    pub reports: Seq<ReportView>,
    pub audits: Seq<EventView>,
}

/// The models of a list of events.
pub open spec fn events(audits: Seq<AuditEvent>) -> Seq<EventView> {
    Seq::new(audits.len(), |i: int| audits[i]@)
}

impl<'a> View for ExecContext<'a> {
    type V = ContextView<'a>;

    open spec fn view(&self) -> ContextView<'a> {
        ContextView {
            mode: self.mode,
            granted: self.gate.granted(),
            roots: self.path_policy.roots(),
            patterns: self.http_policy.patterns(),
            payloads: self.payloads@,
            plan: self.step_plan@,
            meta: self.phase_meta@.map_values(|m: (usize, String)| (m.0, m.1@)),
            log: text::texts(self.log@),
            reports: report::entries(self.reports@),
            audits: events(self.audits@),
        }
    }
}

impl<'a> ContextView<'a> {
    /// The context after one more line.
    pub open spec fn with_line(self, line: Text) -> Self {
        ContextView { log: self.log.push(line), ..self }
    }

    /// The context after one more entry.
    pub open spec fn with_report(self, entry: ReportView) -> Self {
        ContextView { reports: self.reports.push(entry), ..self }
    }

    /// The context after one more event.
    pub open spec fn with_audit(self, event: EventView) -> Self {
        ContextView { audits: self.audits.push(event), ..self }
    }

    /// The number and the kind of a phase; zero and nothing for a node
    /// that is none.
    pub open spec fn meta_of(self, node: NodeId) -> (usize, Text) {
        if self.meta.contains_key(node.0) {
            self.meta[node.0]
        } else {
            (0, Seq::empty())
        }
    }

    /// Whether a later context differs only in what the run has said, and
    /// has said all that this one has.
    pub open spec fn goes_on_as(self, later: Self) -> bool {
        &&& later == (ContextView {
            log: later.log,
            reports: later.reports,
            audits: later.audits,
            ..self
        })
        &&& self.log.is_prefix_of(later.log)
        &&& self.reports.is_prefix_of(later.reports)
        &&& self.audits.is_prefix_of(later.audits)
    }
}

/// Saying one thing more of each sort takes back nothing.
pub proof fn lemma_saying_more<'a>(ctx: ContextView<'a>)
    ensures
        forall|line: Text| ctx.log.is_prefix_of(#[trigger] ctx.log.push(line)),
        forall|entry: ReportView| ctx.reports.is_prefix_of(#[trigger] ctx.reports.push(entry)),
        forall|event: EventView| ctx.audits.is_prefix_of(#[trigger] ctx.audits.push(event)),
        ctx.log.is_prefix_of(ctx.log),
        ctx.reports.is_prefix_of(ctx.reports),
        ctx.audits.is_prefix_of(ctx.audits),
{
    assert forall|line: Text| ctx.log.is_prefix_of(#[trigger] ctx.log.push(line)) by {
        assert(ctx.log =~= ctx.log.push(line).subrange(0, ctx.log.len() as int));
    }
    assert forall|entry: ReportView| ctx.reports.is_prefix_of(
        #[trigger] ctx.reports.push(entry),
    ) by {
        assert(ctx.reports =~= ctx.reports.push(entry).subrange(0, ctx.reports.len() as int));
    }
    assert forall|event: EventView| ctx.audits.is_prefix_of(#[trigger] ctx.audits.push(event)) by {
        assert(ctx.audits =~= ctx.audits.push(event).subrange(0, ctx.audits.len() as int));
    }
    assert(ctx.log =~= ctx.log.subrange(0, ctx.log.len() as int));
    assert(ctx.reports =~= ctx.reports.subrange(0, ctx.reports.len() as int));
    assert(ctx.audits =~= ctx.audits.subrange(0, ctx.audits.len() as int));
}

/// The number and the kind of every phase, by identity.
pub open spec fn meta_for(phases: Seq<ProfileNode>) -> Map<u64, (usize, Text)>
    decreases phases.len(),
{
    if phases.len() == 0 {
        Map::empty()
    } else {
        meta_for(phases.drop_last()).insert(
            phases.last().id().0,
            (phases.len() as usize, kind_name(phases.last())),
        )
    }
}

/// What a profile declares: capabilities, paths and URLs. A root of any
/// other kind declares nothing.
pub open spec fn declared_by(root: ProfileNode) -> (Seq<Text>, Seq<Text>, Seq<Text>) {
    match root {
        ProfileNode::Spec { capabilities, paths, http_allowlist, .. } => (
            text::texts(capabilities@),
            text::texts(paths@),
            text::texts(http_allowlist@),
        ),
        _ => (Seq::empty(), Seq::empty(), Seq::empty()),
    }
}

/// The context a run of a profile begins with.
pub open spec fn opening<'a>(
    root: ProfileNode,
    mode: ExecMode,
    log: Seq<Text>,
    plan: PlanView,
) -> ContextView<'a> {
    let (capabilities, paths, urls) = declared_by(root);
    ContextView {
        mode,
        granted: capabilities.to_set(),
        roots: paths,
        patterns: urls,
        payloads: payload::payloads_of(root),
        plan,
        meta: meta_for(steps::phases_of(root)),
        log,
        reports: Seq::empty(),
        audits: Seq::empty(),
    }
}

/// The number and the kind of every phase.
fn build_meta(phases: &Vec<ProfileNode>) -> (r: HashMap<u64, (usize, String)>)
    ensures
        r@.map_values(|m: (usize, String)| (m.0, m.1@)) == meta_for(phases@),
{
    broadcast use vstd::std_specs::hash::group_hash_axioms;

    let mut meta: HashMap<u64, (usize, String)> = HashMap::new();
    let mut i: usize = 0;
    proof {
        assert(phases@.take(0) =~= Seq::<ProfileNode>::empty());
        assert(meta@.map_values(|m: (usize, String)| (m.0, m.1@)) =~= Map::<
            u64,
            (usize, Text),
        >::empty());
    }
    while i < phases.len()
        invariant
            i <= phases@.len(),
            meta@.map_values(|m: (usize, String)| (m.0, m.1@)) == meta_for(phases@.take(i as int)),
        decreases phases@.len() - i,
    {
        let ghost known = meta@;
        let phase = &phases[i];
        let kind = kind_of(phase).to_owned();
        meta.insert(phase.node_id().0, (i + 1, kind));
        proof {
            let upto = phases@.take(i + 1);
            assert(upto.drop_last() =~= phases@.take(i as int));
            assert(meta@.map_values(|m: (usize, String)| (m.0, m.1@)) =~= known.map_values(
                |m: (usize, String)| (m.0, m.1@),
            ).insert(phase.id().0, ((i + 1) as usize, kind@)));
        }
        i = i + 1;
    }
    assert(phases@.take(i as int) =~= phases@);
    meta
}

impl<'a> ExecContext<'a> {
    /// The context of a run of the profile `root`, going on from `log`.
    ///
    /// A declared capability that no host implements is refused here,
    /// before any op runs.
    pub fn from_root(
        root: &'a ProfileNode,
        mode: ExecMode,
        log: Vec<String>,
        step_plan: &'a StepPlan,
    ) -> (r: Result<Self, ExecError>)
        ensures
            match r {
                Ok(ctx) => {
                    &&& capgate::first_unknown(declared_by(*root).0) is None
                    &&& ctx@ == opening(*root, mode, text::texts(log@), step_plan@)
                },
                Err(error) => {
                    &&& capgate::first_unknown(declared_by(*root).0) is Some
                    &&& error@ == ErrorView::CapabilityUnknown(
                        capgate::first_unknown(declared_by(*root).0)->0,
                    )
                },
            },
    {
        let no_phases: Vec<ProfileNode> = Vec::new();
        let (declared, paths, http_allowlist, meta) = match root {
            ProfileNode::Spec { capabilities, paths, http_allowlist, phases, .. } => (
                copy_list(capabilities),
                copy_list(paths),
                copy_list(http_allowlist),
                build_meta(phases),
            ),
            _ => (Vec::new(), Vec::new(), Vec::new(), build_meta(&no_phases)),
        };
        proof {
            let (a, b, c) = declared_by(*root);
            assert(text::texts(declared@) =~= a);
            assert(text::texts(paths@) =~= b);
            assert(text::texts(http_allowlist@) =~= c);
            assert(meta_for(steps::phases_of(*root)) == meta@.map_values(
                |m: (usize, String)| (m.0, m.1@),
            ));
        }
        let gate = CapabilityGate::build(&declared)?;
        let path_policy = PathPolicy::new(&paths);
        let http_policy = HttpPolicy::new(&http_allowlist);
        let payloads = build_payload_map(root);
        let ctx = ExecContext {
            mode,
            gate,
            path_policy,
            http_policy,
            payloads,
            step_plan,
            phase_meta: meta,
            log,
            reports: Vec::new(),
            audits: Vec::new(),
        };
        proof {
            assert(ctx@.reports =~= Seq::<ReportView>::empty());
            assert(ctx@.audits =~= Seq::<EventView>::empty());
        }
        Ok(ctx)
    }

    /// The entries of the run so far.
    pub fn reports_handle(&self) -> (r: &Vec<StepReport>)
        ensures
            report::entries(r@) == self@.reports,
    {
        &self.reports
    }

    /// The number and the kind of a phase.
    pub fn phase_meta_of(&self, node: NodeId) -> (r: (usize, String))
        ensures
            (r.0, r.1@) == self@.meta_of(node),
    {
        broadcast use vstd::std_specs::hash::group_hash_axioms;

        match self.phase_meta.get(&node.0) {
            Some(meta) => (meta.0, meta.1.clone()),
            None => {
                let none = String::new();
                assert(none@ =~= Seq::<char>::empty());
                (0, none)
            },
        }
    }

    /// Say one more line, and give it as the value of what was run.
    pub fn record_line(&mut self, line: String) -> (r: String)
        ensures
            final(self)@ == old(self)@.with_line(line@),
            r@ == line@,
    {
        let ghost before = text::texts(self.log@);
        self.log.push(line.clone());
        assert(text::texts(self.log@) =~= before.push(line@));
        line
    }

    /// Add one more entry.
    pub fn push_report(&mut self, entry: StepReport)
        ensures
            final(self)@ == old(self)@.with_report(entry@),
    {
        let ghost before = report::entries(self.reports@);
        self.reports.push(entry);
        assert(report::entries(self.reports@) =~= before.push(entry@));
    }

    /// Add one more event.
    pub fn push_audit(&mut self, event: AuditEvent)
        ensures
            final(self)@ == old(self)@.with_audit(event@),
    {
        let ghost before = events(self.audits@);
        self.audits.push(event);
        assert(events(self.audits@) =~= before.push(event@));
    }
}

/// A phase is found under its own number: the one it has among the
/// phases, counted from one.
pub proof fn law_phases_are_numbered_as_declared(phases: Seq<ProfileNode>, i: int)
    requires
        phases.len() <= usize::MAX,
        steps::distinct(phases),
        0 <= i < phases.len(),
    ensures
        meta_for(phases).contains_key(phases[i].id().0),
        meta_for(phases)[phases[i].id().0] == ((i + 1) as usize, kind_name(phases[i])),
    decreases phases.len(),
{
    if i < phases.len() - 1 {
        let before = phases.drop_last();
        assert(steps::distinct(before)) by {
            assert forall|a: int, b: int| 0 <= a < b < before.len() implies (
            #[trigger] before[a]).id() != (#[trigger] before[b]).id() by {
                assert(before[a] == phases[a] && before[b] == phases[b]);
            }
        }
        law_phases_are_numbered_as_declared(before, i);
        assert(before[i] == phases[i]);
        assert(phases[i].id() != phases[phases.len() - 1].id());
    }
}

/// Every phase is called by the name profiles write it with.
pub proof fn law_a_phase_is_called_as_it_is_written(node: ProfileNode)
    ensures
        node is ShExec ==> kind_name(node) == "sh.exec"@,
        node is FsWrite ==> kind_name(node) == "fs.write"@,
        node is NetHttpGet ==> kind_name(node) == "net.http_get"@,
        node is NetHttpPost ==> kind_name(node) == "net.http_post"@,
        node is NetTransfer ==> kind_name(node) == "net.transfer"@,
        node is MountBind ==> kind_name(node) == "mount.bind"@,
        node is MountUmount ==> kind_name(node) == "mount.umount"@,
        node is SystemApt ==> kind_name(node) == "system.apt"@,
        node is ComfyUiInstall ==> kind_name(node) == "comfyui.install"@,
        node is PythonVersionCheck ==> kind_name(node) == "python.version_check"@,
        node is PythonDeps ==> kind_name(node) == "python.deps"@,
        node is CustomNodes ==> kind_name(node) == "custom_nodes"@,
        node is SyncPull ==> kind_name(node) == "sync.pull"@,
        node is SyncPush ==> kind_name(node) == "sync.push"@,
        node is StagingPush ==> kind_name(node) == "staging.push"@,
        node is Models ==> kind_name(node) == "models"@,
        node is LlmModels ==> kind_name(node) == "llm_models"@,
        node is PostInstall ==> kind_name(node) == "hooks.post_install"@,
        node is ComfyUiRestart ==> kind_name(node) == "comfyui.restart"@,
        node is ComfyUiHealth ==> kind_name(node) == "comfyui.health"@,
        node is ServiceStart ==> kind_name(node) == "service.start"@,
        node is ServiceReady ==> kind_name(node) == "service.ready"@,
        node is Spec ==> kind_name(node) == "spec"@,
        node is EnvSecret ==> kind_name(node) == "env.secret"@,
        node is EnvLiteral ==> kind_name(node) == "env.literal"@,
        node is EnvRef ==> kind_name(node) == "env.ref"@,
{
}

/// A run begins with what its profile declares and nothing else: each
/// capability, root and pattern it lists, and no report and no event.
pub proof fn law_a_run_opens_with_what_is_declared<'a>(
    root: ProfileNode,
    mode: ExecMode,
    log: Seq<Text>,
    plan: PlanView,
    name: Text,
)
    ensures
        ({
            let ctx = opening::<'a>(root, mode, log, plan);
            &&& root matches ProfileNode::Spec { capabilities, paths, http_allowlist, .. } ==> {
                &&& ctx.granted.contains(name) <==> exists|i: int|
                    0 <= i < capabilities@.len() && (#[trigger] capabilities@[i])@ == name
                &&& ctx.roots.len() == paths@.len()
                &&& forall|i: int| 0 <= i < paths@.len() ==> #[trigger] ctx.roots[i] == paths@[i]@
                &&& ctx.patterns.len() == http_allowlist@.len()
                &&& forall|i: int|
                    0 <= i < http_allowlist@.len() ==> #[trigger] ctx.patterns[i]
                        == http_allowlist@[i]@
            }
            &&& !(root is Spec) ==> !ctx.granted.contains(name) && ctx.roots.len() == 0
                && ctx.patterns.len() == 0
            &&& ctx.mode == mode
            &&& ctx.log == log
            &&& ctx.reports.len() == 0
            &&& ctx.audits.len() == 0
        }),
{
    if let ProfileNode::Spec { capabilities, .. } = root {
        let listed = text::texts(capabilities@);
        if listed.contains(name) {
            let i = listed.index_of(name);
            assert(capabilities@[i]@ == name);
        }
        if exists|i: int| 0 <= i < capabilities@.len() && (#[trigger] capabilities@[i])@ == name {
            let i = choose|i: int|
                0 <= i < capabilities@.len() && (#[trigger] capabilities@[i])@ == name;
            assert(listed[i] == name);
        }
    }
}

} // verus!
