//! The steps of every lifecycle phase, each under a node identity of its
//! own.
//!
//! A lifecycle phase is one node that stands for a list of things to do.
//! A [`StepPlan`] gives each of them an identity, so that a run can stop
//! at every step and find the step again by the identity alone.

use crate::admission;
use crate::exec::ErrorView;
use crate::lifecycle;
use crate::lifecycle::{expand, PlannedStep, PlannedView};
use crate::profile;
use crate::profile::{NodeId, ProfileNode};
use crate::text;
use crate::text::Text;
use std::collections::HashMap;
use vstd::prelude::*;

verus! {

/// The name of the op that runs a lifecycle phase.
pub open spec fn op_name(node: ProfileNode) -> Option<Text> {
    match node {
        ProfileNode::SystemApt { .. } => Some("system_apt"@),
        ProfileNode::ComfyUiInstall { .. } => Some("comfyui_install"@),
        ProfileNode::PythonVersionCheck { .. } => Some("python_version_check"@),
        ProfileNode::PythonDeps { .. } => Some("python_deps"@),
        ProfileNode::CustomNodes { .. } => Some("custom_nodes"@),
        ProfileNode::SyncPull { .. } => Some("sync_pull"@),
        ProfileNode::SyncPush { .. } => Some("sync_push"@),
        ProfileNode::StagingPush { .. } => Some("staging_push"@),
        ProfileNode::Models { .. } => Some("models"@),
        ProfileNode::LlmModels { .. } => Some("llm_models"@),
        ProfileNode::PostInstall { .. } => Some("post_install"@),
        ProfileNode::ComfyUiRestart { .. } => Some("comfyui_restart"@),
        ProfileNode::ComfyUiHealth { .. } => Some("comfyui_health"@),
        ProfileNode::ServiceStart { .. } => Some("service_start"@),
        ProfileNode::ServiceReady { .. } => Some("service_ready"@),
        _ => None,
    }
}

/// The name of the op that runs a lifecycle phase; none for any other
/// node.
pub fn lifecycle_op_name(node: &ProfileNode) -> (r: Option<&'static str>)
    ensures
        text::opt_str(r) == op_name(*node),
{
    match node {
        ProfileNode::SystemApt { .. } => Some("system_apt"),
        ProfileNode::ComfyUiInstall { .. } => Some("comfyui_install"),
        ProfileNode::PythonVersionCheck { .. } => Some("python_version_check"),
        ProfileNode::PythonDeps { .. } => Some("python_deps"),
        ProfileNode::CustomNodes { .. } => Some("custom_nodes"),
        ProfileNode::SyncPull { .. } => Some("sync_pull"),
        ProfileNode::SyncPush { .. } => Some("sync_push"),
        ProfileNode::StagingPush { .. } => Some("staging_push"),
        ProfileNode::Models { .. } => Some("models"),
        ProfileNode::LlmModels { .. } => Some("llm_models"),
        ProfileNode::PostInstall { .. } => Some("post_install"),
        ProfileNode::ComfyUiRestart { .. } => Some("comfyui_restart"),
        ProfileNode::ComfyUiHealth { .. } => Some("comfyui_health"),
        ProfileNode::ServiceStart { .. } => Some("service_start"),
        ProfileNode::ServiceReady { .. } => Some("service_ready"),
        _ => None,
    }
}

// ---------------------------------------------------------------------
// The highest identity of a tree
// ---------------------------------------------------------------------

/// The larger of two numbers.
pub open spec fn larger(a: u64, b: u64) -> u64 {
    if a < b {
        b
    } else {
        a
    }
}

/// The highest identity in a list of nodes.
pub open spec fn highest(nodes: Seq<ProfileNode>) -> u64
    decreases nodes.len(),
{
    if nodes.len() == 0 {
        0
    } else {
        larger(highest(nodes.drop_last()), nodes.last().id().0)
    }
}

/// The highest identity in two lists is the larger of the two.
proof fn lemma_highest_joined(first: Seq<ProfileNode>, second: Seq<ProfileNode>)
    ensures
        highest(first + second) == larger(highest(first), highest(second)),
    decreases second.len(),
{
    if second.len() == 0 {
        assert(first + second =~= first);
    } else {
        lemma_highest_joined(first, second.drop_last());
        assert((first + second).drop_last() =~= first + second.drop_last());
    }
}

/// No node of a list has an identity above its highest.
proof fn lemma_highest(nodes: Seq<ProfileNode>, i: int)
    requires
        0 <= i < nodes.len(),
    ensures
        nodes[i].id().0 <= highest(nodes),
    decreases nodes.len(),
{
    if i < nodes.len() - 1 {
        lemma_highest(nodes.drop_last(), i);
    }
}

fn larger_of(a: u64, b: u64) -> (r: u64)
    ensures
        r == larger(a, b),
{
    if a < b {
        b
    } else {
        a
    }
}

/// The highest identity in a tree.
pub fn max_node_id(node: &ProfileNode) -> (r: u64)
    ensures
        r == highest(profile::preorder(*node)),
    decreases node,
{
    let own = node.node_id().0;
    let ghost own_node = seq![*node];
    proof {
        assert(own_node.drop_last() =~= Seq::<ProfileNode>::empty());
        assert(highest(own_node.drop_last()) == 0);
        assert(highest(own_node) == own);
    }
    match node {
        ProfileNode::Spec { env, phases, .. } => {
            let slots = max_in_slots(&env.entries);
            let rest = max_in_list(phases);
            proof {
                let inner = profile::preorder_slots(env.entries@);
                lemma_highest_joined(own_node, inner);
                lemma_highest_joined(own_node + inner, profile::preorder_list(phases@));
            }
            larger_of(larger_of(own, slots), rest)
        },
        ProfileNode::ShExec { env, .. } => {
            let slots = max_in_slots(&env.entries);
            proof {
                lemma_highest_joined(own_node, profile::preorder_slots(env.entries@));
            }
            larger_of(own, slots)
        },
        ProfileNode::SyncPull { env, .. } => {
            let slots = max_in_slots(&env.entries);
            proof {
                lemma_highest_joined(own_node, profile::preorder_slots(env.entries@));
            }
            larger_of(own, slots)
        },
        ProfileNode::StagingPush { env, .. } => {
            let slots = max_in_slots(&env.entries);
            proof {
                lemma_highest_joined(own_node, profile::preorder_slots(env.entries@));
            }
            larger_of(own, slots)
        },
        ProfileNode::FsWrite { content, .. } => {
            let inner = max_node_id(content);
            proof {
                lemma_highest_joined(own_node, profile::preorder(**content));
            }
            larger_of(own, inner)
        },
        ProfileNode::NetHttpGet { headers, .. } => {
            let slots = max_in_slots(&headers.entries);
            proof {
                lemma_highest_joined(own_node, profile::preorder_slots(headers.entries@));
            }
            larger_of(own, slots)
        },
        ProfileNode::NetHttpPost { headers, body, .. } => {
            let slots = max_in_slots(&headers.entries);
            let ghost outer = own_node + profile::preorder_slots(headers.entries@);
            proof {
                lemma_highest_joined(own_node, profile::preorder_slots(headers.entries@));
            }
            match body {
                Some(body) => {
                    let inner = max_node_id(body);
                    proof {
                        lemma_highest_joined(outer, profile::preorder(**body));
                    }
                    larger_of(larger_of(own, slots), inner)
                },
                None => {
                    assert(outer + Seq::<ProfileNode>::empty() =~= outer);
                    larger_of(own, slots)
                },
            }
        },
        _ => own,
    }
}

/// The highest identity among the value nodes of a slot.
fn max_in_slots(entries: &Vec<(String, ProfileNode)>) -> (r: u64)
    ensures
        r == highest(profile::preorder_slots(entries@)),
    decreases entries,
{
    let mut max: u64 = 0;
    let mut i: usize = 0;
    assert(entries@.take(0) =~= Seq::<(String, ProfileNode)>::empty());
    while i < entries.len()
        invariant
            i <= entries@.len(),
            max == highest(profile::preorder_slots(entries@.take(i as int))),
        decreases entries@.len() - i,
    {
        let inner = max_node_id(&entries[i].1);
        proof {
            let upto = entries@.take(i + 1);
            assert(upto.drop_last() =~= entries@.take(i as int));
            lemma_highest_joined(
                profile::preorder_slots(entries@.take(i as int)),
                profile::preorder(entries@[i as int].1),
            );
        }
        max = larger_of(max, inner);
        i = i + 1;
    }
    assert(entries@.take(i as int) =~= entries@);
    max
}

/// The highest identity in a list of trees.
fn max_in_list(nodes: &Vec<ProfileNode>) -> (r: u64)
    ensures
        r == highest(profile::preorder_list(nodes@)),
    decreases nodes,
{
    let mut max: u64 = 0;
    let mut i: usize = 0;
    assert(nodes@.take(0) =~= Seq::<ProfileNode>::empty());
    while i < nodes.len()
        invariant
            i <= nodes@.len(),
            max == highest(profile::preorder_list(nodes@.take(i as int))),
        decreases nodes@.len() - i,
    {
        let inner = max_node_id(&nodes[i]);
        proof {
            let upto = nodes@.take(i + 1);
            assert(upto.drop_last() =~= nodes@.take(i as int));
            lemma_highest_joined(
                profile::preorder_list(nodes@.take(i as int)),
                profile::preorder(nodes@[i as int]),
            );
        }
        max = larger_of(max, inner);
        i = i + 1;
    }
    assert(nodes@.take(i as int) =~= nodes@);
    max
}

// ---------------------------------------------------------------------
// The plan
// ---------------------------------------------------------------------

/// One lifecycle phase's steps, each with its identity.
#[derive(Debug)]
pub struct PhaseSteps {
    /// The op that runs the phase.
    pub op: &'static str,
    /// The steps, in the order they run.
    pub steps: Vec<PlannedStep>,
    /// The identity of each step.
    pub nodes: Vec<NodeId>,
}

/// The model of a [`PhaseSteps`].
pub struct PhaseView {
    pub op: Text,
    pub steps: Seq<PlannedView>,
    pub nodes: Seq<NodeId>,
}

impl View for PhaseSteps {
    type V = PhaseView;

    open spec fn view(&self) -> PhaseView {
        PhaseView {
            op: self.op@,
            steps: lifecycle::planned_views(self.steps@),
            nodes: self.nodes@,
        }
    }
}

/// Where a step sits: the phase that composed it, and its number within
/// the phase, counted from one.
#[derive(Debug, Clone, Copy, PartialEq, Eq)]
pub struct StepRef {
    pub phase: NodeId,
    pub index: usize,
}

/// Every lifecycle phase's steps.
#[derive(Debug)]
pub struct StepPlan {
    phases: HashMap<u64, PhaseSteps>,
    steps: HashMap<u64, StepRef>,
    order: Vec<NodeId>,
}

/// The model of a [`StepPlan`]: the phases by identity, and where the
/// step of each identity sits.
pub struct PlanView {
    pub phases: Map<u64, PhaseView>,
    pub steps: Map<u64, StepRef>,
}

impl View for StepPlan {
    type V = PlanView;

    closed spec fn view(&self) -> PlanView {
        PlanView { phases: self.phases@.map_values(|p: PhaseSteps| p@), steps: self.steps@ }
    }
}

/// The steps a phase is projected into: none where it is no lifecycle
/// phase, or where its expansion failed.
#[verifier::opaque]
pub open spec fn projects(phase: ProfileNode) -> Seq<PlannedView> {
    match lifecycle::expansion(phase) {
        Ok(steps) => if op_name(phase) is Some {
            steps
        } else {
            Seq::empty()
        },
        Err(_) => Seq::empty(),
    }
}

/// How many steps a list of phases is projected into.
pub open spec fn step_count(phases: Seq<ProfileNode>) -> nat
    decreases phases.len(),
{
    if phases.len() == 0 {
        0
    } else {
        step_count(phases.drop_last()) + projects(phases.last()).len()
    }
}

/// `count` identities in a row.
pub open spec fn numbered(from: int, count: nat) -> Seq<NodeId> {
    Seq::new(count, |k: int| NodeId((from + k) as u64))
}

/// `known`, and under each of `count` identities in a row where that step
/// of the phase sits.
pub open spec fn located(
    known: Map<u64, StepRef>,
    phase: NodeId,
    from: int,
    count: nat,
) -> Map<u64, StepRef>
    decreases count,
{
    if count == 0 {
        known
    } else {
        located(known, phase, from, (count - 1) as nat).insert(
            (from + count - 1) as u64,
            StepRef { phase, index: count as usize },
        )
    }
}

/// The plan of a list of phases, identities handed out from `from` on in
/// declaration order. A phase without steps is left out.
pub open spec fn projected(phases: Seq<ProfileNode>, from: int) -> PlanView
    decreases phases.len(),
{
    if phases.len() == 0 {
        PlanView { phases: Map::empty(), steps: Map::empty() }
    } else {
        let before = projected(phases.drop_last(), from);
        let phase = phases.last();
        let steps = projects(phase);
        let start = from + step_count(phases.drop_last());
        if steps.len() == 0 {
            before
        } else {
            PlanView {
                phases: before.phases.insert(
                    phase.id().0,
                    PhaseView {
                        op: op_name(phase)->0,
                        steps,
                        nodes: numbered(start, steps.len()),
                    },
                ),
                steps: located(before.steps, phase.id(), start, steps.len()),
            }
        }
    }
}

/// The phases of a profile.
pub open spec fn phases_of(root: ProfileNode) -> Seq<ProfileNode> {
    match root {
        ProfileNode::Spec { phases, .. } => phases@,
        _ => Seq::empty(),
    }
}

/// The first identity that a plan hands out: the one after the highest
/// of the tree.
pub open spec fn first_free(root: ProfileNode) -> int {
    highest(profile::preorder(root)) + 1
}

/// Whether there are identities for all steps of a profile.
pub open spec fn has_room_for(root: ProfileNode) -> bool {
    phases_of(root).len() == 0 || first_free(root) + step_count(phases_of(root)) <= u64::MAX
}

/// A longer list of phases has no fewer steps.
proof fn lemma_count_grows(phases: Seq<ProfileNode>, n: int)
    requires
        0 <= n <= phases.len(),
    ensures
        step_count(phases.take(n)) <= step_count(phases),
    decreases phases.len() - n,
{
    if n == phases.len() {
        assert(phases.take(n) =~= phases);
    } else {
        lemma_count_grows(phases, n + 1);
        assert(phases.take(n + 1).drop_last() =~= phases.take(n));
    }
}

impl Default for StepPlan {
    /// A plan without phases.
    fn default() -> (r: Self)
        ensures
            r.wf(),
            r@.phases == Map::<u64, PhaseView>::empty(),
            r@.steps == Map::<u64, StepRef>::empty(),
    {
        broadcast use vstd::std_specs::hash::group_hash_axioms;

        let r = StepPlan { phases: HashMap::new(), steps: HashMap::new(), order: Vec::new() };
        assert(r@.phases =~= Map::<u64, PhaseView>::empty());
        r
    }
}

impl StepPlan {
    /// The listed phases are those that the plan holds, each once.
    pub closed spec fn wf(&self) -> bool {
        &&& self.phases@.dom().finite()
        &&& self.order@.len() == self.phases@.dom().len()
        &&& forall|i: int|
            0 <= i < self.order@.len() ==> self.phases@.contains_key(
                (#[trigger] self.order@[i]).0,
            )
        &&& forall|i: int, j: int|
            0 <= i < j < self.order@.len() ==> (#[trigger] self.order@[i]).0 != (
            #[trigger] self.order@[j]).0
    }

    /// Whether there are identities for all steps of a profile.
    pub fn has_room(root: &ProfileNode) -> (r: bool)
        ensures
            r == has_room_for(*root),
    {
        let phases = match root {
            ProfileNode::Spec { phases, .. } => phases,
            _ => {
                return true;
            },
        };
        if phases.len() == 0 {
            return true;
        }
        let highest_id = max_node_id(root);
        if highest_id == u64::MAX {
            return false;
        }
        let mut next: u64 = highest_id + 1;
        let mut i: usize = 0;
        assert(phases@.take(0) =~= Seq::<ProfileNode>::empty());
        while i < phases.len()
            invariant
                i <= phases@.len(),
                phases@ == phases_of(*root),
                phases@.len() > 0,
                next == first_free(*root) + step_count(phases@.take(i as int)),
            decreases phases@.len() - i,
        {
            let count = step_total(&phases[i]);
            proof {
                assert(phases@.take(i + 1).drop_last() =~= phases@.take(i as int));
                lemma_count_grows(phases@, i + 1);
            }
            if count as u64 > u64::MAX - next {
                return false;
            }
            next = next + count as u64;
            i = i + 1;
        }
        assert(phases@.take(i as int) =~= phases@);
        true
    }

    /// The plan of a profile.
    ///
    /// A phase whose expansion failed, and one that has no steps, are
    /// left out: their own op runs them, and reports as it always does.
    /// Identities start above every one in the tree and are handed out in
    /// declaration order.
    pub fn build(root: &ProfileNode) -> (r: Self)
        requires
            has_room_for(*root),
        ensures
            r.wf(),
            r@ == projected(phases_of(*root), first_free(*root)),
    {
        broadcast use vstd::std_specs::hash::group_hash_axioms;

        let mut plan = StepPlan::default();
        let phases = match root {
            ProfileNode::Spec { phases, .. } => phases,
            _ => {
                return plan;
            },
        };
        if phases.len() == 0 {
            return plan;
        }
        let mut next: u64 = max_node_id(root) + 1;
        let mut i: usize = 0;
        assert(phases@.take(0) =~= Seq::<ProfileNode>::empty());
        while i < phases.len()
            invariant
                i <= phases@.len(),
                phases@ == phases_of(*root),
                phases@.len() > 0,
                has_room_for(*root),
                next == first_free(*root) + step_count(phases@.take(i as int)),
                plan.wf(),
                plan@ == projected(phases@.take(i as int), first_free(*root)),
            decreases phases@.len() - i,
        {
            let phase = &phases[i];
            proof {
                assert(phases@.take(i + 1).drop_last() =~= phases@.take(i as int));
                assert(phases@.take(i + 1).last() == *phase);
                lemma_count_grows(phases@, i + 1);
            }
            i = i + 1;
            proof {
                reveal(projects);
            }
            let op = match lifecycle_op_name(phase) {
                Some(op) => op,
                None => {
                    continue ;
                },
            };
            let steps = match expand(phase) {
                Ok(steps) => steps,
                Err(_) => {
                    continue ;
                },
            };
            if steps.len() == 0 {
                continue ;
            }
            next = plan.add_phase(phase.node_id(), op, steps, next);
        }
        assert(phases@.take(i as int) =~= phases@);
        plan
    }

    /// Add a phase, its steps under the identities from `from` on, and
    /// say which is the next that is free.
    fn add_phase(
        &mut self,
        phase: NodeId,
        op: &'static str,
        steps: Vec<PlannedStep>,
        from: u64,
    ) -> (r: u64)
        requires
            old(self).wf(),
            from + steps@.len() <= u64::MAX,
        ensures
            final(self).wf(),
            r == from + steps@.len(),
            final(self)@.phases == old(self)@.phases.insert(
                phase.0,
                PhaseView {
                    op: op@,
                    steps: lifecycle::planned_views(steps@),
                    nodes: numbered(from as int, steps@.len()),
                },
            ),
            final(self)@.steps == located(
                old(self)@.steps,
                phase,
                from as int,
                steps@.len(),
            ),
    {
        broadcast use vstd::std_specs::hash::group_hash_axioms;

        let ghost known = self.steps@;
        let ghost phases = self.phases@;
        let ghost order = self.order@;
        let n = steps.len();
        let mut nodes: Vec<NodeId> = Vec::new();
        let mut offset: usize = 0;
        while offset < n
            invariant
                offset <= n == steps@.len(),
                from + n <= u64::MAX,
                nodes@ == numbered(from as int, offset as nat),
                self.steps@ == located(known, phase, from as int, offset as nat),
                self.phases@ == phases,
                self.order@ == order,
            decreases n - offset,
        {
            let id = NodeId(from + offset as u64);
            nodes.push(id);
            self.steps.insert(id.0, StepRef { phase, index: offset + 1 });
            offset = offset + 1;
            assert(nodes@ =~= numbered(from as int, offset as nat));
        }
        if !self.phases.contains_key(&phase.0) {
            self.order.push(phase);
        }
        self.phases.insert(phase.0, PhaseSteps { op, steps, nodes });
        assert(self@.phases =~= old(self)@.phases.insert(
            phase.0,
            PhaseView {
                op: op@,
                steps: lifecycle::planned_views(steps@),
                nodes: numbered(from as int, n as nat),
            },
        ));
        proof {
            assert(phases.insert(phase.0, self.phases@[phase.0]).dom() =~= phases.dom().insert(
                phase.0,
            ));
            if phases.contains_key(phase.0) {
                assert(phases.dom().insert(phase.0) =~= phases.dom());
            }
        }
        from + n as u64
    }

    /// The steps a phase was projected into; none for a phase that stayed
    /// with its op.
    pub fn phase(&self, phase: NodeId) -> (r: Option<&PhaseSteps>)
        ensures
            match r {
                Some(steps) => self@.phases.contains_key(phase.0) && steps@
                    == self@.phases[phase.0],
                None => !self@.phases.contains_key(phase.0),
            },
    {
        broadcast use vstd::std_specs::hash::group_hash_axioms;

        self.phases.get(&phase.0)
    }

    /// Every projected phase, once.
    pub fn projected_phases(&self) -> (r: Vec<(NodeId, &PhaseSteps)>)
        requires
            self.wf(),
        ensures
            r@.len() == self@.phases.dom().len(),
            forall|i: int|
                0 <= i < r@.len() ==> self@.phases.contains_key((#[trigger] r@[i]).0.0)
                    && self@.phases[r@[i].0.0] == r@[i].1@,
            forall|i: int, j: int|
                0 <= i < j < r@.len() ==> (#[trigger] r@[i]).0 != (#[trigger] r@[j]).0,
    {
        broadcast use vstd::std_specs::hash::group_hash_axioms;

        let mut out: Vec<(NodeId, &PhaseSteps)> = Vec::new();
        let mut i: usize = 0;
        while i < self.order.len()
            invariant
                i <= self.order@.len(),
                self.wf(),
                out@.len() == i,
                forall|j: int|
                    0 <= j < i ==> (#[trigger] out@[j]).0 == self.order@[j]
                        && self@.phases.contains_key(out@[j].0.0) && self@.phases[out@[j].0.0]
                        == out@[j].1@,
            decreases self.order@.len() - i,
        {
            let id = self.order[i];
            assert(self.phases@.contains_key(self.order@[i as int].0));
            if let Some(steps) = self.phases.get(&id.0) {
                out.push((id, steps));
            }
            i = i + 1;
        }
        assert(self@.phases.dom() =~= self.phases@.dom());
        out
    }

    /// The step of an identity: its phase, where it sits, and the step
    /// itself. None for an identity the plan did not hand out.
    pub fn locate(&self, node: NodeId) -> (r: Option<(&PhaseSteps, StepRef, &PlannedStep)>)
        ensures
            match r {
                Some((phase, at, step)) => found(self@, node) == Some((phase@, at, step@)),
                None => found(self@, node) is None,
            },
    {
        broadcast use vstd::std_specs::hash::group_hash_axioms;

        let at = match self.steps.get(&node.0) {
            Some(at) => *at,
            None => {
                return None;
            },
        };
        let phase = match self.phases.get(&at.phase.0) {
            Some(phase) => phase,
            None => {
                return None;
            },
        };
        if at.index == 0 || at.index > phase.steps.len() {
            return None;
        }
        Some((phase, at, &phase.steps[at.index - 1]))
    }
}

/// How many steps a phase is projected into.
fn step_total(phase: &ProfileNode) -> (r: usize)
    ensures
        r == projects(*phase).len(),
{
    proof {
        reveal(projects);
    }
    if lifecycle_op_name(phase).is_none() {
        return 0;
    }
    match expand(phase) {
        Ok(steps) => steps.len(),
        Err(_) => 0,
    }
}

/// The step of an identity in a plan.
pub open spec fn found(plan: PlanView, node: NodeId) -> Option<(PhaseView, StepRef, PlannedView)> {
    if !plan.steps.contains_key(node.0) {
        None
    } else {
        let at = plan.steps[node.0];
        if !plan.phases.contains_key(at.phase.0) {
            None
        } else {
            let phase = plan.phases[at.phase.0];
            if 1 <= at.index <= phase.steps.len() {
                Some((phase, at, phase.steps[at.index - 1]))
            } else {
                None
            }
        }
    }
}

// ---------------------------------------------------------------------
// What holds of every plan
// ---------------------------------------------------------------------

/// What `located` holds under each identity.
proof fn lemma_located(known: Map<u64, StepRef>, phase: NodeId, from: int, count: nat)
    requires
        0 <= from,
        from + count <= u64::MAX,
        count <= usize::MAX,
    ensures
        forall|id: u64| #[trigger]
            located(known, phase, from, count).contains_key(id) <==> (known.contains_key(id)
                || from <= id < from + count),
        forall|id: u64|
            from <= id < from + count ==> #[trigger] located(known, phase, from, count)[id] == (
            StepRef { phase, index: (id - from + 1) as usize }),
        forall|id: u64|
            !(from <= id < from + count) && known.contains_key(id) ==> #[trigger] located(
                known,
                phase,
                from,
                count,
            )[id] == known[id],
    decreases count,
{
    if count > 0 {
        lemma_located(known, phase, from, (count - 1) as nat);
        let last = (from + count - 1) as u64;
        assert(last == from + count - 1);
        let fewer = located(known, phase, from, (count - 1) as nat);
        let at = StepRef { phase, index: count as usize };
        assert(located(known, phase, from, count) == fewer.insert(last, at));
        assert forall|id: u64| #[trigger]
            located(known, phase, from, count).contains_key(id) <==> (known.contains_key(id)
                || from <= id < from + count) by {
            assert(fewer.contains_key(id) <==> (known.contains_key(id) || from <= id < from + count
                - 1));
        }
        assert forall|id: u64| from <= id < from + count implies #[trigger] located(
            known,
            phase,
            from,
            count,
        )[id] == (StepRef { phase, index: (id - from + 1) as usize }) by {
            if id != last {
                assert(fewer[id] == (StepRef { phase, index: (id - from + 1) as usize }));
            }
        }
        assert forall|id: u64|
            !(from <= id < from + count) && known.contains_key(id) implies #[trigger] located(
            known,
            phase,
            from,
            count,
        )[id] == known[id] by {
            assert(fewer[id] == known[id]);
        }
    }
}

/// The identities of a plan are those in a row from the first free one.
proof fn lemma_identities(phases: Seq<ProfileNode>, from: int)
    requires
        0 <= from,
        from + step_count(phases) <= u64::MAX,
        forall|i: int| 0 <= i < phases.len() ==> projects(#[trigger] phases[i]).len() <= usize::MAX,
    ensures
        forall|id: u64| #[trigger]
            projected(phases, from).steps.contains_key(id) <==> from <= id < from + step_count(
                phases,
            ),
    decreases phases.len(),
{
    if phases.len() > 0 {
        let before = phases.drop_last();
        assert forall|i: int| 0 <= i < before.len() implies projects(#[trigger] before[i]).len()
            <= usize::MAX by {
            assert(before[i] == phases[i]);
        }
        lemma_identities(before, from);
        let known = projected(before, from).steps;
        let count = projects(phases.last()).len();
        let start = from + step_count(before);
        let all = projected(phases, from).steps;
        if count > 0 {
            assert(projects(phases[phases.len() - 1]).len() <= usize::MAX);
            lemma_located(known, phases.last().id(), start, count);
            assert(all == located(known, phases.last().id(), start, count));
        } else {
            assert(all == known);
        }
        assert forall|id: u64| #[trigger]
            all.contains_key(id) <==> from <= id < from + step_count(phases) by {
            assert(known.contains_key(id) <==> from <= id < start);
        }
    }
}

/// Whether no two phases have one identity.
pub open spec fn distinct(phases: Seq<ProfileNode>) -> bool {
    forall|i: int, j: int|
        0 <= i < j < phases.len() ==> (#[trigger] phases[i]).id() != (#[trigger] phases[j]).id()
}

/// Whether no phase has more steps than a list can hold.
pub open spec fn countable(phases: Seq<ProfileNode>) -> bool {
    forall|i: int| 0 <= i < phases.len() ==> projects(#[trigger] phases[i]).len() <= usize::MAX
}

/// A plan holds no phase that is not declared.
proof fn lemma_declared(phases: Seq<ProfileNode>, from: int, id: u64)
    requires
        projected(phases, from).phases.contains_key(id),
    ensures
        exists|i: int| 0 <= i < phases.len() && (#[trigger] phases[i]).id().0 == id,
    decreases phases.len(),
{
    if phases.len() > 0 {
        if projected(phases.drop_last(), from).phases.contains_key(id) {
            lemma_declared(phases.drop_last(), from, id);
            let i = choose|i: int|
                0 <= i < phases.drop_last().len() && (#[trigger] phases.drop_last()[i]).id().0
                    == id;
            assert(phases[i].id().0 == id);
        } else {
            assert(phases[phases.len() - 1].id().0 == id);
        }
    }
}

/// Every identity that a plan hands out is above every one in the tree,
/// so none of them stands for a node of the tree.
pub proof fn law_identities_collide_with_no_node(root: ProfileNode, node: int)
    requires
        has_room_for(root),
        countable(phases_of(root)),
        0 <= node < profile::preorder(root).len(),
    ensures
        found(
            projected(phases_of(root), first_free(root)),
            profile::preorder(root)[node].id(),
        ) is None,
{
    lemma_highest(profile::preorder(root), node);
    if phases_of(root).len() > 0 {
        lemma_identities(phases_of(root), first_free(root));
    }
}

/// Every step is found again under its identity, with its phase and its
/// number; and the identities rise in declaration order, one for each
/// step.
pub proof fn law_every_step_is_found(phases: Seq<ProfileNode>, from: int, i: int, k: int)
    requires
        0 <= from,
        from + step_count(phases) <= u64::MAX,
        countable(phases),
        distinct(phases),
        0 <= i < phases.len(),
        0 <= k < projects(phases[i]).len(),
    ensures
        ({
            let node = NodeId((from + step_count(phases.take(i)) + k) as u64);
            let plan = projected(phases, from);
            let phase = PhaseView {
                op: op_name(phases[i])->0,
                steps: projects(phases[i]),
                nodes: numbered(from + step_count(phases.take(i)), projects(phases[i]).len()),
            };
            &&& plan.phases.contains_key(phases[i].id().0)
            &&& plan.phases[phases[i].id().0] == phase
            &&& phase.nodes[k] == node
            &&& found(plan, node) == Some(
                (
                    phase,
                    StepRef { phase: phases[i].id(), index: (k + 1) as usize },
                    projects(phases[i])[k],
                ),
            )
        }),
    decreases phases.len(),
{
    let before = phases.drop_last();
    let last = phases.last();
    let count = projects(last).len();
    let start = from + step_count(before);
    assert(countable(before)) by {
        assert forall|j: int| 0 <= j < before.len() implies projects(#[trigger] before[j]).len()
            <= usize::MAX by {
            assert(before[j] == phases[j]);
        }
    }
    assert(projects(phases[phases.len() - 1]).len() <= usize::MAX);
    lemma_located(projected(before, from).steps, last.id(), start, count);
    if i < before.len() {
        assert(distinct(before)) by {
            assert forall|a: int, b: int| 0 <= a < b < before.len() implies (
            #[trigger] before[a]).id() != (#[trigger] before[b]).id() by {
                assert(before[a] == phases[a] && before[b] == phases[b]);
            }
        }
        law_every_step_is_found(before, from, i, k);
        assert(before.take(i) =~= phases.take(i));
        lemma_identities(before, from);
        lemma_count_grows(before, i + 1);
        assert(before.take(i + 1).drop_last() =~= before.take(i));
        assert(phases[i].id() != phases[phases.len() - 1].id());
    } else {
        assert(phases.take(i) =~= before);
    }
}

/// Every lifecycle phase is run by the op of its own name, and no other
/// node by any.
pub proof fn law_a_lifecycle_phase_has_its_own_op(node: ProfileNode)
    ensures
        node is SystemApt ==> op_name(node) == Some("system_apt"@),
        node is ComfyUiInstall ==> op_name(node) == Some("comfyui_install"@),
        node is PythonVersionCheck ==> op_name(node) == Some("python_version_check"@),
        node is PythonDeps ==> op_name(node) == Some("python_deps"@),
        node is CustomNodes ==> op_name(node) == Some("custom_nodes"@),
        node is SyncPull ==> op_name(node) == Some("sync_pull"@),
        node is SyncPush ==> op_name(node) == Some("sync_push"@),
        node is StagingPush ==> op_name(node) == Some("staging_push"@),
        node is Models ==> op_name(node) == Some("models"@),
        node is LlmModels ==> op_name(node) == Some("llm_models"@),
        node is PostInstall ==> op_name(node) == Some("post_install"@),
        node is ComfyUiRestart ==> op_name(node) == Some("comfyui_restart"@),
        node is ComfyUiHealth ==> op_name(node) == Some("comfyui_health"@),
        node is ServiceStart ==> op_name(node) == Some("service_start"@),
        node is ServiceReady ==> op_name(node) == Some("service_ready"@),
        op_name(node) is None ==> lifecycle::expansion(node) == Err::<Seq<PlannedView>, ErrorView>(
            ErrorView::PayloadVariant { node: node.id().0, expected: "lifecycle"@ },
        ),
        op_name(node) matches Some(name) ==> admission::is_lifecycle(name),
{
}

/// A phase is planned with the steps it expands to, and without any where
/// it does not expand.
pub proof fn law_a_phase_is_planned_as_it_expands(phase: ProfileNode)
    ensures
        lifecycle::expansion(phase) matches Ok(steps) ==> projects(phase) == steps,
        lifecycle::expansion(phase) is Err ==> projects(phase).len() == 0,
{
    reveal(projects);
    law_a_lifecycle_phase_has_its_own_op(phase);
}

/// The identities of a plan begin right behind the highest one of the
/// tree.
pub proof fn law_identities_begin_behind_the_highest(root: ProfileNode, i: int)
    ensures
        0 <= i < profile::preorder(root).len() ==> profile::preorder(root)[i].id().0 < first_free(
            root,
        ),
        exists|k: int|
            0 <= k < profile::preorder(root).len() && (#[trigger] profile::preorder(
                root,
            )[k]).id().0 == first_free(root) - 1,
        phases_of(root).len() == 0 ==> has_room_for(root),
        phases_of(root).len() > 0 ==> (has_room_for(root) <==> first_free(root) + step_count(
            phases_of(root),
        ) <= 18446744073709551615),
{
    if 0 <= i < profile::preorder(root).len() {
        lemma_highest(profile::preorder(root), i);
    }
    assert(profile::preorder(root)[0] == root);
    lemma_highest_is_there(profile::preorder(root));
}

/// The highest identity is that of one of the nodes.
proof fn lemma_highest_is_there(nodes: Seq<ProfileNode>)
    requires
        nodes.len() > 0,
    ensures
        exists|k: int| 0 <= k < nodes.len() && (#[trigger] nodes[k]).id().0 == highest(nodes),
    decreases nodes.len(),
{
    let before = nodes.drop_last();
    let last = nodes.len() - 1;
    if before.len() == 0 {
        assert(highest(before) == 0);
        assert(nodes[last].id().0 == highest(nodes));
    } else {
        lemma_highest_is_there(before);
        let k = choose|k: int| 0 <= k < before.len() && (#[trigger] before[k]).id().0 == highest(
            before,
        );
        assert(nodes[k] == before[k]);
        if highest(before) < nodes.last().id().0 {
            assert(nodes[last].id().0 == highest(nodes));
        } else {
            assert(nodes[k].id().0 == highest(nodes));
        }
    }
}

/// An identity stands for a step only where the plan says in which phase
/// and at which place, counted from one, and the phase has that many.
pub proof fn law_a_step_is_counted_from_one(plan: PlanView, node: NodeId)
    ensures
        found(plan, node) matches Some((phase, at, step)) ==> {
            &&& plan.steps.contains_key(node.0) && plan.steps[node.0] == at
            &&& plan.phases.contains_key(at.phase.0) && plan.phases[at.phase.0] == phase
            &&& 1 <= at.index <= phase.steps.len()
            &&& step == phase.steps[at.index - 1]
        },
        plan.steps.contains_key(node.0) && plan.phases.contains_key(plan.steps[node.0].phase.0)
            && 1 <= plan.steps[node.0].index
            <= plan.phases[plan.steps[node.0].phase.0].steps.len() ==> found(plan, node) is Some,
{
}

} // verus!
