//! Which nodes of a profile a run suspends on, and what they declare to
//! whoever watches.
//!
//! What a suspended node declares can be read by any observer, so it
//! tells names, addresses and shapes: header names and never a header's
//! value, the form of a body and never the body.

use crate::admission::{
    HTTP_GET_CALL_LABEL, HTTP_POST_CALL_LABEL, LIFECYCLE_STEP_CALL_LABEL, TRANSFER_CALL_LABEL,
};
use crate::context;
use crate::context::kind_of;
use crate::json;
use crate::json::{
    new_object, null_value, number_value, object_value, put, text_array_value, text_value, JsonView,
};
use crate::lifecycle::{Step, StepView};
use crate::payload;
use crate::payload::{build_payload_map, payload_at, PayloadMap};
use crate::phases;
use crate::phases::step_effect_op;
use crate::profile::{NodeId, ProfileNode};
use crate::steps;
use crate::steps::{PlanView, StepPlan};
use crate::text;
use crate::text::Text;
use vstd::prelude::*;

verus! {

/// How the three phases that make one network effect run. It is the
/// host's choice, and no part of the profile.
#[derive(Debug, Clone, Copy, PartialEq, Eq, Structural)]
pub enum EffectRoute {
    /// By their op.
    Op,
    /// By a call that the run suspends on.
    Call,
}

impl Default for EffectRoute {
    /// By their op.
    fn default() -> (r: Self)
        ensures
            r == EffectRoute::Op,
    {
        EffectRoute::Op
    }
}

/// What a node is to a run, where it is not what its own kind makes it.
#[derive(Debug)]
pub enum NodeKind {
    /// A list of nodes to run in turn.
    InTurn { children: Vec<NodeId> },
    /// A call that the run suspends on.
    Call { label: String, payload: serde_json::Value },
}

/// The model of a [`NodeKind`].
pub enum KindView {
    InTurn(Seq<NodeId>),
    Call(Text, JsonView),
}

impl View for NodeKind {
    type V = KindView;

    open spec fn view(&self) -> KindView {
        match *self {
            NodeKind::InTurn { children } => KindView::InTurn(children@),
            NodeKind::Call { label, payload } => KindView::Call(label@, json::held(payload)),
        }
    }
}

/// The model of an optional kind.
pub open spec fn opt_kind(kind: Option<NodeKind>) -> Option<KindView> {
    match kind {
        Some(kind) => Some(kind@),
        None => None,
    }
}

/// The name of the form of a POST request's body.
pub open spec fn body_form(has_body: bool, has_json: bool) -> Text {
    if has_body && has_json {
        "body+body_json"@
    } else if has_body {
        "body"@
    } else if has_json {
        "body_json"@
    } else {
        "none"@
    }
}

/// The name of the form of a POST request's body. Both forms at once,
/// which no request is sent with, are told as they are.
pub fn declared_body_form(has_body: bool, has_json: bool) -> (r: &'static str)
    ensures
        r@ == body_form(has_body, has_json),
{
    if has_body && has_json {
        "body+body_json"
    } else if has_body {
        "body"
    } else if has_json {
        "body_json"
    } else {
        "none"
    }
}

/// A deadline, where one is declared.
pub open spec fn deadline_view(timeout_sec: Option<u16>) -> JsonView {
    match timeout_sec {
        Some(sec) => JsonView::Integer(sec as int),
        None => JsonView::Null,
    }
}

fn deadline_value(timeout_sec: Option<u16>) -> (r: serde_json::Value)
    ensures
        json::held(r) == deadline_view(timeout_sec),
{
    match timeout_sec {
        Some(sec) => number_value(sec as u64),
        None => null_value(),
    }
}

/// The call that a phase is, where the host routes it so.
pub open spec fn call_of(node: ProfileNode) -> Option<KindView> {
    match node {
        ProfileNode::NetTransfer { src, dst, .. } => Some(
            KindView::Call(
                TRANSFER_CALL_LABEL@,
                JsonView::Object(
                    json::no_members().insert("src"@, JsonView::Text(src@)).insert(
                        "dst"@,
                        JsonView::Text(dst@),
                    ),
                ),
            ),
        ),
        ProfileNode::NetHttpGet { url, headers, timeout_sec, .. } => Some(
            KindView::Call(
                HTTP_GET_CALL_LABEL@,
                JsonView::Object(
                    json::no_members().insert("url"@, JsonView::Text(url@)).insert(
                        "header_names"@,
                        json::text_array(headers.names()),
                    ).insert("timeout_sec"@, deadline_view(timeout_sec)),
                ),
            ),
        ),
        ProfileNode::NetHttpPost { url, headers, body, body_json, timeout_sec, .. } => Some(
            KindView::Call(
                HTTP_POST_CALL_LABEL@,
                JsonView::Object(
                    json::no_members().insert("url"@, JsonView::Text(url@)).insert(
                        "header_names"@,
                        json::text_array(headers.names()),
                    ).insert(
                        "body"@,
                        JsonView::Text(body_form(body is Some, body_json is Some)),
                    ).insert("timeout_sec"@, deadline_view(timeout_sec)),
                ),
            ),
        ),
        _ => None,
    }
}

/// The call that a phase is, where the host routes it so; none for a
/// node that stays with its op.
pub fn call_kind(node: &ProfileNode) -> (r: Option<NodeKind>)
    ensures
        opt_kind(r) == call_of(*node),
{
    match node {
        ProfileNode::NetTransfer { src, dst, .. } => {
            let mut object = new_object();
            put(&mut object, "src", text_value(src.as_str()));
            put(&mut object, "dst", text_value(dst.as_str()));
            Some(
                NodeKind::Call {
                    label: TRANSFER_CALL_LABEL.to_owned(),
                    payload: object_value(object),
                },
            )
        },
        ProfileNode::NetHttpGet { url, headers, timeout_sec, .. } => {
            let mut object = new_object();
            put(&mut object, "url", text_value(url.as_str()));
            put(&mut object, "header_names", text_array_value(&headers.keys()));
            put(&mut object, "timeout_sec", deadline_value(*timeout_sec));
            Some(
                NodeKind::Call {
                    label: HTTP_GET_CALL_LABEL.to_owned(),
                    payload: object_value(object),
                },
            )
        },
        ProfileNode::NetHttpPost { url, headers, body, body_json, timeout_sec, .. } => {
            let form = declared_body_form(body.is_some(), body_json.is_some());
            let mut object = new_object();
            put(&mut object, "url", text_value(url.as_str()));
            put(&mut object, "header_names", text_array_value(&headers.keys()));
            put(&mut object, "body", text_value(form));
            put(&mut object, "timeout_sec", deadline_value(*timeout_sec));
            Some(
                NodeKind::Call {
                    label: HTTP_POST_CALL_LABEL.to_owned(),
                    payload: object_value(object),
                },
            )
        },
        _ => None,
    }
}

/// The names of a phase's variables.
pub open spec fn env_names_of(phase: ProfileNode) -> Seq<Text> {
    match phase {
        ProfileNode::SyncPull { env, .. } => env.names(),
        ProfileNode::StagingPush { env, .. } => env.names(),
        _ => Seq::empty(),
    }
}

/// The names of a phase's variables.
pub fn phase_env_names(phase: &ProfileNode) -> (r: Vec<String>)
    ensures
        text::texts(r@) == env_names_of(*phase),
{
    match phase {
        ProfileNode::SyncPull { env, .. } => env.keys(),
        ProfileNode::StagingPush { env, .. } => env.keys(),
        _ => {
            let none: Vec<String> = Vec::new();
            assert(text::texts(none@) =~= Seq::<Text>::empty());
            none
        },
    }
}

/// What every step declares: its phase, its number among how many, and
/// its effect.
pub open spec fn step_base(
    phase: ProfileNode,
    step: StepView,
    index: nat,
    total: nat,
) -> Map<Text, JsonView> {
    json::no_members().insert("phase"@, JsonView::Text(context::kind_name(phase))).insert(
        "step"@,
        JsonView::Integer(index as int),
    ).insert("of"@, JsonView::Integer(total as int)).insert(
        "effect"@,
        JsonView::Text(phases::effect_name(step)),
    )
}

/// What a step declares to whoever watches.
pub open spec fn step_members(
    phase: ProfileNode,
    step: StepView,
    index: nat,
    total: nat,
) -> Map<Text, JsonView> {
    let base = step_base(phase, step, index, total);
    match step {
        StepView::Sh(argv) => {
            let told = base.insert("argv"@, json::text_array(argv));
            let names = env_names_of(phase);
            if names.len() == 0 {
                told
            } else {
                told.insert("env_names"@, json::text_array(names))
            }
        },
        StepView::Transfer { src, dst } => base.insert("src"@, JsonView::Text(src)).insert(
            "dst"@,
            JsonView::Text(dst),
        ),
        StepView::HttpPoll { url, timeout_sec, .. } => base.insert(
            "url"@,
            JsonView::Text(url),
        ).insert("timeout_sec"@, JsonView::Integer(timeout_sec as int)),
        StepView::Note(message) => base.insert("message"@, JsonView::Text(message)),
    }
}

/// What a step declares to whoever watches.
pub fn lifecycle_step_payload(phase: &ProfileNode, step: &Step, index: usize, total: usize) -> (r:
    serde_json::Value)
    ensures
        json::held(r) == JsonView::Object(
            step_members(*phase, step@, index as nat, total as nat),
        ),
{
    let mut object = new_object();
    put(&mut object, "phase", text_value(kind_of(phase)));
    put(&mut object, "step", number_value(index as u64));
    put(&mut object, "of", number_value(total as u64));
    put(&mut object, "effect", text_value(step_effect_op(step)));
    match step {
        Step::Sh(argv) => {
            put(&mut object, "argv", text_array_value(argv));
            let names = phase_env_names(phase);
            assert(text::texts(names@).len() == names@.len());
            if names.len() > 0 {
                put(&mut object, "env_names", text_array_value(&names));
            }
        },
        Step::Transfer { src, dst } => {
            put(&mut object, "src", text_value(src.as_str()));
            put(&mut object, "dst", text_value(dst.as_str()));
        },
        Step::HttpPoll { url, timeout_sec, .. } => {
            put(&mut object, "url", text_value(url.as_str()));
            put(&mut object, "timeout_sec", number_value(*timeout_sec));
        },
        Step::Note(message) => {
            put(&mut object, "message", text_value(message.as_str()));
        },
    }
    object_value(object)
}

/// The first phase of an identity.
pub open spec fn phase_named(phases: Seq<ProfileNode>, id: NodeId) -> Option<ProfileNode>
    decreases phases.len(),
{
    if phases.len() == 0 {
        None
    } else if phases[0].id() == id {
        Some(phases[0])
    } else {
        phase_named(phases.drop_first(), id)
    }
}

/// The declared phase of an identity.
fn plan_phase_payload<'a>(root: &'a ProfileNode, id: NodeId) -> (r: Option<&'a ProfileNode>)
    ensures
        match r {
            Some(phase) => phase_named(steps::phases_of(*root), id) == Some(*phase),
            None => phase_named(steps::phases_of(*root), id) is None,
        },
{
    let phases = match root {
        ProfileNode::Spec { phases, .. } => phases,
        _ => {
            return None;
        },
    };
    let mut i: usize = 0;
    assert(phases@.skip(0) =~= phases@);
    while i < phases.len()
        invariant
            i <= phases@.len(),
            phases@ == steps::phases_of(*root),
            phase_named(phases@, id) == phase_named(phases@.skip(i as int), id),
        decreases phases@.len() - i,
    {
        assert(phases@.skip(i as int).drop_first() =~= phases@.skip(i + 1));
        if phases[i].node_id().0 == id.0 {
            return Some(&phases[i]);
        }
        i = i + 1;
    }
    None
}

/// The nodes of a profile that are something else to a run than their
/// own kind makes them: the phases that the host routes by a call, and
/// the phases that are lists of steps, each with a call for every step.
pub struct ProfileCallAst<'a> {
    pub root: &'a ProfileNode,
    pub route: EffectRoute,
    pub plan: &'a StepPlan,
    pub payloads: PayloadMap<'a>,
}

/// The step that an identity stands for, as a call.
pub open spec fn step_call(root: ProfileNode, plan: PlanView, id: NodeId) -> Option<KindView> {
    match steps::found(plan, id) {
        None => None,
        Some((phase, at, step)) => match phase_named(steps::phases_of(root), at.phase) {
            None => None,
            Some(payload) => if at.index <= phase.nodes.len() && phase.nodes[at.index - 1] == id {
                Some(
                    KindView::Call(
                        LIFECYCLE_STEP_CALL_LABEL@,
                        JsonView::Object(
                            step_members(
                                payload,
                                step.step,
                                at.index as nat,
                                phase.steps.len(),
                            ),
                        ),
                    ),
                )
            } else {
                None
            },
        },
    }
}

/// What a node is to a run: a list of steps, a step, a routed call, or
/// nothing else than its own kind makes it.
pub open spec fn kind_at(
    root: ProfileNode,
    route: EffectRoute,
    plan: PlanView,
    payloads: Map<u64, &ProfileNode>,
    id: NodeId,
) -> Option<KindView> {
    if plan.phases.contains_key(id.0) && phase_named(steps::phases_of(root), id) is Some {
        Some(KindView::InTurn(plan.phases[id.0].nodes))
    } else if step_call(root, plan, id) is Some {
        step_call(root, plan, id)
    } else if route == EffectRoute::Call && payloads.contains_key(id.0) {
        call_of(*payloads[id.0])
    } else {
        None
    }
}

impl<'a> ProfileCallAst<'a> {
    /// The nodes of `root` as a run sees them. `plan` is the plan that
    /// the run's context holds.
    pub fn new(root: &'a ProfileNode, route: EffectRoute, plan: &'a StepPlan) -> (r: Self)
        ensures
            *r.root == *root,
            r.route == route,
            r.plan@ == plan@,
            r.payloads@ == payload::payloads_of(*root),
    {
        ProfileCallAst { root, route, plan, payloads: build_payload_map(root) }
    }

    /// What a node is to a run, where it is not what its own kind makes
    /// it.
    pub fn node_kind(&self, id: NodeId) -> (r: Option<NodeKind>)
        ensures
            opt_kind(r) == kind_at(*self.root, self.route, self.plan@, self.payloads@, id),
    {
        if let Some(phase) = self.plan.phase(id) {
            if plan_phase_payload(self.root, id).is_some() {
                let mut children: Vec<NodeId> = Vec::new();
                let mut i: usize = 0;
                while i < phase.nodes.len()
                    invariant
                        i <= phase.nodes@.len(),
                        children@ == phase.nodes@.take(i as int),
                    decreases phase.nodes@.len() - i,
                {
                    children.push(phase.nodes[i]);
                    i = i + 1;
                    assert(children@ =~= phase.nodes@.take(i as int));
                }
                assert(children@ =~= phase.nodes@);
                return Some(NodeKind::InTurn { children });
            }
        }
        if let Some(kind) = self.step_kind(id) {
            return Some(kind);
        }
        if self.route == EffectRoute::Call {
            if let Some(node) = payload_at(&self.payloads, id) {
                return call_kind(node);
            }
        }
        None
    }

    /// The step that an identity stands for, as a call.
    fn step_kind(&self, id: NodeId) -> (r: Option<NodeKind>)
        ensures
            opt_kind(r) == step_call(*self.root, self.plan@, id),
    {
        let (phase, at, step) = match self.plan.locate(id) {
            Some(found) => found,
            None => {
                return None;
            },
        };
        let payload = match plan_phase_payload(self.root, at.phase) {
            Some(payload) => payload,
            None => {
                return None;
            },
        };
        if at.index > phase.nodes.len() || phase.nodes[at.index - 1].0 != id.0 {
            return None;
        }
        Some(
            NodeKind::Call {
                label: LIFECYCLE_STEP_CALL_LABEL.to_owned(),
                payload: lifecycle_step_payload(payload, &step.step, at.index, phase.steps.len()),
            },
        )
    }
}

/// The phases that the host can route are the three that make one
/// network effect.
pub proof fn law_three_phases_can_be_routed(node: ProfileNode)
    ensures
        call_of(node) is Some <==> node is NetTransfer || node is NetHttpGet
            || node is NetHttpPost,
{
}

/// By the op, no node that is not planned is anything else than its own
/// kind makes it.
pub proof fn law_the_op_route_leaves_nodes_alone(
    root: ProfileNode,
    plan: PlanView,
    payloads: Map<u64, &ProfileNode>,
    id: NodeId,
)
    requires
        !plan.phases.contains_key(id.0),
        !plan.steps.contains_key(id.0),
    ensures
        kind_at(root, EffectRoute::Op, plan, payloads, id) is None,
        kind_at(root, EffectRoute::Call, plan, payloads, id) == (if payloads.contains_key(id.0) {
            call_of(*payloads[id.0])
        } else {
            None
        }),
{
}

/// What a routed phase declares depends on the names of its headers and
/// the form of its body, and never on a value.
pub proof fn law_a_call_declares_no_value(one: ProfileNode, other: ProfileNode)
    requires
        one matches ProfileNode::NetHttpPost { url, headers, body, body_json, timeout_sec, .. }
            && same_shape(url@, headers.names(), body is Some, body_json is Some, timeout_sec, other),
    ensures
        call_of(one) == call_of(other),
{
}

/// Whether a POST request has this URL, these header names, this form of
/// body and this deadline.
pub open spec fn same_shape(
    address: Text,
    names: Seq<Text>,
    has_body: bool,
    has_json: bool,
    deadline: Option<u16>,
    node: ProfileNode,
) -> bool {
    node matches ProfileNode::NetHttpPost { url, headers, body, body_json, timeout_sec, .. } && {
        &&& url@ == address
        &&& headers.names() == names
        &&& (body is Some) == has_body
        &&& (body_json is Some) == has_json
        &&& timeout_sec == deadline
    }
}

/// No two names that a call declares under are the same.
proof fn lemma_names_differ()
    ensures
        "src"@ != "dst"@ && "url"@ != "src"@ && "url"@ != "dst"@,
        "src"@.len() == 3 && "dst"@.len() == 3 && "url"@.len() == 3,
        "header_names"@.len() == 12 && "timeout_sec"@.len() == 11 && "body"@.len() == 4,
        "phase"@.len() == 5 && "step"@.len() == 4 && "of"@.len() == 2 && "effect"@.len() == 6,
        "argv"@.len() == 4 && "env_names"@.len() == 9 && "message"@.len() == 7,
        "step"@ != "argv"@,
{
    reveal_strlit("src");
    reveal_strlit("dst");
    reveal_strlit("url");
    reveal_strlit("header_names");
    reveal_strlit("timeout_sec");
    reveal_strlit("body");
    reveal_strlit("phase");
    reveal_strlit("step");
    reveal_strlit("of");
    reveal_strlit("effect");
    reveal_strlit("argv");
    reveal_strlit("env_names");
    reveal_strlit("message");
    assert("src"@[0] == 's' && "dst"@[0] == 'd' && "url"@[0] == 'u');
    assert("step"@[0] == 's' && "argv"@[0] == 'a');
}

/// Whether a call declares a value under a name.
pub open spec fn declares(kind: Option<KindView>, key: Text, value: JsonView) -> bool {
    kind matches Some(KindView::Call(_, JsonView::Object(members))) && members.contains_key(key)
        && members[key] == value
}

/// A routed phase suspends under the label of its own kind, and declares
/// its addresses, the names of its headers, the form of its body and its
/// deadline.
pub proof fn law_a_routed_phase_declares_its_shape(node: ProfileNode)
    ensures
        node matches ProfileNode::NetTransfer { src, dst, .. } ==> {
            &&& call_of(node) matches Some(KindView::Call(label, _)) && label == "net.transfer"@
            &&& declares(call_of(node), "src"@, JsonView::Text(src@))
            &&& declares(call_of(node), "dst"@, JsonView::Text(dst@))
        },
        node matches ProfileNode::NetHttpGet { url, headers, timeout_sec, .. } ==> {
            &&& call_of(node) matches Some(KindView::Call(label, _)) && label == "net.http_get"@
            &&& declares(call_of(node), "url"@, JsonView::Text(url@))
            &&& declares(call_of(node), "header_names"@, json::text_array(headers.names()))
            &&& timeout_sec matches Some(sec) ==> declares(
                call_of(node),
                "timeout_sec"@,
                JsonView::Integer(sec as int),
            )
            &&& timeout_sec is None ==> declares(call_of(node), "timeout_sec"@, JsonView::Null)
        },
        node matches ProfileNode::NetHttpPost {
            url,
            headers,
            body,
            body_json,
            timeout_sec,
            ..
        } ==> {
            &&& call_of(node) matches Some(KindView::Call(label, _)) && label == "net.http_post"@
            &&& declares(call_of(node), "url"@, JsonView::Text(url@))
            &&& declares(call_of(node), "header_names"@, json::text_array(headers.names()))
            &&& body is Some && body_json is Some ==> declares(
                call_of(node),
                "body"@,
                JsonView::Text("body+body_json"@),
            )
            &&& body is Some && body_json is None ==> declares(
                call_of(node),
                "body"@,
                JsonView::Text("body"@),
            )
            &&& body is None && body_json is Some ==> declares(
                call_of(node),
                "body"@,
                JsonView::Text("body_json"@),
            )
            &&& body is None && body_json is None ==> declares(
                call_of(node),
                "body"@,
                JsonView::Text("none"@),
            )
            &&& timeout_sec matches Some(sec) ==> declares(
                call_of(node),
                "timeout_sec"@,
                JsonView::Integer(sec as int),
            )
            &&& timeout_sec is None ==> declares(call_of(node), "timeout_sec"@, JsonView::Null)
        },
{
    lemma_names_differ();
}

/// A step declares its phase, its number among how many, its effect, and
/// what it does it with; of the variables of its phase the names, where it
/// has any.
pub proof fn law_a_step_declares_what_it_does(
    phase: ProfileNode,
    step: StepView,
    index: nat,
    total: nat,
)
    ensures
        ({
            let told = step_members(phase, step, index, total);
            &&& told.contains_key("phase"@) && told["phase"@] == JsonView::Text(
                context::kind_name(phase),
            )
            &&& told.contains_key("step"@) && told["step"@] == JsonView::Integer(index as int)
            &&& told.contains_key("of"@) && told["of"@] == JsonView::Integer(total as int)
            &&& told.contains_key("effect"@)
            &&& step matches StepView::Sh(argv) ==> told["effect"@] == JsonView::Text("sh.exec"@)
                && told.contains_key("argv"@) && told["argv"@] == json::text_array(argv) && (
            told.contains_key("env_names"@) <==> env_names_of(phase).len() > 0) && (env_names_of(
                phase,
            ).len() > 0 ==> told["env_names"@] == json::text_array(env_names_of(phase)))
            &&& step matches StepView::Transfer { src, dst } ==> told["effect"@] == JsonView::Text(
                "net.transfer"@,
            ) && told.contains_key("src"@) && told["src"@] == JsonView::Text(src)
                && told.contains_key("dst"@) && told["dst"@] == JsonView::Text(dst)
            &&& step matches StepView::HttpPoll { url, timeout_sec, .. } ==> told["effect"@]
                == JsonView::Text("net.http_get"@) && told.contains_key("url"@) && told["url"@]
                == JsonView::Text(url) && told.contains_key("timeout_sec"@) && told["timeout_sec"@]
                == JsonView::Integer(timeout_sec as int)
            &&& step matches StepView::Note(message) ==> told["effect"@] == JsonView::Text(
                "note"@,
            ) && told.contains_key("message"@) && told["message"@] == JsonView::Text(message)
        }),
        phase matches ProfileNode::SyncPull { env, .. } ==> env_names_of(phase) == env.names(),
        phase matches ProfileNode::StagingPush { env, .. } ==> env_names_of(phase) == env.names(),
        !(phase is SyncPull) && !(phase is StagingPush) ==> env_names_of(phase).len() == 0,
{
    lemma_names_differ();
}

/// A planned phase is the list of its steps, in order; a planned step is a
/// call of the label `lifecycle.step`, whichever way the host routes; and
/// any other node is a call only where the host routes so.
pub proof fn law_a_planned_step_is_a_call(
    root: ProfileNode,
    route: EffectRoute,
    plan: PlanView,
    payloads: Map<u64, &ProfileNode>,
    id: NodeId,
)
    ensures
        plan.phases.contains_key(id.0) && phase_named(steps::phases_of(root), id) is Some
            ==> kind_at(root, route, plan, payloads, id) == Some(
            KindView::InTurn(plan.phases[id.0].nodes),
        ),
        !plan.phases.contains_key(id.0) ==> (steps::found(plan, id) matches Some((phase, at, step))
            ==> (phase_named(steps::phases_of(root), at.phase) is Some && at.index
            <= phase.nodes.len() && phase.nodes[at.index - 1] == id ==> kind_at(
            root,
            route,
            plan,
            payloads,
            id,
        ) == Some(
            KindView::Call(
                "lifecycle.step"@,
                JsonView::Object(
                    step_members(
                        phase_named(steps::phases_of(root), at.phase)->0,
                        step.step,
                        at.index as nat,
                        phase.steps.len(),
                    ),
                ),
            ),
        ))),
        route == EffectRoute::Op ==> (kind_at(root, route, plan, payloads, id) matches Some(
            KindView::Call(label, _),
        ) ==> label == "lifecycle.step"@),
{
}

/// A phase is found by its identity: the first that has it.
pub proof fn law_a_phase_is_found_by_its_identity(phases: Seq<ProfileNode>, i: int)
    requires
        0 <= i < phases.len(),
        forall|j: int| 0 <= j < i ==> (#[trigger] phases[j]).id() != phases[i].id(),
    ensures
        phase_named(phases, phases[i].id()) == Some(phases[i]),
    decreases i,
{
    if i > 0 {
        let rest = phases.drop_first();
        assert(phases[0].id() != phases[i].id());
        assert(rest[i - 1] == phases[i]);
        assert forall|j: int| 0 <= j < i - 1 implies (#[trigger] rest[j]).id() != rest[i
            - 1].id() by {
            assert(rest[j] == phases[j + 1]);
        }
        law_a_phase_is_found_by_its_identity(rest, i - 1);
    }
}

} // verus!
