//! The profile tree: what a profile declares, as plain values.

use crate::names::NameMap;
use vstd::prelude::*;

verus! {

/// The identity of a node of the tree.
#[derive(Debug, Clone, Copy, PartialEq, Eq, PartialOrd, Ord, Hash, Structural)]
pub struct NodeId(pub u64);

/// Value nodes by name: an `env` or `headers` slot.
pub type Slots = NameMap<ProfileNode>;

/// What reading a payload's list gave: its entries, or what the reader
/// said was wrong with it.
pub type Decoded<T> = Result<Vec<T>, String>;

/// One entry of a `custom_nodes` payload.
#[derive(Debug, PartialEq, Eq)]
pub struct CustomNodeSpec {
    /// Directory name of the node.
    pub name: String,
    /// `<owner>/<repo>` to clone.
    pub repo: String,
    /// Ref to check out.
    pub git_ref: Option<String>,
    /// Whether the node's requirements are installed.
    pub pip: bool,
}

/// One entry of a `models` payload.
#[derive(Debug, PartialEq, Eq)]
pub struct ModelItemSpec {
    /// Where the file comes from.
    pub src: String,
    /// File name, when `dst` is not given.
    pub name: Option<String>,
    /// File name.
    pub dst: Option<String>,
    /// Directory below the model store.
    pub subdir: Option<String>,
    /// Directory below the model store, when `subdir` is not given.
    pub kind: Option<String>,
    /// Declared content digest.
    pub sha256: Option<String>,
}

/// One entry of an `llm_models` payload.
#[derive(Debug, PartialEq, Eq)]
pub struct LlmModelSpec {
    /// `hf://<owner>/<repo>[@<rev>]`.
    pub src: String,
    /// Directory the snapshot lands in.
    pub dst_dir: Option<String>,
    /// Revision, when the source pins none.
    pub revision: Option<String>,
}

/// One node of a profile.
#[allow(inconsistent_fields)]
#[derive(Debug, PartialEq, Eq)]
pub enum ProfileNode {
    /// The profile itself: what it declares and the phases it runs.
    Spec {
        id: NodeId,
        name: String,
        version: Option<String>,
        description: Option<String>,
        capabilities: Vec<String>,
        env: Slots,
        env_secrets: Vec<String>,
        paths: Vec<String>,
        http_allowlist: Vec<String>,
        phases: Vec<ProfileNode>,
    },
    /// Run a command.
    ShExec { id: NodeId, argv: Vec<String>, env: Slots },
    /// Write a file.
    FsWrite { id: NodeId, path: String, content: Box<ProfileNode> },
    /// GET a URL.
    NetHttpGet { id: NodeId, url: String, headers: Slots, timeout_sec: Option<u16> },
    /// POST to a URL.
    NetHttpPost {
        id: NodeId,
        url: String,
        headers: Slots,
        body: Option<Box<ProfileNode>>,
        body_json: Option<String>,
        timeout_sec: Option<u16>,
    },
    /// Move a file between the host and a URL.
    NetTransfer { id: NodeId, src: String, dst: String },
    /// Bind-mount a directory.
    MountBind { id: NodeId, src: String, dst: String },
    /// Unmount a directory.
    MountUmount { id: NodeId, path: String },
    /// Install system packages.
    SystemApt { id: NodeId, packages: Vec<String> },
    /// Clone ComfyUI at a ref.
    ComfyUiInstall { id: NodeId, ref_name: String, repo: Option<String> },
    /// Require a Python version.
    PythonVersionCheck { id: NodeId, want: String },
    /// Install Python packages.
    PythonDeps { id: NodeId, deps: Vec<String>, in_comfy_venv: bool },
    /// Clone custom nodes.
    CustomNodes { id: NodeId, nodes: Decoded<CustomNodeSpec> },
    /// Download from a route.
    SyncPull { id: NodeId, src: String, dst: String, env: Slots, revision: Option<String> },
    /// A marker of an upload route.
    SyncPush { id: NodeId, src: String, dst: String },
    /// Upload to a route.
    StagingPush { id: NodeId, src: String, dst: String, env: Slots, revision: Option<String> },
    /// Download model files.
    Models { id: NodeId, models: Decoded<ModelItemSpec> },
    /// Download model snapshots.
    LlmModels { id: NodeId, models: Decoded<LlmModelSpec> },
    /// Run a script.
    PostInstall { id: NodeId, script: String },
    /// Launch ComfyUI.
    ComfyUiRestart { id: NodeId, port: u16, extra_args: Vec<String> },
    /// Wait for ComfyUI.
    ComfyUiHealth { id: NodeId, port: u16, timeout_sec: Option<u16> },
    /// Launch an inference service.
    ServiceStart {
        id: NodeId,
        name: String,
        platform_kind: String,
        model: Option<String>,
        port: Option<u16>,
        dtype: Option<String>,
        tensor_parallel_size: Option<u16>,
        extra_args: Vec<String>,
    },
    /// Wait for an inference service.
    ServiceReady { id: NodeId, name: String, check_url: String, timeout_sec: Option<u16> },
    /// A value that is a declared secret.
    EnvSecret { id: NodeId, name: String },
    /// A value written out.
    EnvLiteral { id: NodeId, value: String },
    /// A value that is one of the profile's own `env` entries.
    EnvRef { id: NodeId, name: String },
}

impl ProfileNode {
    /// The node's identity.
    pub open spec fn id(self) -> NodeId {
        match self {
            ProfileNode::Spec { id, .. } => id,
            ProfileNode::ShExec { id, .. } => id,
            ProfileNode::FsWrite { id, .. } => id,
            ProfileNode::NetHttpGet { id, .. } => id,
            ProfileNode::NetHttpPost { id, .. } => id,
            ProfileNode::NetTransfer { id, .. } => id,
            ProfileNode::MountBind { id, .. } => id,
            ProfileNode::MountUmount { id, .. } => id,
            ProfileNode::SystemApt { id, .. } => id,
            ProfileNode::ComfyUiInstall { id, .. } => id,
            ProfileNode::PythonVersionCheck { id, .. } => id,
            ProfileNode::PythonDeps { id, .. } => id,
            ProfileNode::CustomNodes { id, .. } => id,
            ProfileNode::SyncPull { id, .. } => id,
            ProfileNode::SyncPush { id, .. } => id,
            ProfileNode::StagingPush { id, .. } => id,
            ProfileNode::Models { id, .. } => id,
            ProfileNode::LlmModels { id, .. } => id,
            ProfileNode::PostInstall { id, .. } => id,
            ProfileNode::ComfyUiRestart { id, .. } => id,
            ProfileNode::ComfyUiHealth { id, .. } => id,
            ProfileNode::ServiceStart { id, .. } => id,
            ProfileNode::ServiceReady { id, .. } => id,
            ProfileNode::EnvSecret { id, .. } => id,
            ProfileNode::EnvLiteral { id, .. } => id,
            ProfileNode::EnvRef { id, .. } => id,
        }
    }

    /// The node's identity.
    pub fn node_id(&self) -> (r: NodeId)
        ensures
            r == self.id(),
    {
        match self {
            ProfileNode::Spec { id, .. } => *id,
            ProfileNode::ShExec { id, .. } => *id,
            ProfileNode::FsWrite { id, .. } => *id,
            ProfileNode::NetHttpGet { id, .. } => *id,
            ProfileNode::NetHttpPost { id, .. } => *id,
            ProfileNode::NetTransfer { id, .. } => *id,
            ProfileNode::MountBind { id, .. } => *id,
            ProfileNode::MountUmount { id, .. } => *id,
            ProfileNode::SystemApt { id, .. } => *id,
            ProfileNode::ComfyUiInstall { id, .. } => *id,
            ProfileNode::PythonVersionCheck { id, .. } => *id,
            ProfileNode::PythonDeps { id, .. } => *id,
            ProfileNode::CustomNodes { id, .. } => *id,
            ProfileNode::SyncPull { id, .. } => *id,
            ProfileNode::SyncPush { id, .. } => *id,
            ProfileNode::StagingPush { id, .. } => *id,
            ProfileNode::Models { id, .. } => *id,
            ProfileNode::LlmModels { id, .. } => *id,
            ProfileNode::PostInstall { id, .. } => *id,
            ProfileNode::ComfyUiRestart { id, .. } => *id,
            ProfileNode::ComfyUiHealth { id, .. } => *id,
            ProfileNode::ServiceStart { id, .. } => *id,
            ProfileNode::ServiceReady { id, .. } => *id,
            ProfileNode::EnvSecret { id, .. } => *id,
            ProfileNode::EnvLiteral { id, .. } => *id,
            ProfileNode::EnvRef { id, .. } => *id,
        }
    }
}

/// The nodes of the tree under `node`, each before its children, in the
/// order they are declared.
pub open spec fn preorder(node: ProfileNode) -> Seq<ProfileNode>
    decreases node,
{
    match node {
        ProfileNode::Spec { env, phases, .. } => seq![node] + preorder_slots(env.entries@)
            + preorder_list(phases@),
        ProfileNode::ShExec { env, .. } => seq![node] + preorder_slots(env.entries@),
        ProfileNode::FsWrite { content, .. } => seq![node] + preorder(*content),
        ProfileNode::NetHttpGet { headers, .. } => seq![node] + preorder_slots(headers.entries@),
        ProfileNode::NetHttpPost { headers, body, .. } => seq![node] + preorder_slots(
            headers.entries@,
        ) + (match body {
            Some(body) => preorder(*body),
            None => Seq::empty(),
        }),
        ProfileNode::SyncPull { env, .. } => seq![node] + preorder_slots(env.entries@),
        ProfileNode::StagingPush { env, .. } => seq![node] + preorder_slots(env.entries@),
        _ => seq![node],
    }
}

/// [`preorder`] of every value node of a slot.
pub open spec fn preorder_slots(entries: Seq<(String, ProfileNode)>) -> Seq<ProfileNode>
    decreases entries,
{
    if entries.len() == 0 {
        Seq::empty()
    } else {
        preorder_slots(entries.drop_last()) + preorder(entries.last().1)
    }
}

/// [`preorder`] of every node of a list.
pub open spec fn preorder_list(nodes: Seq<ProfileNode>) -> Seq<ProfileNode>
    decreases nodes,
{
    if nodes.len() == 0 {
        Seq::empty()
    } else {
        preorder_list(nodes.drop_last()) + preorder(nodes.last())
    }
}

} // verus!
