//! What one unit of work demands: a capability, and the paths and URLs
//! it is checked against.
//!
//! A direct phase demands what its payload says; a lifecycle phase
//! demands what each of its steps does.

use crate::context;
use crate::exec::{ErrorView, ExecError};
use crate::lifecycle::{Step, StepView};
use crate::profile::ProfileNode;
use crate::scheme;
use crate::scheme::{resolve, Transfer, TransferView};
use crate::text;
use crate::text::Text;
use vstd::prelude::*;

verus! {

/// What one unit of work demands.
#[derive(Debug, PartialEq, Eq)]
pub struct Demand {
    /// The capability it needs; none where it runs no effect.
    pub capability: Option<&'static str>,
    /// Local paths it reaches.
    pub paths: Vec<String>,
    /// URLs it reaches, resolved.
    pub urls: Vec<String>,
}

/// The model of a [`Demand`].
pub struct DemandView {
    pub capability: Option<Text>,
    pub paths: Seq<Text>,
    pub urls: Seq<Text>,
}

impl View for Demand {
    type V = DemandView;

    open spec fn view(&self) -> DemandView {
        DemandView {
            capability: text::opt_str(self.capability),
            paths: text::texts(self.paths@),
            urls: text::texts(self.urls@),
        }
    }
}

/// A demand for nothing.
pub open spec fn nothing() -> DemandView {
    DemandView { capability: None, paths: Seq::empty(), urls: Seq::empty() }
}

/// A demand for one capability.
pub open spec fn needs(capability: Text, paths: Seq<Text>, urls: Seq<Text>) -> DemandView {
    DemandView { capability: Some(capability), paths, urls }
}

impl Default for Demand {
    /// A demand for nothing.
    fn default() -> (r: Self)
        ensures
            r@ == nothing(),
    {
        let r = Demand { capability: None, paths: Vec::new(), urls: Vec::new() };
        assert(text::texts(r.paths@) =~= Seq::<Text>::empty());
        assert(text::texts(r.urls@) =~= Seq::<Text>::empty());
        r
    }
}

/// The model of a demand that may fail to resolve.
pub open spec fn demand_result(r: Result<Demand, ExecError>) -> Result<DemandView, ErrorView> {
    match r {
        Ok(demand) => Ok(demand@),
        Err(error) => Err(error@),
    }
}

/// The local path and the URL of a transfer: on a download the local
/// side is the destination, on an upload the source.
pub open spec fn targets(op: Text, src: Text, dst: Text) -> Result<(Text, Text), ErrorView> {
    match scheme::route(op, src, dst) {
        Ok(TransferView::Download { url }) => Ok((dst, url)),
        Ok(TransferView::Upload { url }) => Ok((src, url)),
        Err(error) => Err(error),
    }
}

/// What a transfer demands.
pub open spec fn transfer_demand(src: Text, dst: Text) -> Result<DemandView, ErrorView> {
    match targets("net_transfer"@, src, dst) {
        Ok((local, remote)) => Ok(needs("net.transfer"@, seq![local], seq![remote])),
        Err(error) => Err(error),
    }
}

/// What a direct phase demands. Only a transfer whose direction is open
/// fails.
pub open spec fn direct_demand(payload: ProfileNode) -> Result<DemandView, ErrorView> {
    match payload {
        ProfileNode::ShExec { .. } => Ok(needs("sh.exec"@, Seq::empty(), Seq::empty())),
        ProfileNode::FsWrite { path, .. } => Ok(needs("fs.write"@, seq![path@], Seq::empty())),
        ProfileNode::NetHttpGet { url, .. } => Ok(
            needs("net.http_get"@, Seq::empty(), seq![url@]),
        ),
        ProfileNode::NetHttpPost { url, .. } => Ok(
            needs("net.http_post"@, Seq::empty(), seq![url@]),
        ),
        ProfileNode::NetTransfer { src, dst, .. } => transfer_demand(src@, dst@),
        ProfileNode::MountBind { src, dst, .. } => Ok(
            needs("mount.bind"@, seq![src@, dst@], Seq::empty()),
        ),
        ProfileNode::MountUmount { path, .. } => Ok(
            needs("mount.umount"@, seq![path@], Seq::empty()),
        ),
        _ => Ok(nothing()),
    }
}

/// What a step demands. What a command writes is outside the path list,
/// and so are the pid file a poll reads and what a condition reads.
pub open spec fn step_demand(step: StepView) -> Result<DemandView, ErrorView> {
    match step {
        StepView::Sh(_) => Ok(needs("sh.exec"@, Seq::empty(), Seq::empty())),
        StepView::Transfer { src, dst } => transfer_demand(src, dst),
        StepView::HttpPoll { url, .. } => Ok(needs("net.http_get"@, Seq::empty(), seq![url])),
        StepView::Note(_) => Ok(nothing()),
    }
}

/// A demand for a capability and nothing else.
fn capability(name: &'static str) -> (r: Demand)
    ensures
        r@ == needs(name@, Seq::empty(), Seq::empty()),
{
    let mut r = Demand::default();
    r.capability = Some(name);
    r
}

/// A demand for a capability and one path.
fn on_path(name: &'static str, path: &String) -> (r: Demand)
    ensures
        r@ == needs(name@, seq![path@], Seq::empty()),
{
    let mut r = capability(name);
    r.paths.push(path.clone());
    assert(text::texts(r.paths@) =~= seq![path@]);
    r
}

/// A demand for a capability and one URL.
fn on_url(name: &'static str, url: &String) -> (r: Demand)
    ensures
        r@ == needs(name@, Seq::empty(), seq![url@]),
{
    let mut r = capability(name);
    r.urls.push(url.clone());
    assert(text::texts(r.urls@) =~= seq![url@]);
    r
}

/// What a transfer demands.
fn on_transfer(src: &String, dst: &String) -> (r: Result<Demand, ExecError>)
    ensures
        demand_result(r) == transfer_demand(src@, dst@),
{
    let (local, remote) = transfer_targets("net_transfer", src.as_str(), dst.as_str())?;
    let mut r = capability("net.transfer");
    r.paths.push(local);
    r.urls.push(remote);
    assert(text::texts(r.paths@) =~= seq![local@]);
    assert(text::texts(r.urls@) =~= seq![remote@]);
    Ok(r)
}

/// What a direct phase demands.
pub fn direct(payload: &ProfileNode) -> (r: Result<Demand, ExecError>)
    ensures
        demand_result(r) == direct_demand(*payload),
{
    match payload {
        ProfileNode::ShExec { .. } => Ok(capability("sh.exec")),
        ProfileNode::FsWrite { path, .. } => Ok(on_path("fs.write", path)),
        ProfileNode::NetHttpGet { url, .. } => Ok(on_url("net.http_get", url)),
        ProfileNode::NetHttpPost { url, .. } => Ok(on_url("net.http_post", url)),
        ProfileNode::NetTransfer { src, dst, .. } => on_transfer(src, dst),
        ProfileNode::MountBind { src, dst, .. } => {
            let mut r = on_path("mount.bind", src);
            r.paths.push(dst.clone());
            assert(text::texts(r.paths@) =~= seq![src@, dst@]) by {
                assert(text::texts(r.paths@).drop_last() =~= seq![src@]);
                assert(text::texts(r.paths@)[0] == seq![src@][0]);
            }
            Ok(r)
        },
        ProfileNode::MountUmount { path, .. } => Ok(on_path("mount.umount", path)),
        _ => Ok(Demand::default()),
    }
}

/// What a step demands.
pub fn step(planned: &Step) -> (r: Result<Demand, ExecError>)
    ensures
        demand_result(r) == step_demand(planned@),
{
    match planned {
        Step::Sh(_) => Ok(capability("sh.exec")),
        Step::Transfer { src, dst } => on_transfer(src, dst),
        Step::HttpPoll { url, .. } => Ok(on_url("net.http_get", url)),
        Step::Note(_) => Ok(Demand::default()),
    }
}

/// Whether one of the value nodes of a slot refers to the profile's own
/// environment.
pub open spec fn slot_refers(entries: Seq<(String, ProfileNode)>) -> bool {
    exists|i: int| 0 <= i < entries.len() && (#[trigger] entries[i]).1 is EnvRef
}

/// Whether a phase refers to the profile's own environment, wherever the
/// reference sits.
pub open spec fn refers(payload: ProfileNode) -> bool {
    match payload {
        ProfileNode::FsWrite { content, .. } => *content is EnvRef,
        ProfileNode::SyncPull { env, .. } => slot_refers(env.entries@),
        ProfileNode::StagingPush { env, .. } => slot_refers(env.entries@),
        ProfileNode::ShExec { env, .. } => slot_refers(env.entries@),
        ProfileNode::NetHttpGet { headers, .. } => slot_refers(headers.entries@),
        ProfileNode::NetHttpPost { headers, body, .. } => slot_refers(headers.entries@) || (
        body is Some && *body->0 is EnvRef),
        _ => false,
    }
}

/// Whether one of the value nodes of a slot refers to the profile's own
/// environment.
fn any_ref(entries: &Vec<(String, ProfileNode)>) -> (r: bool)
    ensures
        r == slot_refers(entries@),
{
    let mut i: usize = 0;
    while i < entries.len()
        invariant
            i <= entries@.len(),
            forall|j: int| 0 <= j < i ==> !((#[trigger] entries@[j]).1 is EnvRef),
        decreases entries@.len() - i,
    {
        if is_ref(&entries[i].1) {
            return true;
        }
        i = i + 1;
    }
    false
}

fn is_ref(node: &ProfileNode) -> (r: bool)
    ensures
        r == (node is EnvRef),
{
    matches!(node, ProfileNode::EnvRef { .. })
}

/// The further capability of a phase that refers to the profile's own
/// environment.
pub fn env_ref(payload: &ProfileNode) -> (r: Option<&'static str>)
    ensures
        match r {
            Some(capability) => refers(*payload) && capability@ == "env.ref"@,
            None => !refers(*payload),
        },
{
    let carries = match payload {
        ProfileNode::FsWrite { content, .. } => is_ref(content),
        ProfileNode::SyncPull { env, .. } => any_ref(&env.entries),
        ProfileNode::StagingPush { env, .. } => any_ref(&env.entries),
        ProfileNode::ShExec { env, .. } => any_ref(&env.entries),
        ProfileNode::NetHttpGet { headers, .. } => any_ref(&headers.entries),
        ProfileNode::NetHttpPost { headers, body, .. } => any_ref(&headers.entries) || (
        match body {
            Some(body) => is_ref(body),
            None => false,
        }),
        _ => false,
    };
    if carries {
        Some("env.ref")
    } else {
        None
    }
}

/// The local path and the URL of a transfer.
fn transfer_targets(op: &str, src: &str, dst: &str) -> (r: Result<(String, String), ExecError>)
    ensures
        match r {
            Ok(pair) => targets(op@, src@, dst@) == Ok::<(Text, Text), ErrorView>(
                (pair.0@, pair.1@),
            ),
            Err(error) => targets(op@, src@, dst@) == Err::<(Text, Text), ErrorView>(error@),
        },
{
    match resolve(op, src, dst)? {
        Transfer::Download { url } => Ok((dst.to_owned(), url)),
        Transfer::Upload { url } => Ok((src.to_owned(), url)),
    }
}

/// Whatever demands a transfer names exactly one local path and one URL
/// to be checked, and the URL is the one that will be reached.
pub proof fn law_a_transfer_is_checked_on_both_sides(src: Text, dst: Text)
    ensures
        transfer_demand(src, dst) matches Ok(demand) ==> {
            &&& demand.capability == Some("net.transfer"@)
            &&& demand.paths.len() == 1
            &&& demand.urls.len() == 1
            &&& scheme::is_http(demand.urls[0])
            &&& (demand.paths[0] == src || demand.paths[0] == dst)
        },
{
    scheme::law_a_resolved_url_is_http("net_transfer"@, src, dst);
}

/// A direct phase demands the capability that its own kind is called by,
/// and is checked on all that it reaches and nothing else: a write and an
/// unmount on their path, a bind mount on both its paths, a request on
/// its URL, a command on neither.
pub proof fn law_a_direct_phase_demands_what_its_kind_names(payload: ProfileNode)
    ensures
        payload matches ProfileNode::ShExec { .. } ==> (direct_demand(payload) matches Ok(demand)
            && demand.capability == Some("sh.exec"@) && demand.paths.len() == 0
            && demand.urls.len() == 0),
        payload matches ProfileNode::FsWrite { path, .. } ==> (direct_demand(payload) matches Ok(
            demand,
        ) && demand.capability == Some("fs.write"@) && demand.paths == seq![path@]
            && demand.urls.len() == 0),
        payload matches ProfileNode::NetHttpGet { url, .. } ==> (direct_demand(payload) matches Ok(
            demand,
        ) && demand.capability == Some("net.http_get"@) && demand.paths.len() == 0 && demand.urls
            == seq![url@]),
        payload matches ProfileNode::NetHttpPost { url, .. } ==> (direct_demand(
            payload,
        ) matches Ok(demand) && demand.capability == Some("net.http_post"@) && demand.paths.len()
            == 0 && demand.urls == seq![url@]),
        payload matches ProfileNode::MountBind { src, dst, .. } ==> (direct_demand(
            payload,
        ) matches Ok(demand) && demand.capability == Some("mount.bind"@) && demand.paths == seq![
            src@,
            dst@,
        ] && demand.urls.len() == 0),
        payload matches ProfileNode::MountUmount { path, .. } ==> (direct_demand(
            payload,
        ) matches Ok(demand) && demand.capability == Some("mount.umount"@) && demand.paths == seq![
            path@,
        ] && demand.urls.len() == 0),
        payload matches ProfileNode::NetTransfer { .. } ==> (direct_demand(payload) matches Ok(
            demand,
        ) ==> demand.capability == Some("net.transfer"@)),
        direct_demand(payload) is Err ==> payload is NetTransfer,
        direct_demand(payload) matches Ok(demand) ==> (demand.capability matches Some(capability)
            ==> capability == context::kind_name(payload)),
{
}

/// Every direct phase demands a capability; every other phase demands
/// nothing of its own, its steps do.
pub proof fn law_only_direct_phases_demand(payload: ProfileNode)
    ensures
        payload is ShExec || payload is FsWrite || payload is NetHttpGet || payload is NetHttpPost
            || payload is NetTransfer || payload is MountBind || payload is MountUmount <==> !(
        direct_demand(payload) matches Ok(demand) && demand.capability is None),
        direct_demand(payload) matches Ok(demand) && demand.capability is None ==> (direct_demand(
            payload,
        )->Ok_0).paths.len() == 0 && (direct_demand(payload)->Ok_0).urls.len() == 0,
{
}

/// A transfer is checked on the path it lands in or comes from, and on
/// the address it reaches, be it a phase or a step: a download of a web
/// address on the destination path and that address, an upload on the
/// source path and the destination address.
pub proof fn law_a_transfer_is_checked_where_it_lands(
    payload: ProfileNode,
    local: Text,
    remote: Text,
)
    requires
        "https://"@.is_prefix_of(remote) || "http://"@.is_prefix_of(remote),
        !text::holds(local, "://"@),
    ensures
        payload matches ProfileNode::NetTransfer { src, dst, .. } && src@ == remote && dst@
            == local ==> (direct_demand(payload) matches Ok(demand) && demand.capability == Some(
            "net.transfer"@,
        ) && demand.paths == seq![local] && demand.urls == seq![remote]),
        payload matches ProfileNode::NetTransfer { src, dst, .. } && src@ == local && dst@
            == remote ==> (direct_demand(payload) matches Ok(demand) && demand.capability == Some(
            "net.transfer"@,
        ) && demand.paths == seq![local] && demand.urls == seq![remote]),
        step_demand(StepView::Transfer { src: remote, dst: local }) matches Ok(demand)
            && demand.capability == Some("net.transfer"@) && demand.paths == seq![local]
            && demand.urls == seq![remote],
        step_demand(StepView::Transfer { src: local, dst: remote }) matches Ok(demand)
            && demand.capability == Some("net.transfer"@) && demand.paths == seq![local]
            && demand.urls == seq![remote],
{
    scheme::law_a_web_address_downloads_as_it_stands("net_transfer"@, remote, local, None);
    scheme::law_a_web_address_uploads_as_it_stands("net_transfer"@, local, remote);
}

/// A transfer step demands what a transfer phase of the same two sides
/// does, and fails to resolve where it does.
pub proof fn law_a_transfer_step_demands_what_the_phase_does(payload: ProfileNode)
    ensures
        payload matches ProfileNode::NetTransfer { src, dst, .. } ==> step_demand(
            StepView::Transfer { src: src@, dst: dst@ },
        ) == direct_demand(payload) && (direct_demand(payload) is Ok <==> scheme::route(
            "net_transfer"@,
            src@,
            dst@,
        ) is Ok),
{
}

/// A command step demands `sh.exec` and reaches nothing that is checked;
/// a poll demands `net.http_get` on the URL it asks; a note demands
/// nothing.
pub proof fn law_a_step_demands_what_it_does(step: StepView)
    ensures
        step is Sh ==> (step_demand(step) matches Ok(demand) && demand.capability == Some(
            "sh.exec"@,
        ) && demand.paths.len() == 0 && demand.urls.len() == 0),
        step matches StepView::HttpPoll { url, .. } ==> (step_demand(step) matches Ok(demand)
            && demand.capability == Some("net.http_get"@) && demand.paths.len() == 0
            && demand.urls == seq![url]),
        step is Note ==> (step_demand(step) matches Ok(demand) && demand.capability is None
            && demand.paths.len() == 0 && demand.urls.len() == 0),
        step_demand(step) is Err ==> step is Transfer,
{
}

/// One reference to the profile's own environment is enough, in whichever
/// slot and at whichever place it sits; without one a phase refers to
/// nothing.
pub proof fn law_one_reference_refers(payload: ProfileNode, i: int)
    ensures
        payload matches ProfileNode::ShExec { env, .. } ==> (0 <= i < env.entries@.len()
            && env.entries@[i].1 is EnvRef ==> refers(payload)),
        payload matches ProfileNode::SyncPull { env, .. } ==> (0 <= i < env.entries@.len()
            && env.entries@[i].1 is EnvRef ==> refers(payload)),
        payload matches ProfileNode::StagingPush { env, .. } ==> (0 <= i < env.entries@.len()
            && env.entries@[i].1 is EnvRef ==> refers(payload)),
        payload matches ProfileNode::NetHttpGet { headers, .. } ==> (0 <= i
            < headers.entries@.len() && headers.entries@[i].1 is EnvRef ==> refers(payload)),
        payload matches ProfileNode::NetHttpPost { headers, body, .. } ==> {
            &&& 0 <= i < headers.entries@.len() && headers.entries@[i].1 is EnvRef ==> refers(
                payload,
            )
            &&& body is Some && *body->0 is EnvRef ==> refers(payload)
        },
        payload matches ProfileNode::FsWrite { content, .. } ==> (refers(payload) <==> *content
            is EnvRef),
        payload matches ProfileNode::ShExec { env, .. } ==> (refers(payload) ==> exists|j: int|
            0 <= j < env.entries@.len() && (#[trigger] env.entries@[j]).1 is EnvRef),
        payload matches ProfileNode::SyncPull { env, .. } ==> (refers(payload) ==> exists|j: int|
            0 <= j < env.entries@.len() && (#[trigger] env.entries@[j]).1 is EnvRef),
        payload matches ProfileNode::StagingPush { env, .. } ==> (refers(payload) ==> exists|j: int|
            0 <= j < env.entries@.len() && (#[trigger] env.entries@[j]).1 is EnvRef),
        payload matches ProfileNode::NetHttpGet { headers, .. } ==> (refers(payload) ==> exists|
            j: int,
        |
            0 <= j < headers.entries@.len() && (#[trigger] headers.entries@[j]).1 is EnvRef),
        payload matches ProfileNode::NetHttpPost { headers, body, .. } ==> (refers(payload) ==> (
        body matches Some(node) && *node is EnvRef) || exists|j: int|
            0 <= j < headers.entries@.len() && (#[trigger] headers.entries@[j]).1 is EnvRef),
        refers(payload) ==> payload is ShExec || payload is SyncPull || payload is StagingPush
            || payload is NetHttpGet || payload is NetHttpPost || payload is FsWrite,
{
}

} // verus!
