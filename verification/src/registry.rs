//! The ops that make one effect each: what they ask the host for, and
//! what they make of its answer.
//!
//! An op begins with a phase that was admitted and with the phase's
//! values as the host resolved them. In a dry run it is done at once; in
//! a real one it says what effect the host is to make, and goes on with
//! the outcome. Either way it says what happened in one entry, and in one
//! line if it succeeded.

use crate::admission;
use crate::admission::{mark_report_failed, report_base, variant_fail, Admitted};
use crate::audit;
use crate::audit::EventView;
use crate::context;
use crate::context::{ContextView, ExecContext};
use crate::effects::{ExecOutcome, HttpOpts, HttpOutcome, ShOpts, TransferOutcome};
use crate::exec;
use crate::exec::{ErrorView, ExecError, ExecMode};
use crate::names::EnvMap;
use crate::profile::{NodeId, ProfileNode, Slots};
use crate::report;
use crate::report::{ReportView, StepReport};
use crate::scheme;
use crate::text;
use crate::text::{byte_len, copy_list, debug, debug_list, number, same, signed_number, Text};
use vstd::prelude::*;

verus! {

/// A phase's values as the host resolved them, or why it could not.
pub struct Resolved {
    /// The named values: a command's variables, a request's headers.
    pub env: Result<EnvMap, ExecError>,
    /// The single value: what is written, or the body that is sent.
    pub value: Result<String, ExecError>,
}

/// A command to run.
pub struct ShRun {
    pub id: String,
    pub kind: String,
    pub argv: Vec<String>,
    pub opts: ShOpts,
}

/// A file to write.
pub struct WriteRun {
    pub id: String,
    pub kind: String,
    pub path: String,
    pub content: String,
}

/// A request to send.
pub struct HttpRun {
    pub id: String,
    pub kind: String,
    pub url: String,
    pub opts: HttpOpts,
    /// The body and its content type, if it is sent with one.
    pub body: Option<(String, String)>,
}

/// A transfer to make.
pub struct TransferRun {
    pub id: String,
    pub kind: String,
    pub src: String,
    pub dst: String,
}

/// A directory to mount, or to unmount if it has no source.
pub struct MountRun {
    pub id: String,
    pub kind: String,
    pub src: Option<String>,
    pub dst: String,
}

/// What follows when an op begins.
pub enum Start {
    /// It is done, and this is its value.
    Done(String),
    /// The host is to make this effect.
    Sh(ShRun),
    Write(WriteRun),
    Http(HttpRun),
    Transfer(TransferRun),
    Mount(MountRun),
}

/// The model of a [`Start`].
pub enum StartView {
    Done(Text),
    Sh { id: Text, kind: Text, argv: Seq<Text>, env: EnvMap },
    Write { id: Text, kind: Text, path: Text, content: Text },
    Http {
        id: Text,
        kind: Text,
        url: Text,
        headers: EnvMap,
        timeout_sec: Option<u16>,
        body: Option<(Text, Text)>,
    },
    Transfer { id: Text, kind: Text, src: Text, dst: Text },
    Mount { id: Text, kind: Text, src: Option<Text>, dst: Text },
}

/// The model of a body and its content type.
pub open spec fn body_view(body: Option<(String, String)>) -> Option<(Text, Text)> {
    match body {
        Some((body, content_type)) => Some((body@, content_type@)),
        None => None,
    }
}

impl View for Start {
    type V = StartView;

    open spec fn view(&self) -> StartView {
        match *self {
            Start::Done(value) => StartView::Done(value@),
            Start::Sh(run) => StartView::Sh {
                id: run.id@,
                kind: run.kind@,
                argv: text::texts(run.argv@),
                env: run.opts.env,
            },
            Start::Write(run) => StartView::Write {
                id: run.id@,
                kind: run.kind@,
                path: run.path@,
                content: run.content@,
            },
            Start::Http(run) => StartView::Http {
                id: run.id@,
                kind: run.kind@,
                url: run.url@,
                headers: run.opts.headers,
                timeout_sec: run.opts.timeout_sec,
                body: body_view(run.body),
            },
            Start::Transfer(run) => StartView::Transfer {
                id: run.id@,
                kind: run.kind@,
                src: run.src@,
                dst: run.dst@,
            },
            Start::Mount(run) => StartView::Mount {
                id: run.id@,
                kind: run.kind@,
                src: text::opt_text(run.src),
                dst: run.dst@,
            },
        }
    }
}

/// The model of how an op begins.
pub open spec fn start_result(r: Result<Start, ExecError>) -> Result<StartView, ErrorView> {
    match r {
        Ok(start) => Ok(start@),
        Err(error) => Err(error@),
    }
}

/// An op that failed: the entry says so.
pub open spec fn failing<'a, T>(
    ctx: ContextView<'a>,
    entry: ReportView,
    error: ErrorView,
) -> (ContextView<'a>, Result<T, ErrorView>) {
    (ctx.with_report(admission::marked(ctx.mode, entry, error)), Err(error))
}

/// An op that is done: a line and an entry say so.
pub open spec fn finished<'a>(ctx: ContextView<'a>, line: Text, entry: ReportView) -> ContextView<
    'a,
> {
    ctx.with_line(line).with_report(entry)
}

/// An op whose payload is not what it is for.
pub open spec fn unfit<'a>(ctx: ContextView<'a>, node: NodeId, op: Text, expected: Text) -> (
    ContextView<'a>,
    Result<StartView, ErrorView>,
) {
    (
        ctx.with_report(admission::variant_failure(ctx, node, op, expected)),
        Err(admission::variant_error(node, expected)),
    )
}

/// The entry of a dry run.
pub open spec fn dry(entry: ReportView) -> ReportView {
    ReportView { dry_run: Some(true), ..entry }
}

/// Report an op that failed, and give the error back.
fn fail(ctx: &mut ExecContext, entry: StepReport, error: ExecError) -> (r: ExecError)
    ensures
        r@ == error@,
        final(ctx)@ == old(ctx)@.with_report(
            admission::marked(old(ctx)@.mode, entry@, error@),
        ),
{
    let mut entry = entry;
    mark_report_failed(ctx.mode, &mut entry, &error);
    ctx.push_report(entry);
    error
}

/// Report an op that is done.
fn finish(ctx: &mut ExecContext, line: String, entry: StepReport) -> (r: String)
    ensures
        r@ == line@,
        final(ctx)@ == finished(old(ctx)@, line@, entry@),
{
    let value = ctx.record_line(line);
    ctx.push_report(entry);
    value
}

// ---------------------------------------------------------------------
// Commands
// ---------------------------------------------------------------------

/// The entry of a command.
pub open spec fn sh_entry(id: Text, kind: Text, argv: Seq<Text>) -> ReportView {
    ReportView { argv: Some(argv), ..report::succeeded(id, kind, "sh.exec"@) }
}

fn new_sh_entry(id: String, kind: String, argv: &Vec<String>) -> (r: StepReport)
    ensures
        r@ == sh_entry(id@, kind@, text::texts(argv@)),
{
    let mut entry = StepReport::new(id, kind, "sh.exec");
    entry.argv = Some(copy_list(argv));
    entry
}

/// What a dry run says of a command: of its variables, the names.
pub open spec fn sh_line(argv: Seq<Text>, names: Seq<Text>) -> Text {
    if names.len() == 0 {
        "sh_exec argv="@ + text::debug_list_text(argv)
    } else {
        "sh_exec argv="@ + text::debug_list_text(argv) + " env_keys="@ + text::debug_list_text(
            names,
        )
    }
}

/// How a command begins.
pub open spec fn sh_begun<'a>(
    ctx: ContextView<'a>,
    node: NodeId,
    payload: ProfileNode,
    env: Result<EnvMap, ExecError>,
) -> (ContextView<'a>, Result<StartView, ErrorView>) {
    match payload {
        ProfileNode::ShExec { argv, .. } => {
            let (id, kind) = admission::base_of(ctx, node);
            let argv = text::texts(argv@);
            let entry = sh_entry(id, kind, argv);
            match env {
                Err(error) => failing(ctx, entry, error@),
                Ok(env) => {
                    let told = ctx.with_audit(
                        EventView::ShExec {
                            mode: audit::mode_name(ctx.mode),
                            kind,
                            argv,
                            env_keys: audit::shown_names(env.names()),
                        },
                    );
                    match ctx.mode {
                        ExecMode::DryRun => {
                            let line = sh_line(argv, env.names());
                            (finished(told, line, dry(entry)), Ok(StartView::Done(line)))
                        },
                        ExecMode::Real => (told, Ok(StartView::Sh { id, kind, argv, env })),
                    }
                },
            }
        },
        _ => unfit(ctx, node, "sh.exec"@, "ShExec"@),
    }
}

/// Begin a command.
fn run_sh_exec<'a>(
    ctx: &mut ExecContext<'a>,
    node: NodeId,
    payload: &'a ProfileNode,
    env: Result<EnvMap, ExecError>,
) -> (r: Result<Start, ExecError>)
    ensures
        (final(ctx)@, start_result(r)) == sh_begun(old(ctx)@, node, *payload, env),
{
    let argv = match payload {
        ProfileNode::ShExec { argv, .. } => argv,
        _ => {
            return Err(variant_fail(ctx, node, "sh.exec", "ShExec"));
        },
    };
    let (id, kind) = report_base(ctx, node);
    let env = match env {
        Ok(env) => env,
        Err(error) => {
            let entry = new_sh_entry(id, kind, argv);
            return Err(fail(ctx, entry, error));
        },
    };
    ctx.push_audit(audit::sh_exec(ctx.mode, kind.as_str(), argv, &env));
    match ctx.mode {
        ExecMode::DryRun => {
            let mut line = "sh_exec argv=".to_owned();
            line.append(debug_list(argv).as_str());
            if !env.is_empty() {
                line.append(" env_keys=");
                line.append(debug_list(&env.keys()).as_str());
            }
            let mut entry = new_sh_entry(id, kind, argv);
            entry.dry_run = Some(true);
            Ok(Start::Done(finish(ctx, line, entry)))
        },
        ExecMode::Real => Ok(
            Start::Sh(ShRun { id, kind, argv: copy_list(argv), opts: ShOpts::new(env) }),
        ),
    }
}

/// The entry of a command that ran.
pub open spec fn ran_entry(
    id: Text,
    kind: Text,
    argv: Seq<Text>,
    outcome: ExecOutcome,
) -> ReportView {
    ReportView {
        status: outcome.exit_code as i64,
        stdout: Some(outcome.stdout_tail@),
        stderr: Some(outcome.stderr_tail@),
        ..sh_entry(id, kind, argv)
    }
}

/// The failure of a command that ended in a code other than zero.
pub open spec fn exit_error(outcome: ExecOutcome) -> ErrorView {
    scheme::failed(
        "sh_exec"@,
        "exit "@ + text::signed_decimal(outcome.exit_code as int) + " stderr="@
            + text::debug_text(outcome.stderr_tail@),
    )
}

/// How a command ends.
pub open spec fn sh_ended<'a>(
    ctx: ContextView<'a>,
    id: Text,
    kind: Text,
    argv: Seq<Text>,
    outcome: Result<ExecOutcome, ExecError>,
) -> (ContextView<'a>, Result<Text, ErrorView>) {
    match outcome {
        Err(error) => failing(ctx, sh_entry(id, kind, argv), error@),
        Ok(outcome) => {
            let entry = ran_entry(id, kind, argv, outcome);
            if outcome.exit_code != 0 {
                let error = exit_error(outcome);
                (
                    ctx.with_report(
                        ReportView { ok: false, reason: Some(error.sentence()), ..entry },
                    ),
                    Err(error),
                )
            } else {
                let line = "sh_exec exit="@ + text::signed_decimal(outcome.exit_code as int)
                    + " stdout="@ + text::debug_text(outcome.stdout_tail@);
                (finished(ctx, line, entry), Ok(line))
            }
        },
    }
}

/// Go on with the outcome of a command.
pub fn finish_sh_exec(
    ctx: &mut ExecContext,
    run: ShRun,
    outcome: Result<ExecOutcome, ExecError>,
) -> (r: Result<String, ExecError>)
    ensures
        (final(ctx)@, exec::text_result(r)) == sh_ended(
            old(ctx)@,
            run.id@,
            run.kind@,
            text::texts(run.argv@),
            outcome,
        ),
{
    let mut entry = new_sh_entry(run.id, run.kind, &run.argv);
    let outcome = match outcome {
        Ok(outcome) => outcome,
        Err(error) => {
            return Err(fail(ctx, entry, error));
        },
    };
    let code = signed_number(outcome.exit_code as i64);
    entry.status = outcome.exit_code as i64;
    entry.stdout = Some(outcome.stdout_tail.clone());
    entry.stderr = Some(outcome.stderr_tail.clone());
    if outcome.exit_code != 0 {
        let mut message = "exit ".to_owned();
        message.append(code.as_str());
        message.append(" stderr=");
        message.append(debug(outcome.stderr_tail.as_str()).as_str());
        let error = ExecError::EffectFailed { op: "sh_exec".to_owned(), message };
        entry.ok = false;
        entry.reason = Some(error.to_string());
        ctx.push_report(entry);
        return Err(error);
    }
    let mut line = "sh_exec exit=".to_owned();
    line.append(code.as_str());
    line.append(" stdout=");
    line.append(debug(outcome.stdout_tail.as_str()).as_str());
    Ok(finish(ctx, line, entry))
}

// ---------------------------------------------------------------------
// Files
// ---------------------------------------------------------------------

/// Where a value comes from, by name: never the value.
pub open spec fn source_of(node: ProfileNode) -> Text {
    match node {
        ProfileNode::EnvSecret { name, .. } => "secret:"@ + name@,
        ProfileNode::EnvRef { name, .. } => "env_ref:"@ + name@,
        _ => "string"@,
    }
}

/// Where a value comes from, by name.
pub fn value_source(node: &ProfileNode) -> (r: String)
    ensures
        r@ == source_of(*node),
{
    match node {
        ProfileNode::EnvSecret { name, .. } => {
            let mut out = "secret:".to_owned();
            out.append(name.as_str());
            out
        },
        ProfileNode::EnvRef { name, .. } => {
            let mut out = "env_ref:".to_owned();
            out.append(name.as_str());
            out
        },
        _ => "string".to_owned(),
    }
}

/// The entry of a file.
pub open spec fn write_entry(id: Text, kind: Text, path: Text) -> ReportView {
    ReportView { path: Some(path), ..report::succeeded(id, kind, "fs.write"@) }
}

fn new_write_entry(id: String, kind: String, path: &str) -> (r: StepReport)
    ensures
        r@ == write_entry(id@, kind@, path@),
{
    let mut entry = StepReport::new(id, kind, "fs.write");
    entry.path = Some(path.to_owned());
    entry
}

/// What is said of a file: how many bytes it gets.
pub open spec fn write_line(path: Text, bytes: u64) -> Text {
    "fs_write path="@ + path + " bytes="@ + text::decimal(bytes as nat)
}

fn new_write_line(path: &str, bytes: u64) -> (r: String)
    ensures
        r@ == write_line(path@, bytes),
{
    let mut line = "fs_write path=".to_owned();
    line.append(path);
    line.append(" bytes=");
    line.append(number(bytes).as_str());
    line
}

/// How a file begins.
pub open spec fn write_begun<'a>(
    ctx: ContextView<'a>,
    node: NodeId,
    payload: ProfileNode,
    value: Result<String, ExecError>,
) -> (ContextView<'a>, Result<StartView, ErrorView>) {
    match payload {
        ProfileNode::FsWrite { path, content, .. } => {
            let (id, kind) = admission::base_of(ctx, node);
            let entry = write_entry(id, kind, path@);
            match value {
                Err(error) => failing(ctx, entry, error@),
                Ok(value) => {
                    let bytes = text::byte_count(value@);
                    let told = ctx.with_audit(
                        EventView::FsWrite {
                            mode: audit::mode_name(ctx.mode),
                            kind,
                            path: path@,
                            bytes,
                            content_source: source_of(*content),
                        },
                    );
                    match ctx.mode {
                        ExecMode::DryRun => {
                            let line = write_line(path@, bytes);
                            (
                                finished(
                                    told,
                                    line,
                                    ReportView { bytes: Some(bytes), ..dry(entry) },
                                ),
                                Ok(StartView::Done(line)),
                            )
                        },
                        ExecMode::Real => (
                            told,
                            Ok(StartView::Write { id, kind, path: path@, content: value@ }),
                        ),
                    }
                },
            }
        },
        _ => unfit(ctx, node, "fs.write"@, "FsWrite"@),
    }
}

/// Begin a file.
fn run_fs_write<'a>(
    ctx: &mut ExecContext<'a>,
    node: NodeId,
    payload: &'a ProfileNode,
    value: Result<String, ExecError>,
) -> (r: Result<Start, ExecError>)
    ensures
        (final(ctx)@, start_result(r)) == write_begun(old(ctx)@, node, *payload, value),
{
    let (path, content) = match payload {
        ProfileNode::FsWrite { path, content, .. } => (path, content),
        _ => {
            return Err(variant_fail(ctx, node, "fs.write", "FsWrite"));
        },
    };
    let (id, kind) = report_base(ctx, node);
    let source = value_source(content);
    let value = match value {
        Ok(value) => value,
        Err(error) => {
            let entry = new_write_entry(id, kind, path.as_str());
            return Err(fail(ctx, entry, error));
        },
    };
    let bytes = byte_len(value.as_str());
    ctx.push_audit(
        audit::fs_write(ctx.mode, kind.as_str(), path.as_str(), bytes, source.as_str()),
    );
    match ctx.mode {
        ExecMode::DryRun => {
            let line = new_write_line(path.as_str(), bytes);
            let mut entry = new_write_entry(id, kind, path.as_str());
            entry.bytes = Some(bytes);
            entry.dry_run = Some(true);
            Ok(Start::Done(finish(ctx, line, entry)))
        },
        ExecMode::Real => Ok(
            Start::Write(WriteRun { id, kind, path: path.clone(), content: value }),
        ),
    }
}

/// How a file ends.
pub open spec fn write_ended<'a>(
    ctx: ContextView<'a>,
    id: Text,
    kind: Text,
    path: Text,
    outcome: Result<u64, ExecError>,
) -> (ContextView<'a>, Result<Text, ErrorView>) {
    match outcome {
        Err(error) => failing(ctx, write_entry(id, kind, path), error@),
        Ok(bytes) => {
            let line = write_line(path, bytes);
            (
                finished(
                    ctx,
                    line,
                    ReportView { bytes: Some(bytes), ..write_entry(id, kind, path) },
                ),
                Ok(line),
            )
        },
    }
}

/// Go on with the outcome of writing a file.
pub fn finish_fs_write(ctx: &mut ExecContext, run: WriteRun, outcome: Result<u64, ExecError>) -> (r:
    Result<String, ExecError>)
    ensures
        (final(ctx)@, exec::text_result(r)) == write_ended(
            old(ctx)@,
            run.id@,
            run.kind@,
            run.path@,
            outcome,
        ),
{
    let mut entry = new_write_entry(run.id, run.kind, run.path.as_str());
    let bytes = match outcome {
        Ok(bytes) => bytes,
        Err(error) => {
            return Err(fail(ctx, entry, error));
        },
    };
    let line = new_write_line(run.path.as_str(), bytes);
    entry.bytes = Some(bytes);
    Ok(finish(ctx, line, entry))
}

// ---------------------------------------------------------------------
// Requests
// ---------------------------------------------------------------------

/// The entry of a request.
pub open spec fn http_entry(id: Text, kind: Text, op: Text, url: Text) -> ReportView {
    ReportView { url: Some(url), ..report::succeeded(id, kind, op) }
}

fn new_http_entry(id: String, kind: String, op: &str, url: &str) -> (r: StepReport)
    ensures
        r@ == http_entry(id@, kind@, op@, url@),
{
    let mut entry = StepReport::new(id, kind, op);
    entry.url = Some(url.to_owned());
    entry
}

/// What a dry run says of a request beside its URL: the names of its
/// headers and its deadline, as far as they are declared.
pub open spec fn request_text(names: Seq<Text>, timeout_sec: Option<u16>) -> Text {
    let headers = if names.len() == 0 {
        Seq::empty()
    } else {
        " header_names="@ + text::debug_list_text(names)
    };
    match timeout_sec {
        Some(sec) => headers + " timeout_sec="@ + text::decimal(sec as nat),
        None => headers,
    }
}

/// What a dry run says of a request beside its URL.
pub fn render_http_request(headers: &EnvMap, timeout_sec: Option<u16>) -> (r: String)
    ensures
        r@ == request_text(headers.names(), timeout_sec),
{
    let mut out = if headers.is_empty() {
        String::new()
    } else {
        let mut named = " header_names=".to_owned();
        named.append(debug_list(&headers.keys()).as_str());
        named
    };
    if headers.is_empty() {
        assert(out@ =~= Seq::<char>::empty());
    }
    if let Some(sec) = timeout_sec {
        out.append(" timeout_sec=");
        out.append(number(sec as u64).as_str());
    }
    out
}

/// How a GET request begins.
pub open spec fn get_begun<'a>(
    ctx: ContextView<'a>,
    node: NodeId,
    payload: ProfileNode,
    env: Result<EnvMap, ExecError>,
) -> (ContextView<'a>, Result<StartView, ErrorView>) {
    match payload {
        ProfileNode::NetHttpGet { url, timeout_sec, .. } => {
            let (id, kind) = admission::base_of(ctx, node);
            let entry = http_entry(id, kind, "net.http_get"@, url@);
            match env {
                Err(error) => failing(ctx, entry, error@),
                Ok(headers) => {
                    let told = ctx.with_audit(
                        EventView::HttpGet {
                            mode: audit::mode_name(ctx.mode),
                            kind,
                            url: url@,
                            header_names: audit::shown_names(headers.names()),
                        },
                    );
                    match ctx.mode {
                        ExecMode::DryRun => {
                            let line = "net_http_get url="@ + url@ + request_text(
                                headers.names(),
                                timeout_sec,
                            );
                            (finished(told, line, dry(entry)), Ok(StartView::Done(line)))
                        },
                        ExecMode::Real => (
                            told,
                            Ok(
                                StartView::Http {
                                    id,
                                    kind,
                                    url: url@,
                                    headers,
                                    timeout_sec,
                                    body: None,
                                },
                            ),
                        ),
                    }
                },
            }
        },
        _ => unfit(ctx, node, "net.http_get"@, "NetHttpGet"@),
    }
}

/// Begin a GET request.
fn run_http_get<'a>(
    ctx: &mut ExecContext<'a>,
    node: NodeId,
    payload: &'a ProfileNode,
    env: Result<EnvMap, ExecError>,
) -> (r: Result<Start, ExecError>)
    ensures
        (final(ctx)@, start_result(r)) == get_begun(old(ctx)@, node, *payload, env),
{
    let (url, timeout_sec) = match payload {
        ProfileNode::NetHttpGet { url, timeout_sec, .. } => (url, *timeout_sec),
        _ => {
            return Err(variant_fail(ctx, node, "net.http_get", "NetHttpGet"));
        },
    };
    let (id, kind) = report_base(ctx, node);
    let headers = match env {
        Ok(headers) => headers,
        Err(error) => {
            let entry = new_http_entry(id, kind, "net.http_get", url.as_str());
            return Err(fail(ctx, entry, error));
        },
    };
    ctx.push_audit(audit::http_get(ctx.mode, kind.as_str(), url.as_str(), &headers));
    match ctx.mode {
        ExecMode::DryRun => {
            let mut line = "net_http_get url=".to_owned();
            line.append(url.as_str());
            line.append(render_http_request(&headers, timeout_sec).as_str());
            let mut entry = new_http_entry(id, kind, "net.http_get", url.as_str());
            entry.dry_run = Some(true);
            Ok(Start::Done(finish(ctx, line, entry)))
        },
        ExecMode::Real => Ok(
            Start::Http(
                HttpRun {
                    id,
                    kind,
                    url: url.clone(),
                    opts: HttpOpts::new(headers, timeout_sec),
                    body: None,
                },
            ),
        ),
    }
}

/// How the form of a value body is called: by its source where that has a
/// name.
pub open spec fn body_name(body: ProfileNode) -> Text {
    match body {
        ProfileNode::EnvSecret { .. } => "body:"@ + source_of(body),
        ProfileNode::EnvRef { .. } => "body:"@ + source_of(body),
        _ => "body"@,
    }
}

/// How the form of a value body is called.
fn body_form_name(body: &ProfileNode) -> (r: String)
    ensures
        r@ == body_name(*body),
{
    match body {
        ProfileNode::EnvSecret { .. } | ProfileNode::EnvRef { .. } => {
            let mut name = "body:".to_owned();
            name.append(value_source(body).as_str());
            name
        },
        _ => "body".to_owned(),
    }
}

/// The body of a POST request, its content type and the name of its
/// form. Two forms exclude each other; neither is an empty body.
pub open spec fn post_body(
    body: Option<ProfileNode>,
    body_json: Option<Text>,
    value: Result<Text, ErrorView>,
) -> Result<(Text, Text, Text), ErrorView> {
    match (body, body_json) {
        (Some(_), Some(_)) => Err(
            scheme::failed("net_http_post"@, "body and body_json are mutually exclusive"@),
        ),
        (Some(body), None) => match value {
            Ok(value) => Ok((value, "application/octet-stream"@, body_name(body))),
            Err(error) => Err(error),
        },
        (None, Some(json)) => Ok((json, "application/json"@, "body_json"@)),
        (None, None) => Ok((Seq::empty(), "application/octet-stream"@, "none"@)),
    }
}

/// The model of an optional node.
pub open spec fn opt_node(node: Option<Box<ProfileNode>>) -> Option<ProfileNode> {
    match node {
        Some(node) => Some(*node),
        None => None,
    }
}

/// The model of a body, its content type and the name of its form.
pub open spec fn body_result(r: Result<(String, String, String), ExecError>) -> Result<
    (Text, Text, Text),
    ErrorView,
> {
    match r {
        Ok((body, content_type, source)) => Ok((body@, content_type@, source@)),
        Err(error) => Err(error@),
    }
}

/// The body of a POST request, its content type and the name of its
/// form.
pub fn resolve_post_body(
    body: &Option<Box<ProfileNode>>,
    body_json: &Option<String>,
    value: Result<String, ExecError>,
) -> (r: Result<(String, String, String), ExecError>)
    ensures
        body_result(r) == post_body(
            opt_node(*body),
            text::opt_text(*body_json),
            exec::text_result(value),
        ),
{
    match (body, body_json) {
        (Some(_), Some(_)) => Err(
            ExecError::EffectFailed {
                op: "net_http_post".to_owned(),
                message: "body and body_json are mutually exclusive".to_owned(),
            },
        ),
        (Some(body), None) => {
            let source = body_form_name(body);
            let value = value?;
            Ok((value, "application/octet-stream".to_owned(), source))
        },
        (None, Some(json)) => Ok(
            (json.clone(), "application/json".to_owned(), "body_json".to_owned()),
        ),
        (None, None) => {
            let none = String::new();
            assert(none@ =~= Seq::<char>::empty());
            Ok((none, "application/octet-stream".to_owned(), "none".to_owned()))
        },
    }
}

/// How a POST request begins.
pub open spec fn post_begun<'a>(
    ctx: ContextView<'a>,
    node: NodeId,
    payload: ProfileNode,
    env: Result<EnvMap, ExecError>,
    value: Result<String, ExecError>,
) -> (ContextView<'a>, Result<StartView, ErrorView>) {
    match payload {
        ProfileNode::NetHttpPost { url, body, body_json, timeout_sec, .. } => {
            let (id, kind) = admission::base_of(ctx, node);
            let entry = http_entry(id, kind, "net.http_post"@, url@);
            let resolved = post_body(
                opt_node(body),
                text::opt_text(body_json),
                exec::text_result(value),
            );
            match env {
                Err(error) => failing(ctx, entry, error@),
                Ok(headers) => match resolved {
                    Err(error) => failing(ctx, entry, error),
                    Ok((bytes, content_type, source)) => {
                        let told = ctx.with_audit(
                            EventView::HttpPost {
                                mode: audit::mode_name(ctx.mode),
                                kind,
                                url: url@,
                                header_names: audit::shown_names(headers.names()),
                                body_source: source,
                                body_bytes: text::byte_count(bytes),
                            },
                        );
                        match ctx.mode {
                            ExecMode::DryRun => {
                                let line = "net_http_post url="@ + url@ + request_text(
                                    headers.names(),
                                    timeout_sec,
                                ) + " body="@ + source + " body_bytes="@ + text::decimal(
                                    text::byte_count(bytes) as nat,
                                );
                                (finished(told, line, dry(entry)), Ok(StartView::Done(line)))
                            },
                            ExecMode::Real => (
                                told,
                                Ok(
                                    StartView::Http {
                                        id,
                                        kind,
                                        url: url@,
                                        headers,
                                        timeout_sec,
                                        body: Some((bytes, content_type)),
                                    },
                                ),
                            ),
                        }
                    },
                },
            }
        },
        _ => unfit(ctx, node, "net.http_post"@, "NetHttpPost"@),
    }
}

/// Begin a POST request.
fn run_http_post<'a>(
    ctx: &mut ExecContext<'a>,
    node: NodeId,
    payload: &'a ProfileNode,
    env: Result<EnvMap, ExecError>,
    value: Result<String, ExecError>,
) -> (r: Result<Start, ExecError>)
    ensures
        (final(ctx)@, start_result(r)) == post_begun(old(ctx)@, node, *payload, env, value),
{
    let (url, body, body_json, timeout_sec) = match payload {
        ProfileNode::NetHttpPost { url, body, body_json, timeout_sec, .. } => (
            url,
            body,
            body_json,
            *timeout_sec,
        ),
        _ => {
            return Err(variant_fail(ctx, node, "net.http_post", "NetHttpPost"));
        },
    };
    let (id, kind) = report_base(ctx, node);
    let headers = match env {
        Ok(headers) => headers,
        Err(error) => {
            let entry = new_http_entry(id, kind, "net.http_post", url.as_str());
            return Err(fail(ctx, entry, error));
        },
    };
    let (bytes, content_type, source) = match resolve_post_body(body, body_json, value) {
        Ok(resolved) => resolved,
        Err(error) => {
            let entry = new_http_entry(id, kind, "net.http_post", url.as_str());
            return Err(fail(ctx, entry, error));
        },
    };
    let count = byte_len(bytes.as_str());
    ctx.push_audit(
        audit::http_post(
            ctx.mode,
            kind.as_str(),
            url.as_str(),
            &headers,
            source.as_str(),
            count,
        ),
    );
    match ctx.mode {
        ExecMode::DryRun => {
            let mut line = "net_http_post url=".to_owned();
            line.append(url.as_str());
            line.append(render_http_request(&headers, timeout_sec).as_str());
            line.append(" body=");
            line.append(source.as_str());
            line.append(" body_bytes=");
            line.append(number(count).as_str());
            let mut entry = new_http_entry(id, kind, "net.http_post", url.as_str());
            entry.dry_run = Some(true);
            Ok(Start::Done(finish(ctx, line, entry)))
        },
        ExecMode::Real => Ok(
            Start::Http(
                HttpRun {
                    id,
                    kind,
                    url: url.clone(),
                    opts: HttpOpts::new(headers, timeout_sec),
                    body: Some((bytes, content_type)),
                },
            ),
        ),
    }
}

/// How a request is called in entries and in lines.
pub open spec fn request_names(posts: bool) -> (Text, Text) {
    if posts {
        ("net.http_post"@, "net_http_post"@)
    } else {
        ("net.http_get"@, "net_http_get"@)
    }
}

/// How a request ends.
pub open spec fn http_ended<'a>(
    ctx: ContextView<'a>,
    id: Text,
    kind: Text,
    url: Text,
    posts: bool,
    outcome: Result<HttpOutcome, ExecError>,
) -> (ContextView<'a>, Result<Text, ErrorView>) {
    let (op, name) = request_names(posts);
    match outcome {
        Err(error) => failing(ctx, http_entry(id, kind, op, url), error@),
        Ok(outcome) => {
            let line = name + " url="@ + url + " status="@ + text::decimal(outcome.status as nat);
            (
                finished(
                    ctx,
                    line,
                    ReportView { status: outcome.status as i64, ..http_entry(id, kind, op, url) },
                ),
                Ok(line),
            )
        },
    }
}

/// Go on with the answer to a request.
pub fn finish_http(ctx: &mut ExecContext, run: HttpRun, outcome: Result<HttpOutcome, ExecError>) -> (r:
    Result<String, ExecError>)
    ensures
        (final(ctx)@, exec::text_result(r)) == http_ended(
            old(ctx)@,
            run.id@,
            run.kind@,
            run.url@,
            run.body is Some,
            outcome,
        ),
{
    let (op, name): (&str, &str) = if run.body.is_some() {
        ("net.http_post", "net_http_post")
    } else {
        ("net.http_get", "net_http_get")
    };
    let mut entry = new_http_entry(run.id, run.kind, op, run.url.as_str());
    let outcome = match outcome {
        Ok(outcome) => outcome,
        Err(error) => {
            return Err(fail(ctx, entry, error));
        },
    };
    let mut line = name.to_owned();
    line.append(" url=");
    line.append(run.url.as_str());
    line.append(" status=");
    line.append(number(outcome.status as u64).as_str());
    entry.status = outcome.status as i64;
    Ok(finish(ctx, line, entry))
}

// ---------------------------------------------------------------------
// Transfers
// ---------------------------------------------------------------------

/// The entry of what has a source and a destination.
pub open spec fn ends_entry(id: Text, kind: Text, op: Text, src: Text, dst: Text) -> ReportView {
    ReportView { src: Some(src), dst: Some(dst), ..report::succeeded(id, kind, op) }
}

fn new_ends_entry(id: String, kind: String, op: &str, src: &str, dst: &str) -> (r: StepReport)
    ensures
        r@ == ends_entry(id@, kind@, op@, src@, dst@),
{
    let mut entry = StepReport::new(id, kind, op);
    entry.src = Some(src.to_owned());
    entry.dst = Some(dst.to_owned());
    entry
}

/// What is said of a source and a destination.
pub open spec fn ends_line(name: Text, src: Text, dst: Text) -> Text {
    name + " src="@ + src + " dst="@ + dst
}

fn new_ends_line(name: &str, src: &str, dst: &str) -> (r: String)
    ensures
        r@ == ends_line(name@, src@, dst@),
{
    let mut line = name.to_owned();
    line.append(" src=");
    line.append(src);
    line.append(" dst=");
    line.append(dst);
    line
}

/// How a transfer begins.
pub open spec fn transfer_begun<'a>(ctx: ContextView<'a>, node: NodeId, payload: ProfileNode) -> (
    ContextView<'a>,
    Result<StartView, ErrorView>,
) {
    match payload {
        ProfileNode::NetTransfer { src, dst, .. } => {
            let (id, kind) = admission::base_of(ctx, node);
            let told = ctx.with_audit(
                EventView::Transfer {
                    mode: audit::mode_name(ctx.mode),
                    kind,
                    src: src@,
                    dst: dst@,
                },
            );
            match ctx.mode {
                ExecMode::DryRun => {
                    let line = ends_line("net_transfer"@, src@, dst@);
                    let entry = ends_entry(id, kind, "net.transfer"@, src@, dst@);
                    (finished(told, line, dry(entry)), Ok(StartView::Done(line)))
                },
                ExecMode::Real => (
                    told,
                    Ok(StartView::Transfer { id, kind, src: src@, dst: dst@ }),
                ),
            }
        },
        _ => unfit(ctx, node, "net.transfer"@, "NetTransfer"@),
    }
}

/// Begin a transfer.
fn run_transfer<'a>(ctx: &mut ExecContext<'a>, node: NodeId, payload: &'a ProfileNode) -> (r: Result<
    Start,
    ExecError,
>)
    ensures
        (final(ctx)@, start_result(r)) == transfer_begun(old(ctx)@, node, *payload),
{
    let (src, dst) = match payload {
        ProfileNode::NetTransfer { src, dst, .. } => (src, dst),
        _ => {
            return Err(variant_fail(ctx, node, "net.transfer", "NetTransfer"));
        },
    };
    let (id, kind) = report_base(ctx, node);
    ctx.push_audit(audit::transfer(ctx.mode, kind.as_str(), src.as_str(), dst.as_str()));
    match ctx.mode {
        ExecMode::DryRun => {
            let line = new_ends_line("net_transfer", src.as_str(), dst.as_str());
            let mut entry = new_ends_entry(id, kind, "net.transfer", src.as_str(), dst.as_str());
            entry.dry_run = Some(true);
            Ok(Start::Done(finish(ctx, line, entry)))
        },
        ExecMode::Real => Ok(
            Start::Transfer(TransferRun { id, kind, src: src.clone(), dst: dst.clone() }),
        ),
    }
}

/// How a transfer ends. The entry tells where the bytes went, which need
/// not be where the profile said.
pub open spec fn transfer_ended<'a>(
    ctx: ContextView<'a>,
    id: Text,
    kind: Text,
    src: Text,
    dst: Text,
    outcome: Result<TransferOutcome, ExecError>,
) -> (ContextView<'a>, Result<Text, ErrorView>) {
    match outcome {
        Err(error) => failing(ctx, ends_entry(id, kind, "net.transfer"@, src, dst), error@),
        Ok(outcome) => {
            let line = ends_line("net_transfer"@, src, outcome.dst@) + " bytes="@ + text::decimal(
                outcome.bytes as nat,
            );
            (
                finished(
                    ctx,
                    line,
                    ReportView {
                        bytes: Some(outcome.bytes),
                        ..ends_entry(id, kind, "net.transfer"@, src, outcome.dst@)
                    },
                ),
                Ok(line),
            )
        },
    }
}

/// Go on with the outcome of a transfer.
pub fn finish_transfer(
    ctx: &mut ExecContext,
    run: TransferRun,
    outcome: Result<TransferOutcome, ExecError>,
) -> (r: Result<String, ExecError>)
    ensures
        (final(ctx)@, exec::text_result(r)) == transfer_ended(
            old(ctx)@,
            run.id@,
            run.kind@,
            run.src@,
            run.dst@,
            outcome,
        ),
{
    let outcome = match outcome {
        Ok(outcome) => outcome,
        Err(error) => {
            let entry = new_ends_entry(
                run.id,
                run.kind,
                "net.transfer",
                run.src.as_str(),
                run.dst.as_str(),
            );
            return Err(fail(ctx, entry, error));
        },
    };
    let mut line = new_ends_line("net_transfer", run.src.as_str(), outcome.dst.as_str());
    line.append(" bytes=");
    line.append(number(outcome.bytes).as_str());
    let mut entry = new_ends_entry(
        run.id,
        run.kind,
        "net.transfer",
        run.src.as_str(),
        outcome.dst.as_str(),
    );
    entry.bytes = Some(outcome.bytes);
    Ok(finish(ctx, line, entry))
}

// ---------------------------------------------------------------------
// Mounts
// ---------------------------------------------------------------------

/// The entry of a mount or an unmount.
pub open spec fn mount_entry(id: Text, kind: Text, src: Option<Text>, dst: Text) -> ReportView {
    match src {
        Some(src) => ends_entry(id, kind, "mount.bind"@, src, dst),
        None => ReportView { path: Some(dst), ..report::succeeded(id, kind, "mount.umount"@) },
    }
}

/// What is said of a mount or an unmount.
pub open spec fn mount_line(src: Option<Text>, dst: Text) -> Text {
    match src {
        Some(src) => ends_line("mount_bind"@, src, dst),
        None => "mount_umount path="@ + dst,
    }
}

fn new_mount_entry(id: String, kind: String, src: &Option<String>, dst: &str) -> (r: StepReport)
    ensures
        r@ == mount_entry(id@, kind@, text::opt_text(*src), dst@),
{
    match src {
        Some(src) => new_ends_entry(id, kind, "mount.bind", src.as_str(), dst),
        None => {
            let mut entry = StepReport::new(id, kind, "mount.umount");
            entry.path = Some(dst.to_owned());
            entry
        },
    }
}

fn new_mount_line(src: &Option<String>, dst: &str) -> (r: String)
    ensures
        r@ == mount_line(text::opt_text(*src), dst@),
{
    match src {
        Some(src) => new_ends_line("mount_bind", src.as_str(), dst),
        None => {
            let mut line = "mount_umount path=".to_owned();
            line.append(dst);
            line
        },
    }
}

/// How a mount or an unmount begins once it was told of.
pub open spec fn mount_told<'a>(
    told: ContextView<'a>,
    id: Text,
    kind: Text,
    src: Option<Text>,
    dst: Text,
) -> (ContextView<'a>, Result<StartView, ErrorView>) {
    match told.mode {
        ExecMode::DryRun => {
            let line = mount_line(src, dst);
            (
                finished(told, line, dry(mount_entry(id, kind, src, dst))),
                Ok(StartView::Done(line)),
            )
        },
        ExecMode::Real => (told, Ok(StartView::Mount { id, kind, src, dst })),
    }
}

fn begin_mount(
    ctx: &mut ExecContext,
    id: String,
    kind: String,
    src: Option<String>,
    dst: String,
) -> (r: Start)
    ensures
        (final(ctx)@, Ok::<StartView, ErrorView>(r@)) == mount_told(
            old(ctx)@,
            id@,
            kind@,
            text::opt_text(src),
            dst@,
        ),
{
    match ctx.mode {
        ExecMode::DryRun => {
            let line = new_mount_line(&src, dst.as_str());
            let mut entry = new_mount_entry(id, kind, &src, dst.as_str());
            entry.dry_run = Some(true);
            Start::Done(finish(ctx, line, entry))
        },
        ExecMode::Real => Start::Mount(MountRun { id, kind, src, dst }),
    }
}

/// How a mount begins.
pub open spec fn bind_begun<'a>(ctx: ContextView<'a>, node: NodeId, payload: ProfileNode) -> (
    ContextView<'a>,
    Result<StartView, ErrorView>,
) {
    match payload {
        ProfileNode::MountBind { src, dst, .. } => {
            let (id, kind) = admission::base_of(ctx, node);
            let told = ctx.with_audit(
                EventView::MountBind {
                    mode: audit::mode_name(ctx.mode),
                    kind,
                    src: src@,
                    dst: dst@,
                },
            );
            mount_told(told, id, kind, Some(src@), dst@)
        },
        _ => unfit(ctx, node, "mount.bind"@, "MountBind"@),
    }
}

/// Begin a mount.
fn run_mount_bind<'a>(ctx: &mut ExecContext<'a>, node: NodeId, payload: &'a ProfileNode) -> (r:
    Result<Start, ExecError>)
    ensures
        (final(ctx)@, start_result(r)) == bind_begun(old(ctx)@, node, *payload),
{
    let (src, dst) = match payload {
        ProfileNode::MountBind { src, dst, .. } => (src, dst),
        _ => {
            return Err(variant_fail(ctx, node, "mount.bind", "MountBind"));
        },
    };
    let (id, kind) = report_base(ctx, node);
    ctx.push_audit(audit::mount_bind(ctx.mode, kind.as_str(), src.as_str(), dst.as_str()));
    Ok(begin_mount(ctx, id, kind, Some(src.clone()), dst.clone()))
}

/// How an unmount begins.
pub open spec fn umount_begun<'a>(ctx: ContextView<'a>, node: NodeId, payload: ProfileNode) -> (
    ContextView<'a>,
    Result<StartView, ErrorView>,
) {
    match payload {
        ProfileNode::MountUmount { path, .. } => {
            let (id, kind) = admission::base_of(ctx, node);
            let told = ctx.with_audit(
                EventView::MountUmount { mode: audit::mode_name(ctx.mode), kind, path: path@ },
            );
            mount_told(told, id, kind, None, path@)
        },
        _ => unfit(ctx, node, "mount.umount"@, "MountUmount"@),
    }
}

/// Begin an unmount.
fn run_mount_umount<'a>(ctx: &mut ExecContext<'a>, node: NodeId, payload: &'a ProfileNode) -> (r:
    Result<Start, ExecError>)
    ensures
        (final(ctx)@, start_result(r)) == umount_begun(old(ctx)@, node, *payload),
{
    let path = match payload {
        ProfileNode::MountUmount { path, .. } => path,
        _ => {
            return Err(variant_fail(ctx, node, "mount.umount", "MountUmount"));
        },
    };
    let (id, kind) = report_base(ctx, node);
    ctx.push_audit(audit::mount_umount(ctx.mode, kind.as_str(), path.as_str()));
    Ok(begin_mount(ctx, id, kind, None, path.clone()))
}

/// How a mount or an unmount ends.
pub open spec fn mount_ended<'a>(
    ctx: ContextView<'a>,
    id: Text,
    kind: Text,
    src: Option<Text>,
    dst: Text,
    outcome: Result<(), ExecError>,
) -> (ContextView<'a>, Result<Text, ErrorView>) {
    let entry = mount_entry(id, kind, src, dst);
    match outcome {
        Err(error) => failing(ctx, entry, error@),
        Ok(()) => {
            let line = mount_line(src, dst);
            (finished(ctx, line, entry), Ok(line))
        },
    }
}

/// Go on with the outcome of a mount or an unmount.
pub fn finish_mount(ctx: &mut ExecContext, run: MountRun, outcome: Result<(), ExecError>) -> (r:
    Result<String, ExecError>)
    ensures
        (final(ctx)@, exec::text_result(r)) == mount_ended(
            old(ctx)@,
            run.id@,
            run.kind@,
            text::opt_text(run.src),
            run.dst@,
            outcome,
        ),
{
    let entry = new_mount_entry(run.id, run.kind, &run.src, run.dst.as_str());
    if let Err(error) = outcome {
        return Err(fail(ctx, entry, error));
    }
    let line = new_mount_line(&run.src, run.dst.as_str());
    Ok(finish(ctx, line, entry))
}

// ---------------------------------------------------------------------
// All of them
// ---------------------------------------------------------------------

/// The failure of a name that is no op's.
pub open spec fn unregistered(name: Text) -> ErrorView {
    scheme::failed(name, "op is not registered as direct or lifecycle"@)
}

/// How an op begins.
pub open spec fn begun<'a>(
    ctx: ContextView<'a>,
    name: Text,
    node: NodeId,
    payload: ProfileNode,
    resolved: Resolved,
) -> (ContextView<'a>, Result<StartView, ErrorView>) {
    if name == "sh_exec"@ {
        sh_begun(ctx, node, payload, resolved.env)
    } else if name == "fs_write"@ {
        write_begun(ctx, node, payload, resolved.value)
    } else if name == "net_http_get"@ {
        get_begun(ctx, node, payload, resolved.env)
    } else if name == "net_http_post"@ {
        post_begun(ctx, node, payload, resolved.env, resolved.value)
    } else if name == "net_transfer"@ {
        transfer_begun(ctx, node, payload)
    } else if name == "mount_bind"@ {
        bind_begun(ctx, node, payload)
    } else if name == "mount_umount"@ {
        umount_begun(ctx, node, payload)
    } else {
        let error = unregistered(name);
        (ctx.with_report(admission::phase_failure(ctx, node, error)), Err(error))
    }
}

/// The named value nodes of a direct phase.
pub open spec fn named_values(payload: ProfileNode) -> Option<Slots> {
    match payload {
        ProfileNode::ShExec { env, .. } => Some(env),
        ProfileNode::NetHttpGet { headers, .. } => Some(headers),
        ProfileNode::NetHttpPost { headers, .. } => Some(headers),
        _ => None,
    }
}

/// The single value node of a direct phase. A request that declares its
/// body in two forms has none: it fails before either is looked at.
pub open spec fn single_value(payload: ProfileNode) -> Option<ProfileNode> {
    match payload {
        ProfileNode::FsWrite { content, .. } => Some(*content),
        ProfileNode::NetHttpPost { body: Some(body), body_json: None, .. } => Some(*body),
        _ => None,
    }
}

/// The value nodes that the host resolves before a direct phase begins:
/// the named ones and the single one.
pub fn to_resolve(payload: &ProfileNode) -> (r: (Option<&Slots>, Option<&ProfileNode>))
    ensures
        match r.0 {
            Some(slots) => named_values(*payload) == Some(*slots),
            None => named_values(*payload) is None,
        },
        match r.1 {
            Some(node) => single_value(*payload) == Some(*node),
            None => single_value(*payload) is None,
        },
{
    match payload {
        ProfileNode::ShExec { env, .. } => (Some(env), None),
        ProfileNode::FsWrite { content, .. } => (None, Some(content)),
        ProfileNode::NetHttpGet { headers, .. } => (Some(headers), None),
        ProfileNode::NetHttpPost { headers, body, body_json, .. } => {
            let single: Option<&ProfileNode> = match (body, body_json) {
                (Some(body), None) => Some(body),
                _ => None,
            };
            (Some(headers), single)
        },
        _ => (None, None),
    }
}

/// Begin an op on a phase that was admitted to it.
pub fn begin<'a>(ctx: &mut ExecContext<'a>, admitted: &Admitted<'a>, resolved: Resolved) -> (r:
    Result<Start, ExecError>)
    ensures
        (final(ctx)@, start_result(r)) == begun(
            old(ctx)@,
            admitted.op(),
            admitted.at(),
            admitted.phase(),
            resolved,
        ),
{
    let name = admitted.name();
    let node = admitted.node();
    let payload = admitted.payload();
    if same(name, "sh_exec") {
        run_sh_exec(ctx, node, payload, resolved.env)
    } else if same(name, "fs_write") {
        run_fs_write(ctx, node, payload, resolved.value)
    } else if same(name, "net_http_get") {
        run_http_get(ctx, node, payload, resolved.env)
    } else if same(name, "net_http_post") {
        run_http_post(ctx, node, payload, resolved.env, resolved.value)
    } else if same(name, "net_transfer") {
        run_transfer(ctx, node, payload)
    } else if same(name, "mount_bind") {
        run_mount_bind(ctx, node, payload)
    } else if same(name, "mount_umount") {
        run_mount_umount(ctx, node, payload)
    } else {
        let error = ExecError::EffectFailed {
            op: name.to_owned(),
            message: "op is not registered as direct or lifecycle".to_owned(),
        };
        admission::record_phase_failure(ctx, node, &error);
        Err(error)
    }
}

// ---------------------------------------------------------------------
// What holds of every op
// ---------------------------------------------------------------------

/// Whether a run has said of a failure what it is to say: one more entry,
/// which fails for that reason, and no more lines.
pub open spec fn reported<'a>(before: ContextView<'a>, after: ContextView<'a>, error: ErrorView) -> bool {
    &&& after.log == before.log
    &&& after.reports.len() == before.reports.len() + 1
    &&& after.reports.drop_last() == before.reports
    &&& admission::tells_failure(after.reports.last(), error)
}

/// A phase that fails before its effect is reported by the last entry of
/// the run, which fails for that reason.
pub proof fn law_a_failed_beginning_is_the_last_entry<'a>(
    ctx: ContextView<'a>,
    name: Text,
    node: NodeId,
    payload: ProfileNode,
    resolved: Resolved,
)
    ensures
        begun(ctx, name, node, payload, resolved).1 matches Err(error) ==> reported(
            ctx,
            begun(ctx, name, node, payload, resolved).0,
            error,
        ),
{
    let after = begun(ctx, name, node, payload, resolved).0;
    if begun(ctx, name, node, payload, resolved).1 is Err {
        assert(after.reports.drop_last() =~= ctx.reports);
    }
}

/// Whatever an effect was, one that fails is reported by the last entry
/// of the run, which fails for that reason.
pub proof fn law_a_failed_effect_is_the_last_entry<'a>(
    ctx: ContextView<'a>,
    id: Text,
    kind: Text,
    argv: Seq<Text>,
    src: Text,
    dst: Text,
    posts: bool,
    ran: Result<ExecOutcome, ExecError>,
    wrote: Result<u64, ExecError>,
    answered: Result<HttpOutcome, ExecError>,
    moved: Result<TransferOutcome, ExecError>,
    mounted: Result<(), ExecError>,
)
    ensures
        ({
            let (after, r) = sh_ended(ctx, id, kind, argv, ran);
            r matches Err(error) ==> reported(ctx, after, error)
        }),
        ({
            let (after, r) = write_ended(ctx, id, kind, dst, wrote);
            r matches Err(error) ==> reported(ctx, after, error)
        }),
        ({
            let (after, r) = http_ended(ctx, id, kind, src, posts, answered);
            r matches Err(error) ==> reported(ctx, after, error)
        }),
        ({
            let (after, r) = transfer_ended(ctx, id, kind, src, dst, moved);
            r matches Err(error) ==> reported(ctx, after, error)
        }),
        ({
            let (after, r) = mount_ended(ctx, id, kind, Some(src), dst, mounted);
            r matches Err(error) ==> reported(ctx, after, error)
        }),
        ({
            let (after, r) = mount_ended(ctx, id, kind, None, dst, mounted);
            r matches Err(error) ==> reported(ctx, after, error)
        }),
{
    assert forall|entry: ReportView| (#[trigger] ctx.with_report(entry)).reports.drop_last()
        == ctx.reports by {
        assert(ctx.reports.push(entry).drop_last() =~= ctx.reports);
    }
}

/// Beginning an op changes nothing of a run but what it has said, and
/// takes back nothing of that: what it grants and which phases it knows
/// stay as they are.
pub proof fn law_a_beginning_only_adds<'a>(
    ctx: ContextView<'a>,
    name: Text,
    node: NodeId,
    payload: ProfileNode,
    resolved: Resolved,
)
    ensures
        ctx.goes_on_as(begun(ctx, name, node, payload, resolved).0),
{
    context::lemma_saying_more(ctx);
}

/// Finishing an op, whatever its effect came to, changes nothing of a run
/// but what it has said, and takes back nothing of that.
pub proof fn law_an_ending_only_adds<'a>(
    ctx: ContextView<'a>,
    id: Text,
    kind: Text,
    argv: Seq<Text>,
    src: Option<Text>,
    dst: Text,
    posts: bool,
    ran: Result<ExecOutcome, ExecError>,
    wrote: Result<u64, ExecError>,
    answered: Result<HttpOutcome, ExecError>,
    moved: Result<TransferOutcome, ExecError>,
    mounted: Result<(), ExecError>,
)
    ensures
        ctx.goes_on_as(sh_ended(ctx, id, kind, argv, ran).0),
        ctx.goes_on_as(write_ended(ctx, id, kind, dst, wrote).0),
        ctx.goes_on_as(http_ended(ctx, id, kind, dst, posts, answered).0),
        src matches Some(from) ==> ctx.goes_on_as(
            transfer_ended(ctx, id, kind, from, dst, moved).0,
        ),
        ctx.goes_on_as(mount_ended(ctx, id, kind, src, dst, mounted).0),
{
    context::lemma_saying_more(ctx);
}

/// A dry run asks the host for no effect.
pub proof fn law_a_dry_run_makes_no_effect<'a>(
    ctx: ContextView<'a>,
    name: Text,
    node: NodeId,
    payload: ProfileNode,
    resolved: Resolved,
)
    requires
        ctx.mode == ExecMode::DryRun,
    ensures
        begun(ctx, name, node, payload, resolved).1 matches Ok(start) ==> start is Done,
{
}

/// A dry run fails where the real run would before its effect, and for
/// the same reason.
pub proof fn law_a_dry_run_fails_where_the_real_one_would<'a>(
    ctx: ContextView<'a>,
    name: Text,
    node: NodeId,
    payload: ProfileNode,
    resolved: Resolved,
)
    requires
        ctx.mode == ExecMode::DryRun,
    ensures
        ({
            let run = begun(ctx, name, node, payload, resolved).1;
            let would = begun(
                ContextView { mode: ExecMode::Real, ..ctx },
                name,
                node,
                payload,
                resolved,
            ).1;
            &&& run is Err <==> would is Err
            &&& run is Err ==> run == would
        }),
{
}

/// What is said of a phase depends on the names of its values and never
/// on the values: two resolutions of one phase with the same names, and
/// with single values of one length, are reported alike.
pub proof fn law_values_are_never_told<'a>(
    ctx: ContextView<'a>,
    name: Text,
    node: NodeId,
    payload: ProfileNode,
    one: Resolved,
    other: Resolved,
)
    requires
        one.env is Ok,
        other.env is Ok,
        one.value is Ok,
        other.value is Ok,
        one.env->Ok_0.names() == other.env->Ok_0.names(),
        text::byte_count(one.value->Ok_0@) == text::byte_count(other.value->Ok_0@),
    ensures
        begun(ctx, name, node, payload, one).0 == begun(ctx, name, node, payload, other).0,
{
}

// ---------------------------------------------------------------------
// What each op asks for and says
// ---------------------------------------------------------------------

/// No two names of ops that make one effect are the same.
proof fn lemma_op_names_differ()
    ensures
        "sh_exec"@.len() == 7,
        "fs_write"@.len() == 8,
        "net_http_get"@.len() == 12,
        "net_http_post"@.len() == 13,
        "net_transfer"@.len() == 12,
        "mount_bind"@.len() == 10,
        "mount_umount"@.len() == 12,
        "net_http_get"@ != "net_transfer"@,
        "net_http_get"@ != "mount_umount"@,
        "net_transfer"@ != "mount_umount"@,
{
    reveal_strlit("sh_exec");
    reveal_strlit("fs_write");
    reveal_strlit("net_http_get");
    reveal_strlit("net_http_post");
    reveal_strlit("net_transfer");
    reveal_strlit("mount_bind");
    reveal_strlit("mount_umount");
    assert("net_http_get"@[4] == 'h' && "net_transfer"@[4] == 't' && "mount_umount"@[0] == 'm');
    assert("net_http_get"@[0] == 'n' && "net_transfer"@[0] == 'n');
}

/// In a real run an op hands the host exactly the effect its phase
/// declares, with the values as they were resolved, and says nothing yet
/// but one event: a command with its arguments and variables, a file with
/// its path and content, a GET request without a body, a POST request with
/// one, a transfer and a mount with both ends, an unmount with its path.
pub proof fn law_a_real_run_hands_over_what_is_declared<'a>(
    ctx: ContextView<'a>,
    node: NodeId,
    payload: ProfileNode,
    resolved: Resolved,
)
    requires
        ctx.mode == ExecMode::Real,
        resolved.env is Ok,
        resolved.value is Ok,
    ensures
        ({
            let (id, kind) = admission::base_of(ctx, node);
            let values = resolved.env->Ok_0;
            let value = resolved.value->Ok_0@;
            let mode = "real"@;
            &&& payload matches ProfileNode::ShExec { argv, .. } ==> begun(
                ctx,
                "sh_exec"@,
                node,
                payload,
                resolved,
            ) == (
                ctx.with_audit(
                    EventView::ShExec {
                        mode,
                        kind,
                        argv: text::texts(argv@),
                        env_keys: audit::shown_names(values.names()),
                    },
                ),
                Ok::<StartView, ErrorView>(
                    StartView::Sh { id, kind, argv: text::texts(argv@), env: values },
                ),
            )
            &&& payload matches ProfileNode::FsWrite { path, content, .. } ==> begun(
                ctx,
                "fs_write"@,
                node,
                payload,
                resolved,
            ) == (
                ctx.with_audit(
                    EventView::FsWrite {
                        mode,
                        kind,
                        path: path@,
                        bytes: text::byte_count(value),
                        content_source: source_of(*content),
                    },
                ),
                Ok::<StartView, ErrorView>(
                    StartView::Write { id, kind, path: path@, content: value },
                ),
            )
            &&& payload matches ProfileNode::NetHttpGet { url, timeout_sec, .. } ==> begun(
                ctx,
                "net_http_get"@,
                node,
                payload,
                resolved,
            ) == (
                ctx.with_audit(
                    EventView::HttpGet {
                        mode,
                        kind,
                        url: url@,
                        header_names: audit::shown_names(values.names()),
                    },
                ),
                Ok::<StartView, ErrorView>(
                    StartView::Http {
                        id,
                        kind,
                        url: url@,
                        headers: values,
                        timeout_sec,
                        body: None,
                    },
                ),
            )
            &&& payload matches ProfileNode::NetTransfer { src, dst, .. } ==> begun(
                ctx,
                "net_transfer"@,
                node,
                payload,
                resolved,
            ) == (
                ctx.with_audit(EventView::Transfer { mode, kind, src: src@, dst: dst@ }),
                Ok::<StartView, ErrorView>(
                    StartView::Transfer { id, kind, src: src@, dst: dst@ },
                ),
            )
            &&& payload matches ProfileNode::MountBind { src, dst, .. } ==> begun(
                ctx,
                "mount_bind"@,
                node,
                payload,
                resolved,
            ) == (
                ctx.with_audit(EventView::MountBind { mode, kind, src: src@, dst: dst@ }),
                Ok::<StartView, ErrorView>(
                    StartView::Mount { id, kind, src: Some(src@), dst: dst@ },
                ),
            )
            &&& payload matches ProfileNode::MountUmount { path, .. } ==> begun(
                ctx,
                "mount_umount"@,
                node,
                payload,
                resolved,
            ) == (
                ctx.with_audit(EventView::MountUmount { mode, kind, path: path@ }),
                Ok::<StartView, ErrorView>(
                    StartView::Mount { id, kind, src: None, dst: path@ },
                ),
            )
        }),
{
    lemma_op_names_differ();
}

/// A POST request sends its value as it is, or its JSON text, or an empty
/// body where it declares neither; only the JSON text is sent as JSON. The
/// event tells the form of the body and its length.
pub proof fn law_a_post_sends_the_declared_body<'a>(
    ctx: ContextView<'a>,
    node: NodeId,
    payload: ProfileNode,
    resolved: Resolved,
)
    requires
        ctx.mode == ExecMode::Real,
        resolved.env is Ok,
        resolved.value is Ok,
    ensures
        payload matches ProfileNode::NetHttpPost { url, body, body_json, timeout_sec, .. } ==> ({
            let (id, kind) = admission::base_of(ctx, node);
            let values = resolved.env->Ok_0;
            let (sent, content_type, form) = if body is Some {
                (
                    resolved.value->Ok_0@,
                    "application/octet-stream"@,
                    match *body->0 {
                        ProfileNode::EnvSecret { name, .. } => "body:"@ + ("secret:"@ + name@),
                        ProfileNode::EnvRef { name, .. } => "body:"@ + ("env_ref:"@ + name@),
                        _ => "body"@,
                    },
                )
            } else if body_json is Some {
                (body_json->0@, "application/json"@, "body_json"@)
            } else {
                (Seq::empty(), "application/octet-stream"@, "none"@)
            };
            let (after, r) = begun(ctx, "net_http_post"@, node, payload, resolved);
            &&& body is Some && body_json is Some ==> r == Err::<StartView, ErrorView>(
                ErrorView::EffectFailed {
                    op: "net_http_post"@,
                    message: "body and body_json are mutually exclusive"@,
                },
            )
            &&& !(body is Some && body_json is Some) ==> {
                &&& after == ctx.with_audit(
                    EventView::HttpPost {
                        mode: "real"@,
                        kind,
                        url: url@,
                        header_names: audit::shown_names(values.names()),
                        body_source: form,
                        body_bytes: text::byte_count(sent),
                    },
                )
                &&& r == Ok::<StartView, ErrorView>(
                    StartView::Http {
                        id,
                        kind,
                        url: url@,
                        headers: values,
                        timeout_sec,
                        body: Some((sent, content_type)),
                    },
                )
            }
        }),
{
    lemma_op_names_differ();
}

/// A dry run tells what the real run would, by the same event but for the
/// mode, and is done with one line and one entry that is marked as such.
pub proof fn law_a_dry_run_tells_what_would_be_done<'a>(
    ctx: ContextView<'a>,
    node: NodeId,
    payload: ProfileNode,
    resolved: Resolved,
)
    requires
        ctx.mode == ExecMode::DryRun,
        resolved.env is Ok,
        resolved.value is Ok,
    ensures
        ({
            let (id, kind) = admission::base_of(ctx, node);
            let names = resolved.env->Ok_0.names();
            let mode = "dry-run"@;
            &&& payload matches ProfileNode::ShExec { argv, .. } ==> ({
                let (after, r) = begun(ctx, "sh_exec"@, node, payload, resolved);
                let line = if names.len() == 0 {
                    "sh_exec argv="@ + text::debug_list_text(text::texts(argv@))
                } else {
                    "sh_exec argv="@ + text::debug_list_text(text::texts(argv@)) + " env_keys="@
                        + text::debug_list_text(names)
                };
                let entry = after.reports.last();
                &&& dry_told(ctx, after, r, line)
                &&& after.audits == ctx.audits.push(
                    EventView::ShExec {
                        mode,
                        kind,
                        argv: text::texts(argv@),
                        env_keys: audit::shown_names(names),
                    },
                )
                &&& entry.id == id && entry.kind == kind && entry.op == "sh.exec"@
                &&& entry.argv == Some(text::texts(argv@))
            })
            &&& payload matches ProfileNode::FsWrite { path, content, .. } ==> ({
                let (after, r) = begun(ctx, "fs_write"@, node, payload, resolved);
                let bytes = text::byte_count(resolved.value->Ok_0@);
                let entry = after.reports.last();
                &&& dry_told(
                    ctx,
                    after,
                    r,
                    "fs_write path="@ + path@ + " bytes="@ + text::decimal(bytes as nat),
                )
                &&& after.audits == ctx.audits.push(
                    EventView::FsWrite {
                        mode,
                        kind,
                        path: path@,
                        bytes,
                        content_source: source_of(*content),
                    },
                )
                &&& entry.id == id && entry.kind == kind && entry.op == "fs.write"@
                &&& entry.path == Some(path@) && entry.bytes == Some(bytes)
            })
            &&& payload matches ProfileNode::NetHttpGet { url, timeout_sec, .. } ==> ({
                let (after, r) = begun(ctx, "net_http_get"@, node, payload, resolved);
                let entry = after.reports.last();
                &&& dry_told(
                    ctx,
                    after,
                    r,
                    "net_http_get url="@ + url@ + request_text(names, timeout_sec),
                )
                &&& after.audits == ctx.audits.push(
                    EventView::HttpGet {
                        mode,
                        kind,
                        url: url@,
                        header_names: audit::shown_names(names),
                    },
                )
                &&& entry.id == id && entry.kind == kind && entry.op == "net.http_get"@
                &&& entry.url == Some(url@)
            })
            &&& payload matches ProfileNode::NetTransfer { src, dst, .. } ==> ({
                let (after, r) = begun(ctx, "net_transfer"@, node, payload, resolved);
                let entry = after.reports.last();
                &&& dry_told(ctx, after, r, "net_transfer"@ + " src="@ + src@ + " dst="@ + dst@)
                &&& after.audits == ctx.audits.push(
                    EventView::Transfer { mode, kind, src: src@, dst: dst@ },
                )
                &&& entry.id == id && entry.kind == kind && entry.op == "net.transfer"@
                &&& entry.src == Some(src@) && entry.dst == Some(dst@)
            })
            &&& payload matches ProfileNode::MountBind { src, dst, .. } ==> ({
                let (after, r) = begun(ctx, "mount_bind"@, node, payload, resolved);
                let entry = after.reports.last();
                &&& dry_told(ctx, after, r, "mount_bind"@ + " src="@ + src@ + " dst="@ + dst@)
                &&& after.audits == ctx.audits.push(
                    EventView::MountBind { mode, kind, src: src@, dst: dst@ },
                )
                &&& entry.id == id && entry.kind == kind && entry.op == "mount.bind"@
                &&& entry.src == Some(src@) && entry.dst == Some(dst@)
            })
            &&& payload matches ProfileNode::MountUmount { path, .. } ==> ({
                let (after, r) = begun(ctx, "mount_umount"@, node, payload, resolved);
                let entry = after.reports.last();
                &&& dry_told(ctx, after, r, "mount_umount path="@ + path@)
                &&& after.audits == ctx.audits.push(
                    EventView::MountUmount { mode, kind, path: path@ },
                )
                &&& entry.id == id && entry.kind == kind && entry.op == "mount.umount"@
                &&& entry.path == Some(path@)
            })
        }),
{
    lemma_op_names_differ();
}

/// Whether a dry run ended in `line`: as its value and as one more line,
/// with one more entry that went well and is marked as a dry run's.
pub open spec fn dry_told<'a>(
    before: ContextView<'a>,
    after: ContextView<'a>,
    r: Result<StartView, ErrorView>,
    line: Text,
) -> bool {
    &&& r == Ok::<StartView, ErrorView>(StartView::Done(line))
    &&& after.log == before.log.push(line)
    &&& after.reports.len() == before.reports.len() + 1
    &&& after.reports.last().ok && after.reports.last().status == 0
    &&& after.reports.last().dry_run == Some(true)
    &&& after.reports.last().reason is None
}

/// A dry run of a POST request tells the form and the length of its body,
/// never the body.
pub proof fn law_a_dry_post_tells_the_form_of_its_body<'a>(
    ctx: ContextView<'a>,
    node: NodeId,
    payload: ProfileNode,
    resolved: Resolved,
)
    requires
        ctx.mode == ExecMode::DryRun,
        resolved.env is Ok,
        resolved.value is Ok,
    ensures
        payload matches ProfileNode::NetHttpPost { url, body, body_json, timeout_sec, .. } ==> ({
            let names = resolved.env->Ok_0.names();
            let (after, r) = begun(ctx, "net_http_post"@, node, payload, resolved);
            let lead = "net_http_post url="@ + url@ + request_text(names, timeout_sec) + " body="@;
            &&& body is None && body_json is None ==> dry_told(
                ctx,
                after,
                r,
                lead + "none"@ + " body_bytes="@ + text::decimal(
                    text::byte_count(Seq::empty()) as nat,
                ),
            )
            &&& body is None && body_json is Some ==> dry_told(
                ctx,
                after,
                r,
                lead + "body_json"@ + " body_bytes="@ + text::decimal(
                    text::byte_count(body_json->0@) as nat,
                ),
            )
            &&& body is Some && body_json is None && *body->0 is EnvLiteral ==> dry_told(
                ctx,
                after,
                r,
                lead + "body"@ + " body_bytes="@ + text::decimal(
                    text::byte_count(resolved.value->Ok_0@) as nat,
                ),
            )
            &&& r is Ok ==> after.reports.last().op == "net.http_post"@ && after.reports.last().url
                == Some(url@)
        }),
{
    lemma_op_names_differ();
}

/// What is told of a request beside its URL: the names of its headers
/// where it has any, and its deadline where one is declared.
pub proof fn law_a_request_tells_names_and_deadline(names: Seq<Text>, sec: u16)
    ensures
        names.len() == 0 ==> request_text(names, None).len() == 0,
        names.len() > 0 ==> request_text(names, None) == " header_names="@ + text::debug_list_text(
            names,
        ),
        request_text(names, Some(sec)) == request_text(names, None) + " timeout_sec="@
            + text::decimal(sec as nat),
{
}

/// Values are told by where they come from: a secret and a reference by
/// name, and anything else as a string.
pub proof fn law_a_value_is_told_by_its_source(node: ProfileNode)
    ensures
        node matches ProfileNode::EnvSecret { name, .. } ==> source_of(node) == "secret:"@ + name@,
        node matches ProfileNode::EnvRef { name, .. } ==> source_of(node) == "env_ref:"@ + name@,
        !(node is EnvSecret) && !(node is EnvRef) ==> source_of(node) == "string"@,
{
}

/// Values that could not be resolved fail the op before any effect and
/// before any event, for the reason they could not.
pub proof fn law_an_unresolved_value_fails_the_op<'a>(
    ctx: ContextView<'a>,
    node: NodeId,
    payload: ProfileNode,
    resolved: Resolved,
    error: ExecError,
)
    ensures
        resolved.env == Err::<EnvMap, ExecError>(error) ==> {
            &&& payload is ShExec ==> begun(ctx, "sh_exec"@, node, payload, resolved).1 == Err::<
                StartView,
                ErrorView,
            >(error@)
            &&& payload is NetHttpGet ==> begun(ctx, "net_http_get"@, node, payload, resolved).1
                == Err::<StartView, ErrorView>(error@)
            &&& payload is NetHttpPost ==> begun(ctx, "net_http_post"@, node, payload, resolved).1
                == Err::<StartView, ErrorView>(error@)
        },
        resolved.value == Err::<String, ExecError>(error) && payload is FsWrite ==> begun(
            ctx,
            "fs_write"@,
            node,
            payload,
            resolved,
        ).1 == Err::<StartView, ErrorView>(error@),
        forall|name: Text| (#[trigger] begun(ctx, name, node, payload, resolved)).1 is Err ==> begun(
            ctx,
            name,
            node,
            payload,
            resolved,
        ).0.audits == ctx.audits,
{
    lemma_op_names_differ();
}

/// An op takes a phase of its own kind and no other; and a name that is
/// none of the seven fails by itself.
pub proof fn law_an_op_takes_its_own_kind<'a>(
    ctx: ContextView<'a>,
    name: Text,
    node: NodeId,
    payload: ProfileNode,
    resolved: Resolved,
)
    ensures
        !(payload is ShExec) ==> begun(ctx, "sh_exec"@, node, payload, resolved).1 == Err::<
            StartView,
            ErrorView,
        >(ErrorView::PayloadVariant { node: node.0, expected: "ShExec"@ }),
        !(payload is FsWrite) ==> begun(ctx, "fs_write"@, node, payload, resolved).1 == Err::<
            StartView,
            ErrorView,
        >(ErrorView::PayloadVariant { node: node.0, expected: "FsWrite"@ }),
        !(payload is NetHttpGet) ==> begun(ctx, "net_http_get"@, node, payload, resolved).1
            == Err::<StartView, ErrorView>(
            ErrorView::PayloadVariant { node: node.0, expected: "NetHttpGet"@ },
        ),
        !(payload is NetHttpPost) ==> begun(ctx, "net_http_post"@, node, payload, resolved).1
            == Err::<StartView, ErrorView>(
            ErrorView::PayloadVariant { node: node.0, expected: "NetHttpPost"@ },
        ),
        !(payload is NetTransfer) ==> begun(ctx, "net_transfer"@, node, payload, resolved).1
            == Err::<StartView, ErrorView>(
            ErrorView::PayloadVariant { node: node.0, expected: "NetTransfer"@ },
        ),
        !(payload is MountBind) ==> begun(ctx, "mount_bind"@, node, payload, resolved).1 == Err::<
            StartView,
            ErrorView,
        >(ErrorView::PayloadVariant { node: node.0, expected: "MountBind"@ }),
        !(payload is MountUmount) ==> begun(ctx, "mount_umount"@, node, payload, resolved).1
            == Err::<StartView, ErrorView>(
            ErrorView::PayloadVariant { node: node.0, expected: "MountUmount"@ },
        ),
        name != "sh_exec"@ && name != "fs_write"@ && name != "net_http_get"@ && name
            != "net_http_post"@ && name != "net_transfer"@ && name != "mount_bind"@ && name
            != "mount_umount"@ ==> begun(ctx, name, node, payload, resolved).1 == Err::<
            StartView,
            ErrorView,
        >(
            ErrorView::EffectFailed {
                op: name,
                message: "op is not registered as direct or lifecycle"@,
            },
        ),
{
    lemma_op_names_differ();
}

/// A command succeeds exactly when it ran and exited with 0. Whatever it
/// exited with stands in its entry, with both outputs; an exit code that
/// is not 0 fails it, and names the code and the error output.
pub proof fn law_a_command_succeeds_with_exit_zero<'a>(
    ctx: ContextView<'a>,
    id: Text,
    kind: Text,
    argv: Seq<Text>,
    ran: ExecOutcome,
    error: ExecError,
)
    ensures
        ({
            let (after, r) = sh_ended(ctx, id, kind, argv, Ok(ran));
            let entry = after.reports.last();
            &&& r is Ok <==> ran.exit_code == 0
            &&& after.reports.len() == ctx.reports.len() + 1
            &&& entry.id == id && entry.kind == kind && entry.op == "sh.exec"@
            &&& entry.ok == (ran.exit_code == 0) && entry.status == ran.exit_code
            &&& entry.argv == Some(argv)
            &&& entry.stdout == Some(ran.stdout_tail@) && entry.stderr == Some(ran.stderr_tail@)
            &&& ran.exit_code == 0 ==> r == Ok::<Text, ErrorView>(
                "sh_exec exit="@ + text::signed_decimal(0) + " stdout="@ + text::debug_text(
                    ran.stdout_tail@,
                ),
            ) && after.log == ctx.log.push(r->Ok_0) && entry.reason is None
            &&& ran.exit_code != 0 ==> r == Err::<Text, ErrorView>(
                ErrorView::EffectFailed {
                    op: "sh_exec"@,
                    message: "exit "@ + text::signed_decimal(ran.exit_code as int) + " stderr="@
                        + text::debug_text(ran.stderr_tail@),
                },
            ) && entry.reason == Some((r->Err_0).sentence()) && after.log == ctx.log
            &&& after.audits == ctx.audits
        }),
        ({
            let (after, r) = sh_ended(ctx, id, kind, argv, Err(error));
            let entry = after.reports.last();
            &&& r == Err::<Text, ErrorView>(error@)
            &&& entry.ok == false && entry.status == -1 && entry.argv == Some(argv)
        }),
{
}

/// A request succeeds exactly when it was answered, whatever the status
/// is: the status stands in the entry and in the line. It is told as the
/// request it was.
pub proof fn law_any_answer_is_an_outcome<'a>(
    ctx: ContextView<'a>,
    id: Text,
    kind: Text,
    url: Text,
    posts: bool,
    answer: HttpOutcome,
    error: ExecError,
)
    ensures
        ({
            let (after, r) = http_ended(ctx, id, kind, url, posts, Ok(answer));
            let entry = after.reports.last();
            let line = (if posts {
                "net_http_post"@
            } else {
                "net_http_get"@
            }) + " url="@ + url + " status="@ + text::decimal(answer.status as nat);
            &&& r == Ok::<Text, ErrorView>(line) && after.log == ctx.log.push(line)
            &&& after.reports.len() == ctx.reports.len() + 1
            &&& entry.ok && entry.status == answer.status && entry.url == Some(url)
            &&& entry.id == id && entry.kind == kind
            &&& posts ==> entry.op == "net.http_post"@
            &&& !posts ==> entry.op == "net.http_get"@
        }),
        ({
            let (after, r) = http_ended(ctx, id, kind, url, posts, Err(error));
            let entry = after.reports.last();
            &&& r == Err::<Text, ErrorView>(error@)
            &&& !entry.ok && entry.status == -1 && entry.url == Some(url)
            &&& posts ==> entry.op == "net.http_post"@
            &&& !posts ==> entry.op == "net.http_get"@
        }),
{
}

/// A file, a transfer and a mount succeed exactly when the host made
/// them, and what they say is what the host did: the bytes that were
/// written or moved, and where they went, which need not be where the
/// profile said.
pub proof fn law_an_effect_says_what_was_done<'a>(
    ctx: ContextView<'a>,
    id: Text,
    kind: Text,
    src: Text,
    dst: Text,
    bytes: u64,
    moved: TransferOutcome,
)
    ensures
        ({
            let (after, r) = write_ended(ctx, id, kind, dst, Ok(bytes));
            let entry = after.reports.last();
            let line = "fs_write path="@ + dst + " bytes="@ + text::decimal(bytes as nat);
            &&& r == Ok::<Text, ErrorView>(line) && after.log == ctx.log.push(line)
            &&& entry.ok && entry.op == "fs.write"@ && entry.path == Some(dst) && entry.bytes
                == Some(bytes)
            &&& entry.id == id && entry.kind == kind && entry.status == 0
        }),
        ({
            let (after, r) = transfer_ended(ctx, id, kind, src, dst, Ok(moved));
            let entry = after.reports.last();
            let line = "net_transfer"@ + " src="@ + src + " dst="@ + moved.dst@ + " bytes="@
                + text::decimal(moved.bytes as nat);
            &&& r == Ok::<Text, ErrorView>(line) && after.log == ctx.log.push(line)
            &&& entry.ok && entry.op == "net.transfer"@ && entry.src == Some(src) && entry.dst
                == Some(moved.dst@) && entry.bytes == Some(moved.bytes)
            &&& entry.id == id && entry.kind == kind && entry.status == 0
        }),
        ({
            let (after, r) = mount_ended(ctx, id, kind, Some(src), dst, Ok(()));
            let entry = after.reports.last();
            let line = "mount_bind"@ + " src="@ + src + " dst="@ + dst;
            &&& r == Ok::<Text, ErrorView>(line) && after.log == ctx.log.push(line)
            &&& entry.ok && entry.op == "mount.bind"@ && entry.src == Some(src) && entry.dst
                == Some(dst)
            &&& entry.id == id && entry.kind == kind && entry.status == 0
        }),
        ({
            let (after, r) = mount_ended(ctx, id, kind, None, dst, Ok(()));
            let entry = after.reports.last();
            let line = "mount_umount path="@ + dst;
            &&& r == Ok::<Text, ErrorView>(line) && after.log == ctx.log.push(line)
            &&& entry.ok && entry.op == "mount.umount"@ && entry.path == Some(dst)
            &&& entry.id == id && entry.kind == kind && entry.status == 0
        }),
{
}

/// An effect that the host could not make fails for the host's reason,
/// and its entry still says what it was to reach.
pub proof fn law_a_failed_effect_says_what_it_was_for<'a>(
    ctx: ContextView<'a>,
    id: Text,
    kind: Text,
    src: Text,
    dst: Text,
    error: ExecError,
)
    ensures
        ({
            let (after, r) = write_ended(ctx, id, kind, dst, Err(error));
            let entry = after.reports.last();
            &&& r == Err::<Text, ErrorView>(error@)
            &&& !entry.ok && entry.status == -1 && entry.path == Some(dst) && entry.bytes is None
            &&& entry.op == "fs.write"@
        }),
        ({
            let (after, r) = transfer_ended(ctx, id, kind, src, dst, Err(error));
            let entry = after.reports.last();
            &&& r == Err::<Text, ErrorView>(error@)
            &&& !entry.ok && entry.status == -1 && entry.src == Some(src) && entry.dst == Some(dst)
            &&& entry.op == "net.transfer"@ && entry.bytes is None
        }),
        ({
            let (after, r) = mount_ended(ctx, id, kind, Some(src), dst, Err(error));
            let entry = after.reports.last();
            &&& r == Err::<Text, ErrorView>(error@)
            &&& !entry.ok && entry.status == -1 && entry.src == Some(src) && entry.dst == Some(dst)
            &&& entry.op == "mount.bind"@
        }),
        ({
            let (after, r) = mount_ended(ctx, id, kind, None, dst, Err(error));
            let entry = after.reports.last();
            &&& r == Err::<Text, ErrorView>(error@)
            &&& !entry.ok && entry.status == -1 && entry.path == Some(dst)
            &&& entry.op == "mount.umount"@
        }),
{
}

/// The host resolves the variables of a command, the headers of a
/// request, what is written and the value of a body, and nothing else;
/// of a body that is declared twice it resolves neither.
pub proof fn law_only_what_is_used_is_resolved(payload: ProfileNode)
    ensures
        payload matches ProfileNode::ShExec { env, .. } ==> named_values(payload) == Some(env)
            && single_value(payload) is None,
        payload matches ProfileNode::FsWrite { content, .. } ==> named_values(payload) is None
            && single_value(payload) == Some(*content),
        payload matches ProfileNode::NetHttpGet { headers, .. } ==> named_values(payload) == Some(
            headers,
        ) && single_value(payload) is None,
        payload matches ProfileNode::NetHttpPost { headers, body, body_json, .. } ==> {
            &&& named_values(payload) == Some(headers)
            &&& body is Some && body_json is None ==> single_value(payload) == Some(*body->0)
            &&& body is None || body_json is Some ==> single_value(payload) is None
        },
        !(payload is ShExec || payload is FsWrite || payload is NetHttpGet
            || payload is NetHttpPost) ==> named_values(payload) is None && single_value(payload)
            is None,
{
}

} // verus!
