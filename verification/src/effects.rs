//! What effects are asked for, and what their results mean.
//!
//! The effects themselves (processes, requests, files) are performed by
//! the host. What is handed to them and what is concluded from what they
//! return is decided here.

use crate::exec;
use crate::exec::{ErrorView, ExecError};
use crate::names::EnvMap;
use crate::scheme;
use crate::text;
use crate::text::{debug_list, number, same, to_lower, Text};
use vstd::prelude::*;
use vstd::slice::slice_subrange;

verus! {

/// How much of captured output is kept, in bytes.
pub const TAIL_LIMIT: usize = 4096;

/// How much of a response body is held in memory, in bytes.
pub const MAX_BYTES: u64 = 16777216;

/// How long a request may take when nothing is declared, in seconds.
pub const DEFAULT_TIMEOUT_SEC: u64 = 30;

/// How long a transfer may go without receiving anything, in seconds.
pub const TRANSFER_READ_TIMEOUT_SEC: u64 = 60;

// ---------------------------------------------------------------------
// Captured output
// ---------------------------------------------------------------------

/// The text of bytes read as UTF-8, with a replacement character for
/// what is not.
pub uninterp spec fn lossy_text(bytes: Seq<u8>) -> Seq<char>;

/// `String::from_utf8_lossy`: the text of the bytes, which is named and
/// not described.
#[verifier::external_body]
pub(crate) fn lossy(bytes: &[u8]) -> (r: String)
    ensures
        r@ == lossy_text(bytes@),
{
    String::from_utf8_lossy(bytes).into_owned()
}

/// The end of `bytes`: at most [`TAIL_LIMIT`] of them.
pub open spec fn last_bytes(bytes: Seq<u8>) -> Seq<u8> {
    if bytes.len() > TAIL_LIMIT {
        bytes.skip(bytes.len() - TAIL_LIMIT)
    } else {
        bytes
    }
}

/// The end of captured output, as text.
pub fn tail(bytes: &[u8]) -> (r: String)
    ensures
        r@ == lossy_text(last_bytes(bytes@)),
{
    let n = bytes.len();
    let start: usize = if n > TAIL_LIMIT {
        n - TAIL_LIMIT
    } else {
        0
    };
    let end = slice_subrange(bytes, start, n);
    assert(end@ =~= last_bytes(bytes@));
    lossy(end)
}

// ---------------------------------------------------------------------
// Commands
// ---------------------------------------------------------------------

/// What a command is run with.
pub struct ShOpts {
    /// Variables added to its environment.
    pub env: EnvMap,
}

impl ShOpts {
    /// Runs a command with `env` in its environment.
    pub fn new(env: EnvMap) -> (r: Self)
        ensures
            r.env == env,
    {
        ShOpts { env }
    }

    /// What the options read as: names only, never a value.
    pub open spec fn rendered(&self) -> Text {
        "ShOpts { env_keys: "@ + text::debug_list_text(self.env.names()) + " }"@
    }

    /// What the options read as: names only, never a value.
    pub fn render(&self) -> (r: String)
        ensures
            r@ == self.rendered(),
    {
        let mut out = "ShOpts { env_keys: ".to_owned();
        out.append(debug_list(&self.env.keys()).as_str());
        out.append(" }");
        out
    }
}

impl Default for ShOpts {
    /// Adds nothing to the environment.
    fn default() -> (r: Self)
        ensures
            r.env.names().len() == 0,
    {
        ShOpts { env: EnvMap::new() }
    }
}

/// What a command left behind.
#[derive(Debug)]
pub struct ExecOutcome {
    /// Its exit code, -1 for a command ended by a signal.
    pub exit_code: i32,
    /// The end of what it wrote to its output.
    pub stdout_tail: String,
    /// The end of what it wrote to its error output.
    pub stderr_tail: String,
}

/// Whether there is a command to run.
pub open spec fn argv_checked(argv: Seq<Text>) -> Result<(), ErrorView> {
    if argv.len() == 0 {
        Err(scheme::failed("sh_exec"@, "argv must be a non-empty list of strings"@))
    } else {
        Ok(())
    }
}

/// Refuses an empty command.
pub fn check_argv(argv: &Vec<String>) -> (r: Result<(), ExecError>)
    ensures
        exec::unit_result(r) == argv_checked(text::texts(argv@)),
{
    if argv.len() == 0 {
        Err(
            ExecError::EffectFailed {
                op: "sh_exec".to_owned(),
                message: "argv must be a non-empty list of strings".to_owned(),
            },
        )
    } else {
        Ok(())
    }
}

/// The failure of a command that could not be started.
pub open spec fn start_failed(program: Text, why: Text) -> ErrorView {
    scheme::failed("sh_exec"@, "failed to start '"@ + program + "': "@ + why)
}

/// The failure of a command that could not be started.
pub fn start_failure(program: &str, why: &str) -> (r: ExecError)
    ensures
        r@ == scheme::failed("sh_exec"@, "failed to start '"@ + program@ + "': "@ + why@),
        r@ == start_failed(program@, why@),
{
    let mut message = "failed to start '".to_owned();
    message.append(program);
    message.append("': ");
    message.append(why);
    ExecError::EffectFailed { op: "sh_exec".to_owned(), message }
}

/// The exit code of a command; -1 for one that a signal ended.
pub open spec fn exit_of(code: Option<i32>) -> i32 {
    match code {
        Some(code) => code,
        None => -1i32,
    }
}

/// What a command that ran left behind. Any exit code is an outcome, not
/// an error.
pub fn exec_outcome(code: Option<i32>, stdout: &[u8], stderr: &[u8]) -> (r: ExecOutcome)
    ensures
        r.exit_code == match code {
            Some(code) => code,
            None => -1i32,
        },
        r.exit_code == exit_of(code),
        r.stdout_tail@ == lossy_text(last_bytes(stdout@)),
        r.stderr_tail@ == lossy_text(last_bytes(stderr@)),
{
    let exit_code: i32 = match code {
        Some(code) => code,
        None => -1,
    };
    ExecOutcome { exit_code, stdout_tail: tail(stdout), stderr_tail: tail(stderr) }
}

// ---------------------------------------------------------------------
// Requests
// ---------------------------------------------------------------------

/// What a request is sent with.
pub struct HttpOpts {
    /// Declared headers.
    pub headers: EnvMap,
    /// Declared time it may take, in seconds.
    pub timeout_sec: Option<u16>,
}

impl HttpOpts {
    /// Sends a request with `headers`, taking at most `timeout_sec`.
    pub fn new(headers: EnvMap, timeout_sec: Option<u16>) -> (r: Self)
        ensures
            r.headers == headers,
            r.timeout_sec == timeout_sec,
    {
        HttpOpts { headers, timeout_sec }
    }

    /// How long the request may take, in seconds.
    pub open spec fn allowed_sec(&self) -> u64 {
        match self.timeout_sec {
            Some(sec) => sec as u64,
            None => DEFAULT_TIMEOUT_SEC,
        }
    }

    /// How long the request may take, in seconds.
    pub fn timeout(&self) -> (r: u64)
        ensures
            r == self.allowed_sec(),
    {
        match self.timeout_sec {
            Some(sec) => sec as u64,
            None => DEFAULT_TIMEOUT_SEC,
        }
    }

    /// Whether a content type is declared, in any case.
    pub open spec fn has_content_type(&self) -> bool {
        exists|i: int|
            0 <= i < self.headers.names().len() && text::lower(#[trigger] self.headers.names()[i])
                == "content-type"@
    }

    /// Whether a content type is declared.
    pub fn declares_content_type(&self) -> (r: bool)
        ensures
            r == self.has_content_type(),
    {
        let names = self.headers.keys();
        let mut i: usize = 0;
        while i < names.len()
            invariant
                i <= names@.len(),
                text::texts(names@) == self.headers.names(),
                forall|j: int|
                    0 <= j < i ==> text::lower(#[trigger] self.headers.names()[j])
                        != "content-type"@,
            decreases names@.len() - i,
        {
            assert(text::texts(names@)[i as int] == names@[i as int]@);
            if same(to_lower(names[i].as_str()).as_str(), "content-type") {
                return true;
            }
            i = i + 1;
        }
        false
    }

    /// What the options read as: names only, never a value.
    pub open spec fn rendered(&self) -> Text {
        "HttpOpts { header_names: "@ + text::debug_list_text(self.headers.names())
            + ", timeout_sec: "@ + (match self.timeout_sec {
            Some(sec) => "Some("@ + text::decimal(sec as nat) + ")"@,
            None => "None"@,
        }) + " }"@
    }

    /// What the options read as: names only, never a value.
    pub fn render(&self) -> (r: String)
        ensures
            r@ == self.rendered(),
    {
        let mut out = "HttpOpts { header_names: ".to_owned();
        out.append(debug_list(&self.headers.keys()).as_str());
        out.append(", timeout_sec: ");
        match self.timeout_sec {
            Some(sec) => {
                let mut some = "Some(".to_owned();
                some.append(number(sec as u64).as_str());
                some.append(")");
                out.append(some.as_str());
            },
            None => out.append("None"),
        }
        out.append(" }");
        out
    }
}

impl Default for HttpOpts {
    /// No headers, and the default time.
    fn default() -> (r: Self)
        ensures
            r.headers.names().len() == 0,
            r.timeout_sec is None,
    {
        HttpOpts { headers: EnvMap::new(), timeout_sec: None }
    }
}

/// Header lines, in the order they are sent.
pub open spec fn header_lines(entries: Seq<(String, String)>) -> Seq<(Text, Text)> {
    Seq::new(entries.len(), |i: int| (entries[i].0@, entries[i].1@))
}

/// The headers of a request that carries a body: the content type its
/// form implies, unless one is declared, then the declared ones.
pub open spec fn body_headers(opts: HttpOpts, content_type: Text) -> Seq<(Text, Text)> {
    if opts.has_content_type() {
        header_lines(opts.headers.entries@)
    } else {
        seq![("content-type"@, content_type)] + header_lines(opts.headers.entries@)
    }
}

/// The headers of a request that carries a body. Headers are appended
/// and not replaced, so a declared content type keeps the implied one
/// from being sent at all.
pub fn post_headers(opts: &HttpOpts, content_type: &str) -> (r: Vec<(String, String)>)
    ensures
        header_lines(r@) == body_headers(*opts, content_type@),
{
    let mut out: Vec<(String, String)> = Vec::new();
    if !opts.declares_content_type() {
        out.push(("content-type".to_owned(), content_type.to_owned()));
    }
    let ghost lead = header_lines(out@);
    let entries = &opts.headers.entries;
    let mut i: usize = 0;
    assert(header_lines(out@) =~= lead + header_lines(entries@).take(0));
    while i < entries.len()
        invariant
            i <= entries@.len(),
            entries@ == opts.headers.entries@,
            header_lines(out@) == lead + header_lines(entries@).take(i as int),
        decreases entries@.len() - i,
    {
        let ghost sofar = header_lines(out@);
        out.push((entries[i].0.clone(), entries[i].1.clone()));
        assert(header_lines(out@) =~= sofar.push(header_lines(entries@)[i as int]));
        assert(header_lines(out@) =~= lead + header_lines(entries@).take(i + 1));
        i = i + 1;
    }
    assert(header_lines(entries@).take(i as int) =~= header_lines(entries@));
    assert(header_lines(out@) =~= body_headers(*opts, content_type@));
    out
}

/// What a request was answered with.
#[derive(Debug)]
pub struct HttpOutcome {
    /// The status.
    pub status: u16,
    /// The end of the body.
    pub body_tail: String,
}

/// What a request was answered with.
pub fn http_outcome(status: u16, body: &[u8]) -> (r: HttpOutcome)
    ensures
        r.status == status,
        r.body_tail@ == lossy_text(last_bytes(body@)),
{
    HttpOutcome { status, body_tail: tail(body) }
}

/// What is said of a piece that would take a body over its limit.
pub open spec fn overflow(held: nat, len: nat, max_bytes: u64) -> Option<Text> {
    if held + len <= max_bytes {
        None
    } else {
        Some("response body exceeds max_bytes ("@ + text::decimal(max_bytes as nat) + ")"@)
    }
}

/// A response body as it arrives, with a limit on what is held.
pub struct BodyBuffer {
    /// What arrived.
    pub bytes: Vec<u8>,
    /// How much may be held.
    pub max_bytes: u64,
}

impl BodyBuffer {
    /// No more is held than may be.
    pub open spec fn wf(&self) -> bool {
        self.bytes@.len() <= self.max_bytes
    }

    /// Nothing has arrived.
    pub fn new(max_bytes: u64) -> (r: Self)
        ensures
            r.wf(),
            r.bytes@.len() == 0,
            r.max_bytes == max_bytes,
    {
        BodyBuffer { bytes: Vec::new(), max_bytes }
    }

    /// Takes the next piece of the body. A piece that would go over the
    /// limit is refused before anything of it is kept.
    pub fn push(&mut self, piece: &[u8]) -> (r: Result<(), String>)
        requires
            old(self).wf(),
        ensures
            final(self).wf(),
            final(self).max_bytes == old(self).max_bytes,
            match r {
                Ok(_) => {
                    &&& old(self).bytes@.len() + piece@.len() <= old(self).max_bytes
                    &&& overflow(old(self).bytes@.len(), piece@.len(), old(self).max_bytes) is None
                    &&& final(self).bytes@ == old(self).bytes@ + piece@
                },
                Err(message) => {
                    &&& old(self).bytes@.len() + piece@.len() > old(self).max_bytes
                    &&& final(self).bytes@ == old(self).bytes@
                    &&& message@ == "response body exceeds max_bytes ("@ + text::decimal(
                        old(self).max_bytes as nat,
                    ) + ")"@
                    &&& overflow(old(self).bytes@.len(), piece@.len(), old(self).max_bytes) == Some(
                        message@,
                    )
                },
            },
    {
        let held = self.bytes.len() as u64;
        if piece.len() as u64 > self.max_bytes - held {
            let mut message = "response body exceeds max_bytes (".to_owned();
            message.append(number(self.max_bytes).as_str());
            message.append(")");
            return Err(message);
        }
        let ghost before = self.bytes@;
        let mut i: usize = 0;
        while i < piece.len()
            invariant
                i <= piece@.len(),
                self.bytes@ == before + piece@.take(i as int),
                self.max_bytes == old(self).max_bytes,
            decreases piece@.len() - i,
        {
            self.bytes.push(piece[i]);
            assert(self.bytes@ =~= before + piece@.take(i + 1));
            i = i + 1;
        }
        assert(piece@.take(i as int) =~= piece@);
        Ok(())
    }
}

// ---------------------------------------------------------------------
// Transfers
// ---------------------------------------------------------------------

/// What a transfer moved.
#[derive(Debug)]
pub struct TransferOutcome {
    /// Bytes moved.
    pub bytes: u64,
    /// Where they went.
    pub dst: String,
}

/// One report of a running transfer.
#[derive(Debug, Clone, Copy)]
pub struct TransferProgress {
    /// Bytes written so far.
    pub written: u64,
    /// Bytes declared, when they are.
    pub total: Option<u64>,
    /// Whether this is the last report.
    pub finished: bool,
}

/// Whether a download was answered with the file.
pub open spec fn download_answer(status: u16) -> Result<(), ErrorView> {
    if 200 <= status < 300 {
        Ok(())
    } else {
        Err(
            scheme::failed(
                "net_transfer"@,
                "download responded with status "@ + text::decimal(status as nat),
            ),
        )
    }
}

/// Refuses a download that was not answered with the file.
pub fn check_download_status(status: u16) -> (r: Result<(), ExecError>)
    ensures
        exec::unit_result(r) == download_answer(status),
        r is Ok <==> 200 <= status && status < 300,
{
    if 200 <= status && status < 300 {
        Ok(())
    } else {
        let mut message = "download responded with status ".to_owned();
        message.append(number(status as u64).as_str());
        Err(ExecError::EffectFailed { op: "net_transfer".to_owned(), message })
    }
}

/// Whether an upload was taken.
pub open spec fn upload_answer(status: u16) -> Result<(), ErrorView> {
    if 200 <= status < 400 {
        Ok(())
    } else {
        Err(
            scheme::failed(
                "net_transfer"@,
                "upload responded with status "@ + text::decimal(status as nat),
            ),
        )
    }
}

/// Refuses an upload that was not taken.
pub fn check_upload_status(status: u16) -> (r: Result<(), ExecError>)
    ensures
        exec::unit_result(r) == upload_answer(status),
        r is Ok <==> 200 <= status && status < 400,
{
    if 200 <= status && status < 400 {
        Ok(())
    } else {
        let mut message = "upload responded with status ".to_owned();
        message.append(number(status as u64).as_str());
        Err(ExecError::EffectFailed { op: "net_transfer".to_owned(), message })
    }
}

// ---------------------------------------------------------------------
// Mounts
// ---------------------------------------------------------------------

/// What a mount or an unmount answers on a platform without mounts.
pub open spec fn no_mounts(binds: bool) -> ErrorView {
    ErrorView::Unsupported(
        if binds {
            "mount.bind: not supported on this platform (mount requires Linux)"@
        } else {
            "mount.umount: not supported on this platform (mount requires Linux)"@
        },
    )
}

/// What a bind mount answers on a platform without mounts. Where there are
/// mounts, the host makes it and hands over the outcome.
pub fn mount_bind(_src: &str, _dst: &str) -> (r: Result<(), ExecError>)
    ensures
        exec::unit_result(r) == Err::<(), ErrorView>(
            ErrorView::Unsupported(
                "mount.bind: not supported on this platform (mount requires Linux)"@,
            ),
        ),
        exec::unit_result(r) == Err::<(), ErrorView>(no_mounts(true)),
{
    Err(
        ExecError::Unsupported(
            "mount.bind: not supported on this platform (mount requires Linux)".to_owned(),
        ),
    )
}

/// What an unmount answers on a platform without mounts. Where there are
/// mounts, the host makes it and hands over the outcome.
pub fn umount(_path: &str) -> (r: Result<(), ExecError>)
    ensures
        exec::unit_result(r) == Err::<(), ErrorView>(
            ErrorView::Unsupported(
                "mount.umount: not supported on this platform (mount requires Linux)"@,
            ),
        ),
        exec::unit_result(r) == Err::<(), ErrorView>(no_mounts(false)),
{
    Err(
        ExecError::Unsupported(
            "mount.umount: not supported on this platform (mount requires Linux)".to_owned(),
        ),
    )
}

// ---------------------------------------------------------------------
// Laws
// ---------------------------------------------------------------------

/// At most one content type is ever sent for a body: the implied one is
/// there exactly when no declared header names one.
pub proof fn law_an_explicit_content_type_wins(opts: HttpOpts, content_type: Text)
    ensures
        opts.has_content_type() ==> body_headers(opts, content_type) == header_lines(
            opts.headers.entries@,
        ),
        !opts.has_content_type() ==> {
            &&& body_headers(opts, content_type)[0] == ("content-type"@, content_type)
            &&& forall|i: int|
                1 <= i < body_headers(opts, content_type).len() ==> text::lower(
                    (#[trigger] body_headers(opts, content_type)[i]).0,
                ) != "content-type"@
        },
{
    if !opts.has_content_type() {
        let lines = body_headers(opts, content_type);
        assert forall|i: int| 1 <= i < lines.len() implies text::lower((#[trigger] lines[i]).0)
            != "content-type"@ by {
            assert(lines[i].0 == opts.headers.names()[i - 1]);
        }
    }
}

/// What options read as does not depend on any value: options of the
/// same names read the same.
pub proof fn law_rendering_depends_on_names_only(
    first: ShOpts,
    second: ShOpts,
    sent: HttpOpts,
    resent: HttpOpts,
)
    ensures
        first.env.names() == second.env.names() ==> first.rendered() == second.rendered(),
        sent.headers.names() == resent.headers.names() && sent.timeout_sec == resent.timeout_sec
            ==> sent.rendered() == resent.rendered(),
{
}

/// A download is accepted exactly when its status is at least 200 and
/// below 300. Every other one is refused by `net_transfer`, in words that
/// end in the status.
pub proof fn law_only_a_delivered_file_is_accepted(status: u16)
    ensures
        download_answer(status) is Ok <==> 200 <= status && status < 300,
        status >= 300 || status < 200 ==> (download_answer(status) matches Err(
            ErrorView::EffectFailed { op, message },
        ) && op == "net_transfer"@ && message == "download responded with status "@
            + text::decimal(status as nat)),
{
}

/// An upload is taken exactly when its status is at least 200 and below
/// 400: a redirect that follows the request has taken it too. Every other
/// one is refused by `net_transfer`, in words that end in the status.
pub proof fn law_only_a_taken_file_is_accepted(status: u16)
    ensures
        upload_answer(status) is Ok <==> 200 <= status && status < 400,
        status >= 400 || status < 200 ==> (upload_answer(status) matches Err(
            ErrorView::EffectFailed { op, message },
        ) && op == "net_transfer"@ && message == "upload responded with status "@ + text::decimal(
            status as nat,
        )),
        download_answer(status) is Ok ==> upload_answer(status) is Ok,
{
}

/// Of captured output the last 4096 bytes are kept: all of it where it is
/// no longer, and else exactly so much of its end.
pub proof fn law_the_end_of_output_is_kept(bytes: Seq<u8>)
    ensures
        bytes.len() <= 4096 ==> last_bytes(bytes) == bytes,
        bytes.len() > 4096 ==> last_bytes(bytes).len() == 4096,
        forall|i: int|
            0 <= i < last_bytes(bytes).len() ==> #[trigger] last_bytes(bytes)[i] == bytes[bytes.len()
                - last_bytes(bytes).len() + i],
{
}

/// A request may take as long as is declared, be it longer or shorter
/// than the default, and 30 seconds where nothing is.
pub proof fn law_a_declared_timeout_counts(opts: HttpOpts)
    ensures
        opts.timeout_sec matches Some(sec) ==> opts.allowed_sec() == sec,
        opts.timeout_sec is None ==> opts.allowed_sec() == 30,
{
}

/// A declared header names a content type in any spelling of its letters,
/// small or capital, and then none is implied; otherwise the implied one
/// leads, and every declared header follows in order, unchanged.
pub proof fn law_every_declared_header_is_sent(opts: HttpOpts, content_type: Text, i: int)
    requires
        0 <= i < opts.headers.entries@.len(),
    ensures
        ({
            let sent = body_headers(opts, content_type);
            let line = (opts.headers.entries@[i].0@, opts.headers.entries@[i].1@);
            &&& text::lower(line.0) == "content-type"@ ==> sent.len() == opts.headers.entries@.len()
            &&& sent.len() == opts.headers.entries@.len() ==> sent[i] == line
            &&& sent.len() != opts.headers.entries@.len() ==> sent.len()
                == opts.headers.entries@.len() + 1 && sent[i + 1] == line && sent[0] == (
                "content-type"@,
                content_type,
            )
        }),
{
    assert(opts.headers.names()[i] == opts.headers.entries@[i].0@);
}

/// A command needs at least its program.
pub proof fn law_an_empty_command_is_refused(argv: Seq<Text>)
    ensures
        argv_checked(argv) is Ok <==> argv.len() > 0,
        argv.len() == 0 ==> argv_checked(argv) == Err::<(), ErrorView>(
            ErrorView::EffectFailed {
                op: "sh_exec"@,
                message: "argv must be a non-empty list of strings"@,
            },
        ),
{
}

/// A command that a signal ended has the exit code -1, and so fails; any
/// other keeps its own. One that could not be started fails with its name
/// and the reason.
pub proof fn law_a_signal_is_no_success(code: Option<i32>, program: Text, why: Text)
    ensures
        code is None ==> exit_of(code) == -1,
        code matches Some(own) ==> exit_of(code) == own,
        exit_of(code) == 0 <==> code == Some(0i32),
        start_failed(program, why) == (ErrorView::EffectFailed {
            op: "sh_exec"@,
            message: "failed to start '"@ + program + "': "@ + why,
        }),
{
}

/// A body is held up to its limit and not one byte further: a piece that
/// just fills it is kept, one that goes over is refused. By default the
/// limit is sixteen mebibytes.
pub proof fn law_a_body_is_held_up_to_its_limit(held: nat, len: nat, max_bytes: u64)
    ensures
        overflow(held, len, max_bytes) is None <==> held + len <= max_bytes,
        held + len > max_bytes ==> overflow(held, len, max_bytes) == Some(
            "response body exceeds max_bytes ("@ + text::decimal(max_bytes as nat) + ")"@,
        ),
        MAX_BYTES == 16 * 1024 * 1024,
        TRANSFER_READ_TIMEOUT_SEC == 60,
{
}

/// Where there are no mounts, either is refused by its own name.
pub proof fn law_mounts_need_their_platform(binds: bool)
    ensures
        binds ==> no_mounts(binds) == ErrorView::Unsupported(
            "mount.bind: not supported on this platform (mount requires Linux)"@,
        ),
        !binds ==> no_mounts(binds) == ErrorView::Unsupported(
            "mount.umount: not supported on this platform (mount requires Linux)"@,
        ),
{
}

/// Options read as the names they carry, and the time a request may take.
pub proof fn law_options_read_as_their_names(run: ShOpts, sent: HttpOpts)
    ensures
        run.rendered() == "ShOpts { env_keys: "@ + text::debug_list_text(run.env.names()) + " }"@,
        sent.timeout_sec is None ==> sent.rendered() == "HttpOpts { header_names: "@
            + text::debug_list_text(sent.headers.names()) + ", timeout_sec: "@ + "None"@ + " }"@,
        sent.timeout_sec matches Some(sec) ==> sent.rendered() == "HttpOpts { header_names: "@
            + text::debug_list_text(sent.headers.names()) + ", timeout_sec: "@ + ("Some("@
            + text::decimal(sec as nat) + ")"@) + " }"@,
{
}

} // verus!
