//! What the audit transcript says of each effect.
//!
//! There is one event for each effect, made before the effect runs, in a
//! dry run as in a real one. Names are told and values never are: the
//! variables of a command, the headers of a request and the source of
//! what is written appear by name, and a name that looks like that of a
//! secret is marked. The host emits the events.

use crate::effects::TransferProgress;
use crate::exec::ExecMode;
use crate::names::EnvMap;
use crate::text;
use crate::text::{contains, number, to_lower, Text};
use vstd::prelude::*;

verus! {

/// How long a running transfer may go without an event, in seconds.
///
/// It is shorter than the time a transfer may go without receiving
/// anything, so a missing event is news before the transfer fails.
pub const TRANSFER_PROGRESS_INTERVAL_SEC: u64 = 15;

/// What stands where a number is not known.
pub const UNKNOWN: &'static str = "unknown";

/// What a mode is called.
pub open spec fn mode_name(mode: ExecMode) -> Text {
    match mode {
        ExecMode::DryRun => "dry-run"@,
        ExecMode::Real => "real"@,
    }
}

/// What a mode is called.
pub fn mode_label(mode: ExecMode) -> (r: &'static str)
    ensures
        r@ == mode_name(mode),
{
    match mode {
        ExecMode::DryRun => "dry-run",
        ExecMode::Real => "real",
    }
}

/// Whether a name looks like that of a secret: one of a few words stands
/// in it, in upper or lower case. The words are this library's own
/// choice.
pub open spec fn secret_shaped(name: Text) -> bool {
    let lower = text::lower(name);
    ||| text::holds(lower, "token"@)
    ||| text::holds(lower, "secret"@)
    ||| text::holds(lower, "password"@)
    ||| text::holds(lower, "passwd"@)
    ||| text::holds(lower, "api_key"@)
    ||| text::holds(lower, "apikey"@)
    ||| text::holds(lower, "api-key"@)
    ||| text::holds(lower, "private_key"@)
    ||| text::holds(lower, "credential"@)
    ||| text::holds(lower, "authorization"@)
}

/// Whether a name looks like that of a secret.
pub fn is_secret_shaped_key(name: &str) -> (r: bool)
    ensures
        r == secret_shaped(name@),
{
    let lower = to_lower(name);
    let lower = lower.as_str();
    contains(lower, "token") || contains(lower, "secret") || contains(lower, "password")
        || contains(lower, "passwd") || contains(lower, "api_key") || contains(lower, "apikey")
        || contains(lower, "api-key") || contains(lower, "private_key") || contains(
        lower,
        "credential",
    ) || contains(lower, "authorization")
}

/// How a name is shown: marked, if it looks like that of a secret.
pub open spec fn shown_name(name: Text) -> Text {
    if secret_shaped(name) {
        name + " [REDACTED]"@
    } else {
        name
    }
}

/// How a list of names is shown.
pub open spec fn shown_names(names: Seq<Text>) -> Seq<Text> {
    Seq::new(names.len(), |i: int| shown_name(names[i]))
}

/// The names of a map, as the transcript shows them. Values never appear.
pub fn env_keys(env: &EnvMap) -> (r: Vec<String>)
    ensures
        text::texts(r@) == shown_names(env.names()),
{
    let mut out: Vec<String> = Vec::new();
    let mut i: usize = 0;
    while i < env.entries.len()
        invariant
            i <= env.entries@.len(),
            out@.len() == i,
            forall|j: int| 0 <= j < i ==> (#[trigger] out@[j])@ == shown_name(env.entries@[j].0@),
        decreases env.entries@.len() - i,
    {
        let mut shown = env.entries[i].0.clone();
        if is_secret_shaped_key(shown.as_str()) {
            shown.append(" [REDACTED]");
        }
        out.push(shown);
        i = i + 1;
    }
    assert(text::texts(out@) =~= shown_names(env.names()));
    out
}

/// What the names show as depends on the names alone.
pub proof fn law_what_is_shown_depends_on_names_only(a: EnvMap, b: EnvMap)
    requires
        a.names() == b.names(),
    ensures
        shown_names(a.names()) == shown_names(b.names()),
{
}

// ---------------------------------------------------------------------
// Events
// ---------------------------------------------------------------------

/// One line of the transcript.
#[derive(Debug, PartialEq, Eq)]
pub enum AuditEvent {
    ShExec { mode: &'static str, kind: String, argv: Vec<String>, env_keys: Vec<String> },
    FsWrite {
        mode: &'static str,
        kind: String,
        path: String,
        bytes: u64,
        content_source: String,
    },
    HttpGet { mode: &'static str, kind: String, url: String, header_names: Vec<String> },
    HttpPost {
        mode: &'static str,
        kind: String,
        url: String,
        header_names: Vec<String>,
        body_source: String,
        body_bytes: u64,
    },
    Transfer { mode: &'static str, kind: String, src: String, dst: String },
    TransferProgress {
        mode: &'static str,
        kind: String,
        step: String,
        dst: String,
        bytes: u64,
        /// The declared size; none where none was declared, or zero.
        total: Option<u64>,
        elapsed_sec: u64,
        state: &'static str,
    },
    HttpPoll { mode: &'static str, kind: String, url: String, timeout_sec: u64 },
    MountBind { mode: &'static str, kind: String, src: String, dst: String },
    MountUmount { mode: &'static str, kind: String, path: String },
    Note { mode: &'static str, kind: String, note: String },
}

/// The model of an [`AuditEvent`].
#[verifier::ext_equal]
pub enum EventView {
    ShExec { mode: Text, kind: Text, argv: Seq<Text>, env_keys: Seq<Text> },
    FsWrite { mode: Text, kind: Text, path: Text, bytes: u64, content_source: Text },
    HttpGet { mode: Text, kind: Text, url: Text, header_names: Seq<Text> },
    HttpPost {
        mode: Text,
        kind: Text,
        url: Text,
        header_names: Seq<Text>,
        body_source: Text,
        body_bytes: u64,
    },
    Transfer { mode: Text, kind: Text, src: Text, dst: Text },
    TransferProgress {
        mode: Text,
        kind: Text,
        step: Text,
        dst: Text,
        bytes: u64,
        total: Option<u64>,
        elapsed_sec: u64,
        state: Text,
    },
    HttpPoll { mode: Text, kind: Text, url: Text, timeout_sec: u64 },
    MountBind { mode: Text, kind: Text, src: Text, dst: Text },
    MountUmount { mode: Text, kind: Text, path: Text },
    Note { mode: Text, kind: Text, note: Text },
}

impl View for AuditEvent {
    type V = EventView;

    open spec fn view(&self) -> EventView {
        match *self {
            AuditEvent::ShExec { mode, kind, argv, env_keys } => EventView::ShExec {
                mode: mode@,
                kind: kind@,
                argv: text::texts(argv@),
                env_keys: text::texts(env_keys@),
            },
            AuditEvent::FsWrite { mode, kind, path, bytes, content_source } => EventView::FsWrite {
                mode: mode@,
                kind: kind@,
                path: path@,
                bytes,
                content_source: content_source@,
            },
            AuditEvent::HttpGet { mode, kind, url, header_names } => EventView::HttpGet {
                mode: mode@,
                kind: kind@,
                url: url@,
                header_names: text::texts(header_names@),
            },
            AuditEvent::HttpPost { mode, kind, url, header_names, body_source, body_bytes } =>
            EventView::HttpPost {
                mode: mode@,
                kind: kind@,
                url: url@,
                header_names: text::texts(header_names@),
                body_source: body_source@,
                body_bytes,
            },
            AuditEvent::Transfer { mode, kind, src, dst } => EventView::Transfer {
                mode: mode@,
                kind: kind@,
                src: src@,
                dst: dst@,
            },
            AuditEvent::TransferProgress {
                mode,
                kind,
                step,
                dst,
                bytes,
                total,
                elapsed_sec,
                state,
            } => EventView::TransferProgress {
                mode: mode@,
                kind: kind@,
                step: step@,
                dst: dst@,
                bytes,
                total,
                elapsed_sec,
                state: state@,
            },
            AuditEvent::HttpPoll { mode, kind, url, timeout_sec } => EventView::HttpPoll {
                mode: mode@,
                kind: kind@,
                url: url@,
                timeout_sec,
            },
            AuditEvent::MountBind { mode, kind, src, dst } => EventView::MountBind {
                mode: mode@,
                kind: kind@,
                src: src@,
                dst: dst@,
            },
            AuditEvent::MountUmount { mode, kind, path } => EventView::MountUmount {
                mode: mode@,
                kind: kind@,
                path: path@,
            },
            AuditEvent::Note { mode, kind, note } => EventView::Note {
                mode: mode@,
                kind: kind@,
                note: note@,
            },
        }
    }
}

/// A command: what will run, verbatim, and the names of its variables.
pub fn sh_exec(mode: ExecMode, kind: &str, argv: &Vec<String>, env: &EnvMap) -> (r: AuditEvent)
    ensures
        r@ == (EventView::ShExec {
            mode: mode_name(mode),
            kind: kind@,
            argv: text::texts(argv@),
            env_keys: shown_names(env.names()),
        }),
{
    AuditEvent::ShExec {
        mode: mode_label(mode),
        kind: kind.to_owned(),
        argv: text::copy_list(argv),
        env_keys: env_keys(env),
    }
}

/// A file: its path, how many bytes, and where they come from. The bytes
/// never appear.
pub fn fs_write(mode: ExecMode, kind: &str, path: &str, bytes: u64, content_source: &str) -> (r:
    AuditEvent)
    ensures
        r@ == (EventView::FsWrite {
            mode: mode_name(mode),
            kind: kind@,
            path: path@,
            bytes,
            content_source: content_source@,
        }),
{
    AuditEvent::FsWrite {
        mode: mode_label(mode),
        kind: kind.to_owned(),
        path: path.to_owned(),
        bytes,
        content_source: content_source.to_owned(),
    }
}

/// A GET request: its URL and the names of its headers.
pub fn http_get(mode: ExecMode, kind: &str, url: &str, headers: &EnvMap) -> (r: AuditEvent)
    ensures
        r@ == (EventView::HttpGet {
            mode: mode_name(mode),
            kind: kind@,
            url: url@,
            header_names: shown_names(headers.names()),
        }),
{
    AuditEvent::HttpGet {
        mode: mode_label(mode),
        kind: kind.to_owned(),
        url: url.to_owned(),
        header_names: env_keys(headers),
    }
}

/// A POST request: its URL, the names of its headers, and the form and
/// length of its body. The body never appears.
pub fn http_post(
    mode: ExecMode,
    kind: &str,
    url: &str,
    headers: &EnvMap,
    body_source: &str,
    body_bytes: u64,
) -> (r: AuditEvent)
    ensures
        r@ == (EventView::HttpPost {
            mode: mode_name(mode),
            kind: kind@,
            url: url@,
            header_names: shown_names(headers.names()),
            body_source: body_source@,
            body_bytes,
        }),
{
    AuditEvent::HttpPost {
        mode: mode_label(mode),
        kind: kind.to_owned(),
        url: url.to_owned(),
        header_names: env_keys(headers),
        body_source: body_source.to_owned(),
        body_bytes,
    }
}

/// A transfer: both of its ends.
pub fn transfer(mode: ExecMode, kind: &str, src: &str, dst: &str) -> (r: AuditEvent)
    ensures
        r@ == (EventView::Transfer { mode: mode_name(mode), kind: kind@, src: src@, dst: dst@ }),
{
    AuditEvent::Transfer {
        mode: mode_label(mode),
        kind: kind.to_owned(),
        src: src.to_owned(),
        dst: dst.to_owned(),
    }
}

/// A poll: its URL and its deadline.
pub fn http_poll(mode: ExecMode, kind: &str, url: &str, timeout_sec: u64) -> (r: AuditEvent)
    ensures
        r@ == (EventView::HttpPoll { mode: mode_name(mode), kind: kind@, url: url@, timeout_sec }),
{
    AuditEvent::HttpPoll {
        mode: mode_label(mode),
        kind: kind.to_owned(),
        url: url.to_owned(),
        timeout_sec,
    }
}

/// A bind mount: both of its ends.
pub fn mount_bind(mode: ExecMode, kind: &str, src: &str, dst: &str) -> (r: AuditEvent)
    ensures
        r@ == (EventView::MountBind { mode: mode_name(mode), kind: kind@, src: src@, dst: dst@ }),
{
    AuditEvent::MountBind {
        mode: mode_label(mode),
        kind: kind.to_owned(),
        src: src.to_owned(),
        dst: dst.to_owned(),
    }
}

/// An unmount: its path.
pub fn mount_umount(mode: ExecMode, kind: &str, path: &str) -> (r: AuditEvent)
    ensures
        r@ == (EventView::MountUmount { mode: mode_name(mode), kind: kind@, path: path@ }),
{
    AuditEvent::MountUmount {
        mode: mode_label(mode),
        kind: kind.to_owned(),
        path: path.to_owned(),
    }
}

/// A step that does nothing, and why.
pub fn note(mode: ExecMode, kind: &str, message: &str) -> (r: AuditEvent)
    ensures
        r@ == (EventView::Note { mode: mode_name(mode), kind: kind@, note: message@ }),
{
    AuditEvent::Note {
        mode: mode_label(mode),
        kind: kind.to_owned(),
        note: message.to_owned(),
    }
}

// ---------------------------------------------------------------------
// Transfers that are under way
// ---------------------------------------------------------------------

/// A total that can be divided by: a declared zero is not one.
pub open spec fn known_total(total: Option<u64>) -> Option<u64> {
    match total {
        Some(total) => if total > 0 {
            Some(total)
        } else {
            None
        },
        None => None,
    }
}

/// A report of a transfer: which step it is, where it writes, how far it
/// has come and whether it is done. The source never appears.
pub fn transfer_progress(
    kind: &str,
    step: &str,
    dst: &str,
    bytes: u64,
    total: Option<u64>,
    elapsed_sec: u64,
    state: &'static str,
) -> (r: AuditEvent)
    ensures
        r@ == (EventView::TransferProgress {
            mode: mode_name(ExecMode::Real),
            kind: kind@,
            step: step@,
            dst: dst@,
            bytes,
            total: known_total(total),
            elapsed_sec,
            state: state@,
        }),
{
    let total = match total {
        Some(total) => if total > 0 {
            Some(total)
        } else {
            None
        },
        None => None,
    };
    AuditEvent::TransferProgress {
        mode: mode_label(ExecMode::Real),
        kind: kind.to_owned(),
        step: step.to_owned(),
        dst: dst.to_owned(),
        bytes,
        total,
        elapsed_sec,
        state,
    }
}

/// How a total is shown.
pub fn total_label(total: Option<u64>) -> (r: String)
    ensures
        r@ == match known_total(total) {
            Some(total) => text::decimal(total as nat),
            None => UNKNOWN@,
        },
        r@ == total_text(total),
{
    match total {
        Some(total) => if total > 0 {
            number(total)
        } else {
            UNKNOWN.to_owned()
        },
        None => UNKNOWN.to_owned(),
    }
}

/// Nanoseconds in a second.
pub const NANOS: u64 = 1000000000;

/// Which of a transfer's reports are told, and what of them.
///
/// There is one for each transfer. Times are nanoseconds since the
/// transfer started.
#[derive(Debug)]
pub struct TransferTranscript {
    kind: String,
    step: String,
    dst: String,
    interval: u64,
    last: Option<u64>,
}

/// The model of a [`TransferTranscript`].
pub struct TranscriptView {
    pub kind: Text,
    pub step: Text,
    pub dst: Text,
    pub interval: u64,
    /// When the last event was made.
    pub last: Option<u64>,
}

impl View for TransferTranscript {
    type V = TranscriptView;

    closed spec fn view(&self) -> TranscriptView {
        TranscriptView {
            kind: self.kind@,
            step: self.step@,
            dst: self.dst@,
            interval: self.interval,
            last: self.last,
        }
    }
}

impl TranscriptView {
    /// Whether a report is news: the first one is, and one that says the
    /// transfer is done; any other only once the interval has passed.
    pub open spec fn is_news(self, now: u64, finished: bool) -> bool {
        finished || match self.last {
            Some(last) => (if now < last {
                0
            } else {
                now - last
            }) >= self.interval,
            None => true,
        }
    }

    /// What is told of a report.
    pub open spec fn told(self, now: u64, progress: TransferProgress) -> EventView {
        EventView::TransferProgress {
            mode: mode_name(ExecMode::Real),
            kind: self.kind,
            step: self.step,
            dst: self.dst,
            bytes: progress.written,
            total: known_total(progress.total),
            elapsed_sec: now / NANOS,
            state: if progress.finished {
                "done"@
            } else {
                "running"@
            },
        }
    }
}

impl TransferTranscript {
    /// A transcript of the transfer that `step` makes to `dst`.
    pub fn new(kind: &str, step: &str, dst: &str) -> (r: Self)
        ensures
            r@ == (TranscriptView {
                kind: kind@,
                step: step@,
                dst: dst@,
                interval: (TRANSFER_PROGRESS_INTERVAL_SEC * NANOS) as u64,
                last: None,
            }),
            r@ == opened(kind@, step@, dst@),
    {
        TransferTranscript::with_interval(kind, step, dst, TRANSFER_PROGRESS_INTERVAL_SEC * NANOS)
    }

    /// A transcript with an event at most every `interval` nanoseconds.
    pub fn with_interval(kind: &str, step: &str, dst: &str, interval: u64) -> (r: Self)
        ensures
            r@ == (TranscriptView { kind: kind@, step: step@, dst: dst@, interval, last: None }),
    {
        TransferTranscript {
            kind: kind.to_owned(),
            step: step.to_owned(),
            dst: dst.to_owned(),
            interval,
            last: None,
        }
    }

    /// Take one report, and give the event it makes if it is news.
    pub fn observe(&mut self, now: u64, progress: TransferProgress) -> (r: Option<AuditEvent>)
        ensures
            match r {
                Some(event) => old(self)@.is_news(now, progress.finished) && event@
                    == old(self)@.told(now, progress) && final(self)@ == (TranscriptView {
                    last: Some(now),
                    ..old(self)@
                }),
                None => !old(self)@.is_news(now, progress.finished) && final(self)@
                    == old(self)@,
            },
    {
        if !progress.finished {
            if let Some(last) = self.last {
                let since = if now < last {
                    0
                } else {
                    now - last
                };
                if since < self.interval {
                    return None;
                }
            }
        }
        self.last = Some(now);
        Some(
            transfer_progress(
                self.kind.as_str(),
                self.step.as_str(),
                self.dst.as_str(),
                progress.written,
                progress.total,
                now / NANOS,
                if progress.finished {
                    "done"
                } else {
                    "running"
                },
            ),
        )
    }
}

/// The first report of a transfer is told at once, and the one that says
/// it is done is told however soon it comes.
pub proof fn law_the_first_and_the_last_are_told(
    transcript: TranscriptView,
    now: u64,
    finished: bool,
)
    requires
        transcript.last is None || finished,
    ensures
        transcript.is_news(now, finished),
{
}

/// Between two events of a transfer that is not done at least the
/// interval passes, and silence has one meaning: a report that comes when
/// the interval has passed is told.
pub proof fn law_events_keep_their_distance(transcript: TranscriptView, last: u64, now: u64)
    requires
        transcript.last == Some(last),
        last <= now,
    ensures
        transcript.is_news(now, false) <==> now - last >= transcript.interval,
{
}

/// What a transcript of a transfer begins with.
pub open spec fn opened(kind: Text, step: Text, dst: Text) -> TranscriptView {
    TranscriptView {
        kind,
        step,
        dst,
        interval: (TRANSFER_PROGRESS_INTERVAL_SEC * NANOS) as u64,
        last: None,
    }
}

/// What stands for a total.
pub open spec fn total_text(total: Option<u64>) -> Text {
    match known_total(total) {
        Some(total) => text::decimal(total as nat),
        None => UNKNOWN@,
    }
}

/// A running transfer is told of at its first report, and then every 15
/// seconds.
pub proof fn law_a_transfer_is_told_of_every_fifteen_seconds(
    kind: Text,
    step: Text,
    dst: Text,
    now: u64,
    last: u64,
)
    ensures
        opened(kind, step, dst).is_news(now, false),
        opened(kind, step, dst).kind == kind && opened(kind, step, dst).step == step && opened(
            kind,
            step,
            dst,
        ).dst == dst,
        ({
            let later = TranscriptView { last: Some(last), ..opened(kind, step, dst) };
            &&& later.is_news(now, true)
            &&& later.is_news(now, false) <==> now - last >= 15 * 1000000000
        }),
{
}

/// What is told of a running transfer: the step and where it writes, the
/// bytes it has, the seconds it took so far, and whether it is done.
pub proof fn law_a_report_tells_how_far_a_transfer_is(
    transcript: TranscriptView,
    now: u64,
    progress: TransferProgress,
)
    ensures
        transcript.told(now, progress) matches EventView::TransferProgress {
            mode,
            kind,
            step,
            dst,
            bytes,
            total,
            elapsed_sec,
            state,
        } && {
            &&& mode == "real"@
            &&& kind == transcript.kind && step == transcript.step && dst == transcript.dst
            &&& bytes == progress.written
            &&& progress.total == Some(0u64) || progress.total is None ==> total is None
            &&& progress.total matches Some(n) ==> (n > 0 ==> total == Some(n))
            &&& elapsed_sec * 1000000000 <= now < (elapsed_sec + 1) * 1000000000
            &&& progress.finished ==> state == "done"@
            &&& !progress.finished ==> state == "running"@
        },
{
}

/// A total is shown in digits, and one that is not declared or zero as
/// `unknown`.
pub proof fn law_an_unknown_total_is_called_so(total: Option<u64>)
    ensures
        total is None || total == Some(0u64) ==> total_text(total) == "unknown"@,
        total matches Some(n) ==> (n > 0 ==> total_text(total) == text::decimal(n as nat)),
{
}

/// A dry run is called `dry-run` and a real one `real`.
pub proof fn law_a_mode_is_called_by_its_name(mode: ExecMode)
    ensures
        mode == ExecMode::DryRun ==> mode_name(mode) == "dry-run"@,
        mode == ExecMode::Real ==> mode_name(mode) == "real"@,
{
}

/// Every name is shown in its place, and it is marked exactly where it
/// looks like that of a secret, whatever the case of its letters.
pub proof fn law_a_secret_name_is_marked(names: Seq<Text>, i: int)
    requires
        0 <= i < names.len(),
    ensures
        shown_names(names).len() == names.len(),
        secret_shaped(names[i]) ==> shown_names(names)[i] == names[i] + " [REDACTED]"@,
        !secret_shaped(names[i]) ==> shown_names(names)[i] == names[i],
        secret_shaped(names[i]) <==> ({
            let small = text::lower(names[i]);
            ||| text::holds(small, "token"@) || text::holds(small, "secret"@)
            ||| text::holds(small, "password"@) || text::holds(small, "passwd"@)
            ||| text::holds(small, "api_key"@) || text::holds(small, "apikey"@)
            ||| text::holds(small, "api-key"@) || text::holds(small, "private_key"@)
            ||| text::holds(small, "credential"@) || text::holds(small, "authorization"@)
        }),
{
}

} // verus!
