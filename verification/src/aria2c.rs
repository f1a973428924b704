//! Downloads by `aria2c`: one file over many connections, watched over
//! the daemon's JSON-RPC.
//!
//! There is one daemon for each transfer, so the one download that it
//! tells of is the one that was asked for.

use crate::chunked::failed;
use crate::effects::{TransferOutcome, TransferProgress};
use crate::exec;
use crate::exec::{ErrorView, ExecError};
use crate::json;
use crate::json::{
    array_value, as_text, items, member, new_object, object_value, parse, print, put,
    text_array_value, text_value, JsonView,
};
use crate::scheme;
use crate::text;
use crate::text::{chars_of, list_of, parse_number, push_hexadecimal, same, signed_number, text_of, Text};
use vstd::prelude::*;

verus! {

/// The binary.
pub const BIN: &'static str = "aria2c";

/// Connections for one file, and pieces it is split into.
pub const SPLIT: &'static str = "16";

/// The smallest piece that is cut.
pub const MIN_SPLIT_SIZE: &'static str = "1M";

/// How often the daemon is asked, in seconds.
pub const POLL_INTERVAL_SEC: u64 = 1;

/// How long the daemon may take to answer, in seconds.
pub const RPC_TIMEOUT_SEC: u64 = 5;

// ---------------------------------------------------------------------
// The command line
// ---------------------------------------------------------------------

/// The daemon's command line.
pub open spec fn command_line(
    url: Text,
    dir: Text,
    name: Text,
    port: u16,
    secret: Text,
    pid: u32,
) -> Seq<Text> {
    seq![
        "--enable-rpc"@,
        "--rpc-listen-port="@ + text::decimal(port as nat),
        "--rpc-secret="@ + secret,
        "--rpc-listen-all=false"@,
        "--split="@ + SPLIT@,
        "--max-connection-per-server="@ + SPLIT@,
        "--min-split-size="@ + MIN_SPLIT_SIZE@,
        "--continue=true"@,
        "--auto-file-renaming=false"@,
        "--allow-overwrite=true"@,
        "--stop-with-process="@ + text::decimal(pid as nat),
        "--summary-interval=0"@,
        "--console-log-level=warn"@,
        "--dir="@ + dir,
        "--out="@ + name,
        url,
    ]
}

/// Two texts, one after the other.
fn glued(a: &str, b: &str) -> (r: String)
    ensures
        r@ == a@ + b@,
{
    let mut out = a.to_owned();
    out.append(b);
    out
}

/// The daemon's command line. It listens to this machine only, behind a
/// secret, takes up a file that is there in part, and ends with the
/// process `pid`.
pub fn argv(url: &str, dir: &str, name: &str, port: u16, secret: &str, pid: u32) -> (r: Vec<
    String,
>)
    ensures
        text::texts(r@) == command_line(url@, dir@, name@, port, secret@, pid),
{
    let listen = glued("--rpc-listen-port=", text::number(port as u64).as_str());
    let token = glued("--rpc-secret=", secret);
    let split = glued("--split=", SPLIT);
    let connections = glued("--max-connection-per-server=", SPLIT);
    let piece = glued("--min-split-size=", MIN_SPLIT_SIZE);
    let stop = glued("--stop-with-process=", text::number(pid as u64).as_str());
    let into = glued("--dir=", dir);
    let out = glued("--out=", name);
    let r = list_of(
        [
            "--enable-rpc",
            listen.as_str(),
            token.as_str(),
            "--rpc-listen-all=false",
            split.as_str(),
            connections.as_str(),
            piece.as_str(),
            "--continue=true",
            "--auto-file-renaming=false",
            "--allow-overwrite=true",
            stop.as_str(),
            "--summary-interval=0",
            "--console-log-level=warn",
            into.as_str(),
            out.as_str(),
            url,
        ],
    );
    assert(text::texts(r@) =~= command_line(url@, dir@, name@, port, secret@, pid));
    r
}

// ---------------------------------------------------------------------
// The destination
// ---------------------------------------------------------------------

/// A path without what it may end in and still be the same path: slashes,
/// but for the root's, and components that stay where they are.
pub open spec fn without_tail(path: Text) -> Text
    decreases path.len(),
{
    if path.len() >= 2 && (path.last() == '/' || (path.last() == '.' && path[path.len() - 2]
        == '/')) {
        without_tail(path.drop_last())
    } else {
        path
    }
}

/// Where the last component of a path begins.
pub open spec fn name_start(path: Text) -> int
    decreases path.len(),
{
    if path.len() == 0 || path.last() == '/' {
        path.len() as int
    } else {
        name_start(path.drop_last())
    }
}

proof fn lemma_name_start(path: Text)
    ensures
        0 <= name_start(path) <= path.len(),
    decreases path.len(),
{
    if path.len() > 0 && path.last() != '/' {
        lemma_name_start(path.drop_last());
    }
}

/// The directory and the name of a destination; none where it names no
/// file.
pub open spec fn dst_parts(dst: Text) -> Option<(Text, Text)> {
    let path = without_tail(dst);
    let at = name_start(path);
    let name = path.skip(at);
    if name.len() == 0 || name == "."@ || name == ".."@ {
        None
    } else {
        Some((without_tail(path.take(at)), name))
    }
}

/// How much of a path is left when its tail is taken off.
fn tail_start(cs: &Vec<char>, upto: usize) -> (r: usize)
    requires
        upto <= cs@.len(),
    ensures
        r <= upto,
        without_tail(cs@.take(upto as int)) == cs@.take(r as int),
    decreases upto,
{
    let ghost path = cs@.take(upto as int);
    if upto >= 2 && (cs[upto - 1] == '/' || (cs[upto - 1] == '.' && cs[upto - 2] == '/')) {
        assert(path.drop_last() =~= cs@.take(upto - 1));
        tail_start(cs, upto - 1)
    } else {
        upto
    }
}

/// Where the last component begins.
fn last_start(cs: &Vec<char>, upto: usize) -> (r: usize)
    requires
        upto <= cs@.len(),
    ensures
        r <= upto,
        r == name_start(cs@.take(upto as int)),
    decreases upto,
{
    let ghost path = cs@.take(upto as int);
    if upto == 0 || cs[upto - 1] == '/' {
        upto
    } else {
        assert(path.drop_last() =~= cs@.take(upto - 1));
        last_start(cs, upto - 1)
    }
}

/// The failure of a destination that names no file.
pub open spec fn nameless(dst: Text) -> ErrorView {
    scheme::failed("net_transfer"@, "destination '"@ + dst + "' has no file name"@)
}

/// The directory that a file is written into, and its name there.
pub fn split_dst(dst: &str) -> (r: Result<(String, String), ExecError>)
    ensures
        match r {
            Ok((dir, name)) => dst_parts(dst@) == Some((dir@, name@)),
            Err(error) => dst_parts(dst@) is None && error@ == scheme::failed(
                "net_transfer"@,
                "destination '"@ + dst@ + "' has no file name"@,
            ) && error@ == nameless(dst@),
        },
{
    let cs = chars_of(dst);
    let end = tail_start(&cs, cs.len());
    let at = last_start(&cs, end);
    let ghost path = without_tail(dst@);
    proof {
        assert(cs@.take(cs@.len() as int) =~= dst@);
        assert(path == cs@.take(end as int));
    }
    let name = text_of(&cs, at, end);
    assert(name@ =~= path.skip(at as int));
    if at == end || same(name.as_str(), ".") || same(name.as_str(), "..") {
        let mut message = "destination '".to_owned();
        message.append(dst);
        message.append("' has no file name");
        return Err(failed(message));
    }
    let stop = tail_start(&cs, at);
    let dir = text_of(&cs, 0, stop);
    proof {
        assert(path.take(at as int) =~= cs@.take(at as int));
        assert(dir@ =~= cs@.take(stop as int));
    }
    Ok((dir, name))
}

/// The name of a destination is one component and is neither of the two
/// that name no file.
pub proof fn law_a_name_is_one_component(dst: Text)
    requires
        dst_parts(dst) is Some,
    ensures
        ({
            let name = (dst_parts(dst)->0).1;
            &&& name.len() > 0
            &&& name != "."@
            &&& name != ".."@
            &&& !name.contains('/')
        }),
{
    let path = without_tail(dst);
    lemma_no_slash(path);
    lemma_name_start(path);
    let name = path.skip(name_start(path));
    assert forall|k: int| 0 <= k < name.len() implies name[k] != '/' by {
        assert(name[k] == path[name_start(path) + k]);
    }
}

proof fn lemma_no_slash(path: Text)
    ensures
        forall|k: int| name_start(path) <= k < path.len() ==> path[k] != '/',
    decreases path.len(),
{
    if path.len() > 0 && path.last() != '/' {
        lemma_no_slash(path.drop_last());
        lemma_name_start(path);
        assert forall|k: int| name_start(path) <= k < path.len() implies path[k] != '/' by {
            if k < path.len() - 1 {
                assert(path.drop_last()[k] != '/');
            }
        }
    }
}

// ---------------------------------------------------------------------
// Watching the daemon
// ---------------------------------------------------------------------

/// The secret of a daemon: when it was started, by which process, and as
/// which of that process's daemons.
pub open spec fn token(nanos: u128, pid: u32, seq: u64) -> Text {
    text::hexadecimal(nanos as nat) + text::hexadecimal(pid as nat) + text::hexadecimal(
        seq as nat,
    )
}

/// The secret of a daemon.
pub fn secret(nanos: u128, pid: u32, seq: u64) -> (r: String)
    ensures
        r@ == token(nanos, pid, seq),
{
    let mut out = String::new();
    push_hexadecimal(&mut out, nanos);
    push_hexadecimal(&mut out, pid as u128);
    push_hexadecimal(&mut out, seq as u128);
    assert(out@ =~= token(nanos, pid, seq));
    out
}

/// Two daemons that one process starts in one instant have different
/// secrets.
pub proof fn law_daemons_of_one_instant_differ(nanos: u128, pid: u32, first: u64, second: u64)
    requires
        first != second,
    ensures
        token(nanos, pid, first) != token(nanos, pid, second),
{
    let lead = text::hexadecimal(nanos as nat) + text::hexadecimal(pid as nat);
    let a = token(nanos, pid, first);
    let b = token(nanos, pid, second);
    assert(a.skip(lead.len() as int) =~= text::hexadecimal(first as nat));
    assert(b.skip(lead.len() as int) =~= text::hexadecimal(second as nat));
    if a == b {
        text::lemma_hexadecimal_tells_apart(first as nat, second as nat);
    }
}

/// What the daemon is asked.
pub open spec fn question(secret: Text) -> JsonView {
    JsonView::Object(
        json::no_members().insert("jsonrpc"@, JsonView::Text("2.0"@)).insert(
            "id"@,
            JsonView::Text("lm-provision"@),
        ).insert("method"@, JsonView::Text("aria2.tellActive"@)).insert(
            "params"@,
            JsonView::Array(
                seq![
                    JsonView::Text("token:"@ + secret),
                    json::text_array(seq!["completedLength"@, "totalLength"@]),
                ],
            ),
        ),
    )
}

/// The body of the request that asks the daemon how far it is.
pub fn poll_body(secret: &str) -> (r: Option<String>)
    ensures
        text::opt_text(r) == json::printed(question(secret@)),
{
    let fields = list_of(["completedLength", "totalLength"]);
    assert(text::texts(fields@) =~= seq!["completedLength"@, "totalLength"@]);
    let mut params: Vec<serde_json::Value> = Vec::new();
    params.push(text_value(glued("token:", secret).as_str()));
    params.push(text_array_value(&fields));
    assert(json::all_held(params@) =~= seq![
        JsonView::Text("token:"@ + secret@),
        json::text_array(seq!["completedLength"@, "totalLength"@]),
    ]);
    let mut object = new_object();
    put(&mut object, "jsonrpc", text_value("2.0"));
    put(&mut object, "id", text_value("lm-provision"));
    put(&mut object, "method", text_value("aria2.tellActive"));
    put(&mut object, "params", array_value(params));
    print(&object_value(object))
}

/// A count of bytes. The daemon spells them as texts.
pub open spec fn count_in(value: JsonView) -> Option<nat> {
    match value {
        JsonView::Text(digits) => text::read_number(digits, u64::MAX as nat),
        _ => None,
    }
}

/// A count of bytes.
pub fn number(value: &serde_json::Value) -> (r: Option<u64>)
    ensures
        match r {
            Some(count) => count_in(json::held(*value)) == Some(count as nat),
            None => count_in(json::held(*value)) is None,
        },
{
    match as_text(value) {
        Some(digits) => parse_number(digits, u64::MAX),
        None => None,
    }
}

/// The declared size in an entry; a size of zero is one the daemon has
/// not learned.
pub open spec fn size_in(entry: JsonView) -> Option<nat> {
    match json::member_of(entry, "totalLength"@) {
        Some(value) => match count_in(value) {
            Some(size) => if size > 0 {
                Some(size)
            } else {
                None
            },
            None => None,
        },
        None => None,
    }
}

/// The bytes that an entry says are there.
pub open spec fn completed_in(entry: JsonView) -> Option<nat> {
    match json::member_of(entry, "completedLength"@) {
        Some(value) => count_in(value),
        None => None,
    }
}

/// The first download that an answer tells of.
pub open spec fn entry_in(answer: JsonView) -> Option<JsonView> {
    match json::member_of(answer, "result"@) {
        Some(result) => match json::items_of(result) {
            Some(entries) => if entries.len() > 0 {
                Some(entries[0])
            } else {
                None
            },
            None => None,
        },
        None => None,
    }
}

/// What an answer says: the bytes that are there, and the size if it is
/// known.
pub open spec fn answered(answer: JsonView) -> Option<(nat, Option<nat>)> {
    match entry_in(answer) {
        Some(entry) => match completed_in(entry) {
            Some(written) => Some((written, size_in(entry))),
            None => None,
        },
        None => None,
    }
}

/// The model of what an answer says.
pub open spec fn progress_view(r: Option<(u64, Option<u64>)>) -> Option<(nat, Option<nat>)> {
    match r {
        Some((written, total)) => Some(
            (
                written as nat,
                match total {
                    Some(total) => Some(total as nat),
                    None => None,
                },
            ),
        ),
        None => None,
    }
}

/// What an answer says.
pub fn progress_in(answer: &serde_json::Value) -> (r: Option<(u64, Option<u64>)>)
    ensures
        progress_view(r) == answered(json::held(*answer)),
{
    let result = match member(answer, "result") {
        Some(result) => result,
        None => {
            return None;
        },
    };
    let entries = match items(result) {
        Some(entries) => entries,
        None => {
            return None;
        },
    };
    if entries.len() == 0 {
        return None;
    }
    let entry = &entries[0];
    assert(json::all_held(entries@)[0] == json::held(*entry));
    let written = match member(entry, "completedLength") {
        Some(value) => match number(value) {
            Some(written) => written,
            None => {
                return None;
            },
        },
        None => {
            return None;
        },
    };
    let total = match member(entry, "totalLength") {
        Some(value) => match number(value) {
            Some(total) => if total > 0 {
                Some(total)
            } else {
                None
            },
            None => None,
        },
        None => None,
    };
    Some((written, total))
}

/// What an answer says, by its text. An answer that says nothing is not a
/// failed transfer.
pub fn poll_reply(reply: &str) -> (r: Option<(u64, Option<u64>)>)
    ensures
        match json::parsed(reply@) {
            Some(answer) => progress_view(r) == answered(answer),
            None => r is None,
        },
{
    match parse(reply) {
        Some(answer) => progress_in(&answer),
        None => None,
    }
}

/// What is reported of a download under way.
pub open spec fn under_way(written: u64, total: Option<u64>) -> TransferProgress {
    TransferProgress { written, total, finished: false }
}

/// What is reported of a download under way.
pub fn progress_report(written: u64, total: Option<u64>) -> (r: TransferProgress)
    ensures
        r == (TransferProgress { written, total, finished: false }),
        r == under_way(written, total),
{
    TransferProgress { written, total, finished: false }
}

// ---------------------------------------------------------------------
// The end
// ---------------------------------------------------------------------

/// Why the daemon could not be started.
pub open spec fn not_started(not_found: bool, error: Text) -> ErrorView {
    scheme::failed(
        "net_transfer"@,
        if not_found {
            "'"@ + BIN@ + "' is not on PATH"@
        } else {
            "spawn '"@ + BIN@ + "': "@ + error
        },
    )
}

/// Why the daemon could not be started.
pub fn spawn_failure(not_found: bool, error: &str) -> (r: ExecError)
    ensures
        r@ == scheme::failed(
            "net_transfer"@,
            if not_found {
                "'"@ + BIN@ + "' is not on PATH"@
            } else {
                "spawn '"@ + BIN@ + "': "@ + error@
            },
        ),
        r@ == not_started(not_found, error@),
{
    let mut message = if not_found {
        "'".to_owned()
    } else {
        "spawn '".to_owned()
    };
    message.append(BIN);
    if not_found {
        message.append("' is not on PATH");
    } else {
        message.append("': ");
        message.append(error);
    }
    failed(message)
}

/// What is said of a daemon's exit code; one that a signal ended has
/// none.
pub open spec fn exit_name(code: Option<i32>) -> Text {
    match code {
        Some(code) => text::signed_decimal(code as int),
        None => "signal"@,
    }
}

/// Whether the daemon did its work.
pub open spec fn exit_verdict(code: Option<i32>) -> Result<(), ErrorView> {
    if code == Some(0i32) {
        Ok(())
    } else {
        Err(
            scheme::failed(
                "net_transfer"@,
                "'"@ + BIN@ + "' exited with status "@ + exit_name(code),
            ),
        )
    }
}

/// Whether the daemon did its work: it ended by itself, with the code
/// zero. There is no other way to make up for one that did not.
pub fn check_exit(code: Option<i32>) -> (r: Result<(), ExecError>)
    ensures
        match r {
            Ok(()) => code == Some(0i32),
            Err(error) => code != Some(0i32) && error@ == scheme::failed(
                "net_transfer"@,
                "'"@ + BIN@ + "' exited with status "@ + exit_name(code),
            ),
        },
        exec::unit_result(r) == exit_verdict(code),
{
    let name = match code {
        Some(code) => {
            if code == 0 {
                return Ok(());
            }
            signed_number(code as i64)
        },
        None => "signal".to_owned(),
    };
    let mut message = "'".to_owned();
    message.append(BIN);
    message.append("' exited with status ");
    message.append(name.as_str());
    Err(failed(message))
}

/// The last report of a download.
pub open spec fn all_there(bytes: u64) -> TransferProgress {
    TransferProgress { written: bytes, total: Some(bytes), finished: true }
}

/// The last report of a download, and its outcome: the size that the
/// file has.
pub fn finished(bytes: u64, dst: &str) -> (r: (TransferProgress, TransferOutcome))
    ensures
        r.0 == (TransferProgress { written: bytes, total: Some(bytes), finished: true }),
        r.0 == all_there(bytes),
        r.1.bytes == bytes,
        r.1.dst@ == dst@,
{
    (
        TransferProgress { written: bytes, total: Some(bytes), finished: true },
        TransferOutcome { bytes, dst: dst.to_owned() },
    )
}

// ---------------------------------------------------------------------
// What the daemon is told and what it says
// ---------------------------------------------------------------------

/// A download by the daemon succeeded exactly when the daemon ended by
/// itself with the code zero: any other code, and a signal, fails it. A
/// binary that is not there is told apart from one that cannot be started.
pub proof fn law_only_exit_zero_is_a_download(code: Option<i32>, error: Text)
    ensures
        exit_verdict(code) is Ok <==> code == Some(0i32),
        code matches Some(n) ==> (n != 0 ==> exit_verdict(code) == Err::<(), ErrorView>(
            ErrorView::EffectFailed {
                op: "net_transfer"@,
                message: "'"@ + "aria2c"@ + "' exited with status "@ + text::signed_decimal(
                    n as int,
                ),
            },
        )),
        code is None ==> exit_verdict(code) == Err::<(), ErrorView>(
            ErrorView::EffectFailed {
                op: "net_transfer"@,
                message: "'"@ + "aria2c"@ + "' exited with status "@ + "signal"@,
            },
        ),
        not_started(true, error) == (ErrorView::EffectFailed {
            op: "net_transfer"@,
            message: "'"@ + "aria2c"@ + "' is not on PATH"@,
        }),
        not_started(false, error) == (ErrorView::EffectFailed {
            op: "net_transfer"@,
            message: "spawn '"@ + "aria2c"@ + "': "@ + error,
        }),
{
}

/// The daemon listens to this machine only and behind the secret, on the
/// port it is given; it splits the file into 16 connections of at least a
/// mebibyte; it takes up a part that is there, writes over the file that
/// is there and renames nothing; it ends with the process; and it writes
/// the URL into the directory, under the name.
pub proof fn law_the_daemon_is_told_what_to_do(
    url: Text,
    dir: Text,
    name: Text,
    port: u16,
    secret: Text,
    pid: u32,
)
    ensures
        ({
            let line = command_line(url, dir, name, port, secret, pid);
            &&& line.len() == 16
            &&& line[0] == "--enable-rpc"@
            &&& line[1] == "--rpc-listen-port="@ + text::decimal(port as nat)
            &&& line[2] == "--rpc-secret="@ + secret
            &&& line[3] == "--rpc-listen-all=false"@
            &&& line[4] == "--split="@ + "16"@
            &&& line[5] == "--max-connection-per-server="@ + "16"@
            &&& line[6] == "--min-split-size="@ + "1M"@
            &&& line[7] == "--continue=true"@
            &&& line[8] == "--auto-file-renaming=false"@
            &&& line[9] == "--allow-overwrite=true"@
            &&& line[10] == "--stop-with-process="@ + text::decimal(pid as nat)
            &&& line[11] == "--summary-interval=0"@
            &&& line[12] == "--console-log-level=warn"@
            &&& line[13] == "--dir="@ + dir
            &&& line[14] == "--out="@ + name
            &&& line[15] == url
        }),
        POLL_INTERVAL_SEC == 1 && RPC_TIMEOUT_SEC == 5,
{
}

/// Whether a path ends in nothing that could be taken off it.
pub open spec fn bare(path: Text) -> bool {
    path.len() < 2 || path.last() != '/' && !(path.last() == '.' && path[path.len() - 2] == '/')
}

/// A destination is cut at its last slash into the directory and the name
/// of the file; a slash behind the name changes nothing; a name without a
/// directory has an empty one; and what ends in `..`, or is no name at
/// all, is no destination.
pub proof fn law_a_destination_is_cut_at_its_last_slash(dir: Text, name: Text)
    requires
        !name.contains('/'),
        name.len() > 0,
        name != "."@,
        bare(dir),
        dir.len() > 0,
        dir.last() != '/',
    ensures
        name != ".."@ ==> dst_parts(dir + "/"@ + name) == Some((dir, name)),
        name != ".."@ ==> dst_parts(dir + "/"@ + name + "/"@) == Some((dir, name)),
        name != ".."@ ==> dst_parts(dir + "/"@ + name + "/."@) == Some((dir, name)),
        name != ".."@ ==> dst_parts(dir + "//"@ + name) == Some((dir, name)),
        name != ".."@ ==> dst_parts("/"@ + name) == Some(("/"@, name)),
        name != ".."@ ==> dst_parts(name) == Some((Seq::<char>::empty(), name)),
        name == ".."@ ==> dst_parts(dir + "/"@ + name) is None && dst_parts(name) is None,
        dst_parts(Seq::empty()) is None,
{
    reveal_strlit("/");
    reveal_strlit(".");
    reveal_strlit("..");
    assert("/"@ =~= seq!['/']);
    let lead = dir + "/"@;
    let path = lead + name;
    assert(name.last() != '/') by {
        assert(name.contains(name.last()));
    }
    assert(name.len() == 1 ==> name[0] != '.') by {
        if name.len() == 1 && name[0] == '.' {
            assert(name =~= "."@);
        }
    }
    assert(path.last() == name.last());
    if name.len() >= 2 {
        assert(path[path.len() - 2] == name[name.len() - 2]);
        assert(name.contains(name[name.len() - 2]));
    }
    assert(without_tail(path) == path);
    assert(without_tail(name) == name) by {
        if name.len() >= 2 {
            assert(name[name.len() - 2] != '/');
        }
    }
    lemma_name_starts(lead, name);
    lemma_name_starts(Seq::empty(), name);
    assert(Seq::<char>::empty() + name =~= name);
    assert(path.skip(lead.len() as int) =~= name);
    assert(path.take(lead.len() as int) =~= lead);
    assert(name.skip(0) =~= name);
    assert(name.take(0) =~= Seq::<char>::empty());
    assert(lead.last() == '/');
    assert(lead.drop_last() =~= dir);
    assert(without_tail(dir) == dir);
    assert(without_tail(lead) == dir);
    assert(dir + "/"@ + name + "/"@ =~= path.push('/'));
    assert(path.push('/').drop_last() =~= path);
    assert(without_tail(path.push('/')) == path);
    let none = Seq::<char>::empty();
    assert(without_tail(none) == none);
    assert(none.skip(0) =~= none);
    reveal_strlit("/.");
    reveal_strlit("//");
    let dotted = dir + "/"@ + name + "/."@;
    assert(dotted =~= path.push('/').push('.'));
    assert(dotted.drop_last() =~= path.push('/'));
    assert(without_tail(dotted) == path);
    let twice = dir + "//"@;
    assert(twice =~= lead.push('/'));
    let wide = twice + name;
    assert(wide.last() == name.last());
    if name.len() >= 2 {
        assert(wide[wide.len() - 2] == name[name.len() - 2]);
    }
    assert(without_tail(wide) == wide);
    lemma_name_starts(twice, name);
    assert(wide.skip(twice.len() as int) =~= name);
    assert(wide.take(twice.len() as int) =~= twice);
    assert(twice.drop_last() =~= lead);
    assert(without_tail(twice) == dir);
    let top = "/"@ + name;
    assert(top.last() == name.last());
    if name.len() >= 2 {
        assert(top[top.len() - 2] == name[name.len() - 2]);
    }
    assert(without_tail(top) == top);
    lemma_name_starts("/"@, name);
    assert(top.skip(1) =~= name);
    assert(top.take(1) =~= "/"@);
    assert(without_tail("/"@) == "/"@);
}

/// A name behind a slash, or behind nothing, begins there.
proof fn lemma_name_starts(lead: Text, name: Text)
    requires
        !name.contains('/'),
        lead.len() == 0 || lead.last() == '/',
    ensures
        name_start(lead + name) == lead.len(),
    decreases name.len(),
{
    let whole = lead + name;
    if name.len() == 0 {
        assert(whole =~= lead);
    } else {
        assert(name.contains(name.last()));
        assert(whole.last() == name.last());
        assert(whole.drop_last() =~= lead + name.drop_last());
        assert(!name.drop_last().contains('/')) by {
            if name.drop_last().contains('/') {
                let i = name.drop_last().index_of('/');
                assert(name[i] == '/');
            }
        }
        lemma_name_starts(lead, name.drop_last());
    }
}

/// The daemon's answer tells the bytes that are there and the size of the
/// file, spelled as texts; a size of zero is one it has not learned. An
/// answer about no download tells nothing.
pub proof fn law_an_answer_tells_bytes_and_size(
    members: Map<Text, JsonView>,
    entry: Map<Text, JsonView>,
    others: Seq<JsonView>,
    written: u64,
    total: u64,
)
    requires
        entry.contains_key("completedLength"@),
        entry.contains_key("totalLength"@),
        entry["completedLength"@] == JsonView::Text(text::decimal(written as nat)),
        entry["totalLength"@] == JsonView::Text(text::decimal(total as nat)),
    ensures
        members.contains_key("result"@) && members["result"@] == JsonView::Array(
            seq![JsonView::Object(entry)] + others,
        ) ==> answered(JsonView::Object(members)) == Some(
            (
                written as nat,
                if total > 0 {
                    Some(total as nat)
                } else {
                    None
                },
            ),
        ),
        members.contains_key("result"@) && members["result"@] == JsonView::Array(Seq::empty())
            ==> answered(JsonView::Object(members)) is None,
        !members.contains_key("result"@) ==> answered(JsonView::Object(members)) is None,
{
    text::law_a_spelled_number_is_read_back(written as nat, u64::MAX as nat);
    text::law_a_spelled_number_is_read_back(total as nat, u64::MAX as nat);
    let list = seq![JsonView::Object(entry)] + others;
    assert(list[0] == JsonView::Object(entry));
}

/// The daemon is asked for its active downloads, with the secret, and for
/// the two numbers of each.
pub proof fn law_the_daemon_is_asked_with_the_secret(secret: Text)
    ensures
        question(secret) matches JsonView::Object(members) && {
            &&& members.contains_key("method"@) && members["method"@] == JsonView::Text(
                "aria2.tellActive"@,
            )
            &&& members.contains_key("jsonrpc"@) && members["jsonrpc"@] == JsonView::Text("2.0"@)
            &&& members.contains_key("id"@) && members["id"@] == JsonView::Text("lm-provision"@)
            &&& members.contains_key("params"@)
            &&& members["params"@] matches JsonView::Array(params) && {
                &&& params.len() == 2
                &&& params[0] == JsonView::Text("token:"@ + secret)
                &&& params[1] matches JsonView::Array(fields) && fields.len() == 2 && fields[0]
                    == JsonView::Text("completedLength"@) && fields[1] == JsonView::Text(
                    "totalLength"@,
                )
            }
        },
{
    reveal_strlit("jsonrpc");
    reveal_strlit("id");
    reveal_strlit("method");
    reveal_strlit("params");
    assert("jsonrpc"@.len() == 7 && "id"@.len() == 2 && "method"@.len() == 6 && "params"@.len()
        == 6);
    assert("method"@[0] == 'm' && "params"@[0] == 'p');
}

/// A report of a download under way is not its last; the last one has all
/// the bytes and says so.
pub proof fn law_only_the_last_report_is_final(written: u64, total: Option<u64>, bytes: u64)
    ensures
        under_way(written, total).finished == false,
        under_way(written, total).written == written && under_way(written, total).total == total,
        all_there(bytes).finished == true,
        all_there(bytes).written == bytes && all_there(bytes).total == Some(bytes),
{
}

/// A secret is made of the instant, the process and the daemon's number,
/// in this order.
pub proof fn law_a_secret_is_made_of_three_numbers(nanos: u128, pid: u32, number: u64)
    ensures
        token(nanos, pid, number) == text::hexadecimal(nanos as nat) + text::hexadecimal(pid as nat)
            + text::hexadecimal(number as nat),
{
}

/// A destination that names no file is refused by itself.
pub proof fn law_a_nameless_destination_is_quoted(dst: Text)
    ensures
        nameless(dst) == (ErrorView::EffectFailed {
            op: "net_transfer"@,
            message: "destination '"@ + dst + "' has no file name"@,
        }),
{
}

} // verus!
