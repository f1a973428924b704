//! Scheme resolution for transfers: the single place that decides what a
//! `(src, dst)` pair means.
//!
//! - an `https://` or `http://` source downloads verbatim;
//! - `hf://<owner>/<repo>[@<rev>]/<path>` downloads from the public file
//!   endpoint, at `main` for an unpinned repository;
//! - a public `b2://` source has no declared endpoint, so it is refused;
//! - a scheme on the destination and a plain path on the source uploads;
//! - every other scheme is refused.

use crate::exec::{ErrorView, ExecError};
use crate::exec;
use crate::text;
use crate::text::{contains, contains_char, split_once, starts_with, strip_prefix, Text};
use vstd::prelude::*;

verus! {

/// Host serving the public file endpoint.
pub const HF_HOST: &'static str = "https://huggingface.co";

/// Revision an `hf://` URI resolves to when it pins none.
pub const HF_DEFAULT_REVISION: &'static str = "main";

/// What a `(src, dst)` pair resolves to.
#[derive(Debug, PartialEq, Eq)]
pub enum Transfer {
    /// GET `url`, streaming the body into the local destination path.
    Download {
        /// Fully resolved URL.
        url: String,
    },
    /// PUT the local source file to `url`.
    Upload {
        /// Fully resolved URL.
        url: String,
    },
}

/// The model of a [`Transfer`].
pub enum TransferView {
    Download { url: Text },
    Upload { url: Text },
}

impl View for Transfer {
    type V = TransferView;

    open spec fn view(&self) -> TransferView {
        match self {
            Transfer::Download { url } => TransferView::Download { url: url@ },
            Transfer::Upload { url } => TransferView::Upload { url: url@ },
        }
    }
}

/// The parts of an `hf://` URI: owner, repository, revision, path.
pub type HfParts = (String, String, Option<String>, Option<String>);

/// The model of [`HfParts`].
pub type HfPartsView = (Text, Text, Option<Text>, Option<Text>);

/// The model of the parts of an `hf://` URI.
pub open spec fn hf_parts_view(parts: HfParts) -> HfPartsView {
    (parts.0@, parts.1@, text::opt_text(parts.2), text::opt_text(parts.3))
}

/// The failure of `op` with `message`.
pub open spec fn failed(op: Text, message: Text) -> ErrorView {
    ErrorView::EffectFailed { op, message }
}

/// Whether `s` is an address to fetch as it stands.
pub open spec fn is_http(s: Text) -> bool {
    "https://"@.is_prefix_of(s) || "http://"@.is_prefix_of(s)
}

/// The bucket and the path of a `b2://` URI, both non-empty.
pub open spec fn b2_parts(rest: Text, op: Text, uri: Text) -> Result<(Text, Text), ErrorView> {
    match text::split_at_first(rest, '/') {
        Some((bucket, path)) if bucket.len() > 0 && path.len() > 0 => Ok((bucket, path)),
        _ => Err(failed(op, "malformed b2:// URI (missing bucket or path): "@ + uri)),
    }
}

/// The repository and the revision of a repository segment.
pub open spec fn repo_and_rev(segment: Text) -> (Text, Option<Text>) {
    match text::split_at_first(segment, '@') {
        Some((repo, rev)) => (repo, Some(rev)),
        None => (segment, None),
    }
}

/// The repository segment and the path behind it; an empty path is none.
pub open spec fn segment_and_path(remainder: Text) -> (Text, Option<Text>) {
    match text::split_at_first(remainder, '/') {
        Some((segment, path)) => (
            segment,
            if path.len() > 0 {
                Some(path)
            } else {
                None
            },
        ),
        None => (remainder, None),
    }
}

/// The parts of `<owner>/<repo>[@<rev>][/<path>]`.
pub open spec fn hf_parts(rest: Text, op: Text, uri: Text) -> Result<HfPartsView, ErrorView> {
    match text::split_at_first(rest, '/') {
        None => Err(failed(op, "hf:// URI is missing an owner/repo segment: "@ + uri)),
        Some((owner, remainder)) => if owner.contains('@') {
            Err(failed(op, "'@' is not allowed in the hf:// owner segment: "@ + owner))
        } else {
            let (segment, path) = segment_and_path(remainder);
            let (repo, rev) = repo_and_rev(segment);
            Ok((owner, repo, rev, path))
        },
    }
}

/// The revision a download uses: the URI's own, else the declared one,
/// else the default.
pub open spec fn revision_of(in_uri: Option<Text>, declared: Option<Text>) -> Text {
    match (in_uri, declared) {
        (Some(rev), _) => rev,
        (None, Some(rev)) => rev,
        (None, None) => HF_DEFAULT_REVISION@,
    }
}

/// The public file URL of a path in a repository.
pub open spec fn hf_url(owner: Text, repo: Text, rev: Text, path: Text) -> Text {
    HF_HOST@ + "/"@ + owner + "/"@ + repo + "/resolve/"@ + rev + "/"@ + path
}

/// The URL a public download source resolves to.
pub open spec fn download_target(op: Text, src: Text, revision: Option<Text>) -> Result<
    Text,
    ErrorView,
> {
    if is_http(src) {
        Ok(src)
    } else if "hf://"@.is_prefix_of(src) {
        match hf_parts(src.skip("hf://"@.len() as int), op, src) {
            Err(error) => Err(error),
            Ok((_, _, _, None)) => Err(
                failed(op, "hf:// download URI is missing the file path segment: "@ + src),
            ),
            Ok((owner, repo, rev, Some(path))) => Ok(
                hf_url(owner, repo, revision_of(rev, revision), path),
            ),
        }
    } else if "b2://"@.is_prefix_of(src) {
        Err(
            ErrorView::Unsupported(
                op + " '"@ + src
                    + "': a public b2:// download resolves to the deployment's own download endpoint (cluster- and account-specific), and no profile field declares one — give the phase a credential `env` to take the b2 CLI route instead (chapter 04 §net.transfer)"@,
            ),
        )
    } else {
        Err(
            ErrorView::Unsupported(
                op + " '"@ + src
                    + "': only https:// and hf:// sources resolve on the net.transfer bridge"@,
            ),
        )
    }
}

/// The URL an upload destination resolves to.
pub open spec fn upload_target(op: Text, dst: Text) -> Result<Text, ErrorView> {
    if is_http(dst) {
        Ok(dst)
    } else if "b2://"@.is_prefix_of(dst) || "hf://"@.is_prefix_of(dst) {
        Err(
            ErrorView::Unsupported(
                op + " -> '"@ + dst
                    + "': b2:// / hf:// uploads are CLI-routed and never reach the net.transfer bridge (chapter 02 §Dispatch routing)"@,
            ),
        )
    } else {
        Err(
            ErrorView::Unsupported(
                op + " -> '"@ + dst
                    + "': only https:// destinations upload over the net.transfer bridge"@,
            ),
        )
    }
}

/// The route of a `(src, dst)` pair: the side that carries a scheme is
/// the remote one.
pub open spec fn route(op: Text, src: Text, dst: Text) -> Result<TransferView, ErrorView> {
    let remote_src = text::holds(src, "://"@);
    let remote_dst = text::holds(dst, "://"@);
    if remote_src && remote_dst {
        Err(
            ErrorView::Unsupported(
                op + " '"@ + src + "' -> '"@ + dst
                    + "': src and dst both carry a scheme, so the transfer direction is undetermined"@,
            ),
        )
    } else if !remote_src && !remote_dst {
        Err(
            ErrorView::Unsupported(
                op + " '"@ + src + "' -> '"@ + dst
                    + "': neither src nor dst carries a scheme, so the transfer direction is undetermined"@,
            ),
        )
    } else if remote_src {
        match download_target(op, src, None) {
            Ok(url) => Ok(TransferView::Download { url }),
            Err(error) => Err(error),
        }
    } else {
        match upload_target(op, dst) {
            Ok(url) => Ok(TransferView::Upload { url }),
            Err(error) => Err(error),
        }
    }
}

/// The model of a fallible route.
pub open spec fn route_result(r: Result<Transfer, ExecError>) -> Result<TransferView, ErrorView> {
    match r {
        Ok(transfer) => Ok(transfer@),
        Err(error) => Err(error@),
    }
}

/// The failure of `op` with a message that ends in `subject`.
fn failure(op: &str, message: &str, subject: &str) -> (r: ExecError)
    ensures
        r@ == failed(op@, message@ + subject@),
{
    let mut text = message.to_owned();
    text.append(subject);
    ExecError::EffectFailed { op: op.to_owned(), message: text }
}

/// Splits what follows `b2://` into its bucket and its path.
pub fn split_b2_uri(rest: &str, op: &str, uri: &str) -> (r: Result<(String, String), ExecError>)
    ensures
        match r {
            Ok(parts) => b2_parts(rest@, op@, uri@) == Ok::<(Text, Text), ErrorView>(
                (parts.0@, parts.1@),
            ),
            Err(error) => b2_parts(rest@, op@, uri@) == Err::<(Text, Text), ErrorView>(error@),
        },
{
    if let Some((bucket, path)) = split_once(rest, '/') {
        if !bucket.as_str().is_empty() && !path.as_str().is_empty() {
            return Ok((bucket, path));
        }
    }
    Err(failure(op, "malformed b2:// URI (missing bucket or path): ", uri))
}

/// Parses what follows `hf://` into its owner, repository, revision and
/// path. An `@<rev>` behind the repository pins a revision; an `@` in
/// the owner is refused.
pub fn parse_hf_uri(rest: &str, op: &str, uri: &str) -> (r: Result<HfParts, ExecError>)
    ensures
        match r {
            Ok(parts) => hf_parts(rest@, op@, uri@) == Ok::<HfPartsView, ErrorView>(
                hf_parts_view(parts),
            ),
            Err(error) => hf_parts(rest@, op@, uri@) == Err::<HfPartsView, ErrorView>(error@),
        },
{
    let (owner, remainder) = match split_once(rest, '/') {
        Some(pair) => pair,
        None => {
            return Err(failure(op, "hf:// URI is missing an owner/repo segment: ", uri));
        },
    };
    if contains_char(owner.as_str(), '@') {
        return Err(
            failure(op, "'@' is not allowed in the hf:// owner segment: ", owner.as_str()),
        );
    }
    let (segment, path) = match split_once(remainder.as_str(), '/') {
        Some((segment, path)) => if path.as_str().is_empty() {
            (segment, None)
        } else {
            (segment, Some(path))
        },
        None => (remainder, None),
    };
    let (repo, rev) = match split_once(segment.as_str(), '@') {
        Some((repo, rev)) => (repo, Some(rev)),
        None => (segment, None),
    };
    Ok((owner, repo, rev, path))
}

/// Whether `s` is an address to fetch as it stands.
fn http(s: &str) -> (r: bool)
    ensures
        r == is_http(s@),
{
    starts_with(s, "https://") || starts_with(s, "http://")
}

/// The URL a public download source resolves to.
///
/// `revision` is the declared one, used only when the URI pins none: the
/// URI is the more specific address.
pub fn download_url(op: &str, src: &str, revision: Option<&str>) -> (r: Result<String, ExecError>)
    ensures
        exec::text_result(r) == download_target(op@, src@, text::opt_str(revision)),
{
    if http(src) {
        return Ok(src.to_owned());
    }
    if let Some(rest) = strip_prefix(src, "hf://") {
        let (owner, repo, uri_rev, path) = parse_hf_uri(rest.as_str(), op, src)?;
        let path = match path {
            Some(path) => path,
            None => {
                return Err(
                    failure(op, "hf:// download URI is missing the file path segment: ", src),
                );
            },
        };
        let rev = match (uri_rev, revision) {
            (Some(rev), _) => rev,
            (None, Some(rev)) => rev.to_owned(),
            (None, None) => HF_DEFAULT_REVISION.to_owned(),
        };
        let mut url = HF_HOST.to_owned();
        url.append("/");
        url.append(owner.as_str());
        url.append("/");
        url.append(repo.as_str());
        url.append("/resolve/");
        url.append(rev.as_str());
        url.append("/");
        url.append(path.as_str());
        return Ok(url);
    }
    let mut message = op.to_owned();
    message.append(" '");
    message.append(src);
    if starts_with(src, "b2://") {
        message.append(
            "': a public b2:// download resolves to the deployment's own download endpoint (cluster- and account-specific), and no profile field declares one — give the phase a credential `env` to take the b2 CLI route instead (chapter 04 §net.transfer)",
        );
    } else {
        message.append(
            "': only https:// and hf:// sources resolve on the net.transfer bridge",
        );
    }
    Err(ExecError::Unsupported(message))
}

/// The URL an upload destination resolves to.
pub fn upload_url(op: &str, dst: &str) -> (r: Result<String, ExecError>)
    ensures
        exec::text_result(r) == upload_target(op@, dst@),
{
    if http(dst) {
        return Ok(dst.to_owned());
    }
    let mut message = op.to_owned();
    message.append(" -> '");
    message.append(dst);
    if starts_with(dst, "b2://") || starts_with(dst, "hf://") {
        message.append(
            "': b2:// / hf:// uploads are CLI-routed and never reach the net.transfer bridge (chapter 02 §Dispatch routing)",
        );
    } else {
        message.append("': only https:// destinations upload over the net.transfer bridge");
    }
    Err(ExecError::Unsupported(message))
}

/// Resolves a `(src, dst)` pair into its route.
///
/// The direction is read off the schemes: one on `src` is a download,
/// one on `dst` an upload. A pair carrying both or neither fails rather
/// than picking a direction.
pub fn resolve(op: &str, src: &str, dst: &str) -> (r: Result<Transfer, ExecError>)
    ensures
        route_result(r) == route(op@, src@, dst@),
{
    let remote_src = contains(src, "://");
    let remote_dst = contains(dst, "://");
    if remote_src && !remote_dst {
        let url = download_url(op, src, None)?;
        return Ok(Transfer::Download { url });
    }
    if remote_dst && !remote_src {
        let url = upload_url(op, dst)?;
        return Ok(Transfer::Upload { url });
    }
    let mut message = op.to_owned();
    message.append(" '");
    message.append(src);
    message.append("' -> '");
    message.append(dst);
    if remote_src {
        message.append(
            "': src and dst both carry a scheme, so the transfer direction is undetermined",
        );
    } else {
        message.append(
            "': neither src nor dst carries a scheme, so the transfer direction is undetermined",
        );
    }
    Err(ExecError::Unsupported(message))
}

/// Whatever a pair resolves to is an address to fetch as it stands: no
/// other scheme ever leaves the resolution.
pub proof fn law_a_resolved_url_is_http(op: Text, src: Text, dst: Text)
    ensures
        match route(op, src, dst) {
            Ok(TransferView::Download { url }) => is_http(url),
            Ok(TransferView::Upload { url }) => is_http(url),
            Err(_) => true,
        },
{
    law_a_download_url_is_http(op, src, None);
}

/// A download source that resolves, resolves to an address to fetch as
/// it stands.
pub proof fn law_a_download_url_is_http(op: Text, src: Text, revision: Option<Text>)
    ensures
        download_target(op, src, revision) matches Ok(url) ==> is_http(url),
{
    reveal_strlit("https://");
    reveal_strlit("https://huggingface.co");
    assert forall|tail: Text| "https://"@.is_prefix_of(#[trigger] (HF_HOST@ + tail)) by {
        assert((HF_HOST@ + tail).subrange(0, "https://"@.len() as int) =~= "https://"@);
    }
    match download_target(op, src, revision) {
        Ok(url) => {
            if !is_http(src) {
                let (owner, repo, rev, path) = hf_parts(
                    src.skip("hf://"@.len() as int),
                    op,
                    src,
                )->Ok_0;
                let tail = "/"@ + owner + "/"@ + repo + "/resolve/"@ + revision_of(rev, revision)
                    + "/"@ + path->0;
                assert(url =~= HF_HOST@ + tail);
            }
        },
        Err(_) => {},
    }
}

/// A resolution succeeds only where exactly one side carries a scheme,
/// and the direction is the side that carries it.
pub proof fn law_the_direction_follows_the_scheme(op: Text, src: Text, dst: Text)
    ensures
        route(op, src, dst) is Ok ==> text::holds(src, "://"@) != text::holds(dst, "://"@),
        route(op, src, dst) matches Ok(TransferView::Download { .. }) ==> text::holds(src, "://"@),
        route(op, src, dst) matches Ok(TransferView::Upload { .. }) ==> text::holds(dst, "://"@),
{
}

/// A revision in the URI wins over the declared one, whatever that is.
pub proof fn law_the_uri_revision_wins(op: Text, src: Text, first: Option<Text>, other: Option<Text>)
    requires
        hf_parts(src.skip("hf://"@.len() as int), op, src) matches Ok(parts) && parts.2 is Some,
    ensures
        download_target(op, src, first) == download_target(op, src, other),
{
}

/// The text `://` stands in every text that begins with one of the four
/// schemes.
proof fn lemma_a_scheme_is_seen(s: Text)
    requires
        "hf://"@.is_prefix_of(s) || "b2://"@.is_prefix_of(s) || "http://"@.is_prefix_of(s)
            || "https://"@.is_prefix_of(s),
    ensures
        text::holds(s, "://"@),
{
    reveal_strlit("://");
    reveal_strlit("https://");
    reveal_strlit("http://");
    reveal_strlit("hf://");
    reveal_strlit("b2://");
    assert(text::stands_at("https://"@, "://"@, 5)) by {
        assert("https://"@.subrange(5, 8) =~= "://"@);
    }
    assert(text::stands_at("http://"@, "://"@, 4)) by {
        assert("http://"@.subrange(4, 7) =~= "://"@);
    }
    assert(text::stands_at("hf://"@, "://"@, 2)) by {
        assert("hf://"@.subrange(2, 5) =~= "://"@);
    }
    assert(text::stands_at("b2://"@, "://"@, 2)) by {
        assert("b2://"@.subrange(2, 5) =~= "://"@);
    }
    if "https://"@.is_prefix_of(s) {
        text::lemma_holds_in_longer(s, "https://"@, "://"@);
    }
    if "http://"@.is_prefix_of(s) {
        text::lemma_holds_in_longer(s, "http://"@, "://"@);
    }
    if "hf://"@.is_prefix_of(s) {
        text::lemma_holds_in_longer(s, "hf://"@, "://"@);
    }
    if "b2://"@.is_prefix_of(s) {
        text::lemma_holds_in_longer(s, "b2://"@, "://"@);
    }
}

/// No text begins with two of the schemes that lead different ways.
proof fn lemma_schemes_differ(s: Text)
    ensures
        "hf://"@.is_prefix_of(s) ==> !"https://"@.is_prefix_of(s) && !"http://"@.is_prefix_of(s)
            && !"b2://"@.is_prefix_of(s),
        "b2://"@.is_prefix_of(s) ==> !"https://"@.is_prefix_of(s) && !"http://"@.is_prefix_of(s),
{
    reveal_strlit("https://");
    reveal_strlit("http://");
    reveal_strlit("hf://");
    reveal_strlit("b2://");
    if "hf://"@.is_prefix_of(s) {
        assert(s[0] == "hf://"@[0] && s[1] == "hf://"@[1]);
    }
    if "b2://"@.is_prefix_of(s) {
        assert(s[0] == "b2://"@[0]);
    }
    if "https://"@.is_prefix_of(s) {
        assert(s[0] == "https://"@[0] && s[1] == "https://"@[1]);
    }
    if "http://"@.is_prefix_of(s) {
        assert(s[0] == "http://"@[0] && s[1] == "http://"@[1]);
    }
}

/// An `https://` or `http://` source with a plain path to land in is
/// always downloaded, from the very address that was given, whatever
/// revision is declared.
pub proof fn law_a_web_address_downloads_as_it_stands(
    op: Text,
    src: Text,
    dst: Text,
    revision: Option<Text>,
)
    requires
        "https://"@.is_prefix_of(src) || "http://"@.is_prefix_of(src),
    ensures
        download_target(op, src, revision) == Ok::<Text, ErrorView>(src),
        !text::holds(dst, "://"@) ==> route(op, src, dst) == Ok::<TransferView, ErrorView>(
            TransferView::Download { url: src },
        ),
{
    lemma_a_scheme_is_seen(src);
}

/// An `https://` or `http://` destination with a plain path as its source
/// is always uploaded, to the very address that was given.
pub proof fn law_a_web_address_uploads_as_it_stands(op: Text, src: Text, dst: Text)
    requires
        "https://"@.is_prefix_of(dst) || "http://"@.is_prefix_of(dst),
    ensures
        upload_target(op, dst) == Ok::<Text, ErrorView>(dst),
        !text::holds(src, "://"@) ==> route(op, src, dst) == Ok::<TransferView, ErrorView>(
            TransferView::Upload { url: dst },
        ),
{
    lemma_a_scheme_is_seen(dst);
}

/// The `hf://` address of a file: owner, repository, revision where one
/// is pinned, and the path.
pub open spec fn hf_address(owner: Text, repo: Text, pinned: Option<Text>, path: Text) -> Text {
    "hf://"@ + owner + "/"@ + repo + (match pinned {
        Some(rev) => "@"@ + rev,
        None => Seq::empty(),
    }) + "/"@ + path
}

/// What stands between the slashes of an address: an owner and a
/// repository hold no at sign, a revision may.
pub open spec fn hf_segments(owner: Text, repo: Text, pinned: Option<Text>) -> bool {
    &&& !owner.contains('/') && !owner.contains('@')
    &&& !repo.contains('/') && !repo.contains('@')
    &&& pinned matches Some(rev) ==> !rev.contains('/')
}

/// The parts of an address are the ones it was put together from; an
/// empty path is none.
pub proof fn law_an_address_is_read_as_it_was_written(
    owner: Text,
    repo: Text,
    pinned: Option<Text>,
    path: Text,
    op: Text,
    uri: Text,
)
    requires
        hf_segments(owner, repo, pinned),
    ensures
        hf_parts(hf_address(owner, repo, pinned, path).skip(5), op, uri) == Ok::<
            HfPartsView,
            ErrorView,
        >(
            (
                owner,
                repo,
                pinned,
                if path.len() == 0 {
                    None
                } else {
                    Some(path)
                },
            ),
        ),
{
    reveal_strlit("hf://");
    reveal_strlit("/");
    reveal_strlit("@");
    let segment = repo + (match pinned {
        Some(rev) => "@"@ + rev,
        None => Seq::empty(),
    });
    let remainder = segment + seq!['/'] + path;
    let rest = owner + seq!['/'] + remainder;
    assert("/"@ =~= seq!['/']);
    assert("@"@ =~= seq!['@']);
    assert(hf_address(owner, repo, pinned, path).skip(5) =~= rest);
    text::lemma_split_at_mark(owner, '/', remainder);
    assert(!segment.contains('/')) by {
        if segment.contains('/') {
            let i = segment.index_of('/');
            if i < repo.len() {
                assert(repo[i] == '/');
            } else if pinned is Some {
                let rev = pinned->0;
                assert(segment =~= repo + seq!['@'] + rev);
                if i > repo.len() {
                    assert(rev[i - repo.len() - 1] == '/');
                }
            }
        }
    }
    text::lemma_split_at_mark(segment, '/', path);
    match pinned {
        Some(rev) => {
            assert(segment =~= repo + seq!['@'] + rev);
            text::lemma_split_at_mark(repo, '@', rev);
        },
        None => {
            assert(segment =~= repo);
        },
    }
}

/// A file of a repository is always downloaded from the public file
/// endpoint: at the revision its address pins, else at the declared one,
/// else at `main`.
pub proof fn law_a_repository_file_downloads_at_its_revision(
    op: Text,
    owner: Text,
    repo: Text,
    pinned: Option<Text>,
    path: Text,
    declared: Option<Text>,
    dst: Text,
)
    requires
        hf_segments(owner, repo, pinned),
        path.len() > 0,
    ensures
        ({
            let src = hf_address(owner, repo, pinned, path);
            let file = "https://huggingface.co"@ + "/"@ + owner + "/"@ + repo + "/resolve/"@;
            &&& pinned matches Some(rev) ==> download_target(op, src, declared) == Ok::<
                Text,
                ErrorView,
            >(file + rev + "/"@ + path)
            &&& pinned is None && declared is Some ==> download_target(op, src, declared) == Ok::<
                Text,
                ErrorView,
            >(file + declared->0 + "/"@ + path)
            &&& pinned is None && declared is None ==> download_target(op, src, declared) == Ok::<
                Text,
                ErrorView,
            >(file + "main"@ + "/"@ + path)
            &&& !text::holds(dst, "://"@) ==> route(op, src, dst) == Ok::<TransferView, ErrorView>(
                TransferView::Download {
                    url: file + (match pinned {
                        Some(rev) => rev,
                        None => "main"@,
                    }) + "/"@ + path,
                },
            )
        }),
{
    reveal_strlit("hf://");
    let src = hf_address(owner, repo, pinned, path);
    let rest = owner + "/"@ + repo + (match pinned {
        Some(rev) => "@"@ + rev,
        None => Seq::empty(),
    }) + "/"@ + path;
    assert(src =~= "hf://"@ + rest);
    text::lemma_lead_and_rest("hf://"@, rest);
    lemma_a_scheme_is_seen(src);
    lemma_schemes_differ(src);
    law_an_address_is_read_as_it_was_written(owner, repo, pinned, path, op, src);
}

/// An `hf://` address that names no file, or that has an at sign in its
/// owner, is no download.
pub proof fn law_an_address_without_a_file_is_no_download(
    op: Text,
    owner: Text,
    tail: Text,
    declared: Option<Text>,
)
    requires
        !owner.contains('/'),
    ensures
        download_target(op, "hf://"@ + owner, declared) is Err,
        owner.contains('@') ==> download_target(op, "hf://"@ + owner + "/"@ + tail, declared)
            is Err,
        !tail.contains('/') ==> download_target(op, "hf://"@ + owner + "/"@ + tail, declared)
            is Err,
        !tail.contains('/') ==> download_target(
            op,
            "hf://"@ + owner + "/"@ + tail + "/"@,
            declared,
        ) is Err,
{
    reveal_strlit("/");
    assert("/"@ =~= seq!['/']);
    reveal_strlit("hf://");
    let bare = "hf://"@ + owner;
    text::lemma_lead_and_rest("hf://"@, owner);
    lemma_schemes_differ(bare);
    let one = owner + seq!['/'] + tail;
    assert("hf://"@ + owner + "/"@ + tail =~= "hf://"@ + one);
    text::lemma_lead_and_rest("hf://"@, one);
    lemma_schemes_differ("hf://"@ + one);
    text::lemma_split_at_mark(owner, '/', tail);
    let ended = tail + seq!['/'] + Seq::<char>::empty();
    let two = owner + seq!['/'] + ended;
    assert("hf://"@ + owner + "/"@ + tail + "/"@ =~= "hf://"@ + two);
    text::lemma_lead_and_rest("hf://"@, two);
    lemma_schemes_differ("hf://"@ + two);
    text::lemma_split_at_mark(owner, '/', ended);
    if !tail.contains('/') {
        text::lemma_split_at_mark(tail, '/', Seq::empty());
    }
}

/// Only the web and a repository are downloaded from, and only the web
/// is uploaded to: every other scheme is refused, with a message that
/// begins with the op and the address.
pub proof fn law_every_other_scheme_is_refused(op: Text, address: Text, declared: Option<Text>)
    requires
        !"https://"@.is_prefix_of(address),
        !"http://"@.is_prefix_of(address),
    ensures
        !"hf://"@.is_prefix_of(address) ==> (download_target(op, address, declared) matches Err(
            ErrorView::Unsupported(message),
        ) && (op + " '"@ + address + "'"@).is_prefix_of(message)),
        upload_target(op, address) matches Err(ErrorView::Unsupported(message)) && (op + " -> '"@
            + address + "'"@).is_prefix_of(message),
{
    reveal_strlit("'");
    reveal_strlit(
        "': a public b2:// download resolves to the deployment's own download endpoint (cluster- and account-specific), and no profile field declares one — give the phase a credential `env` to take the b2 CLI route instead (chapter 04 §net.transfer)",
    );
    reveal_strlit("': only https:// and hf:// sources resolve on the net.transfer bridge");
    reveal_strlit(
        "': b2:// / hf:// uploads are CLI-routed and never reach the net.transfer bridge (chapter 02 §Dispatch routing)",
    );
    reveal_strlit("': only https:// destinations upload over the net.transfer bridge");
    if !"hf://"@.is_prefix_of(address) {
        let message = download_target(op, address, declared)->Err_0->Unsupported_0;
        let lead = op + " '"@ + address + "'"@;
        assert(lead =~= message.subrange(0, lead.len() as int));
    }
    let message = upload_target(op, address)->Err_0->Unsupported_0;
    let lead = op + " -> '"@ + address + "'"@;
    assert(lead =~= message.subrange(0, lead.len() as int));
}

/// A pair of which both sides or neither side carries a scheme is
/// refused, with a message that begins with the op and both sides.
pub proof fn law_an_open_direction_is_refused(op: Text, src: Text, dst: Text)
    requires
        text::holds(src, "://"@) == text::holds(dst, "://"@),
    ensures
        route(op, src, dst) matches Err(ErrorView::Unsupported(message)) && (op + " '"@ + src
            + "' -> '"@ + dst + "'"@).is_prefix_of(message),
{
    reveal_strlit("'");
    reveal_strlit(
        "': src and dst both carry a scheme, so the transfer direction is undetermined",
    );
    reveal_strlit(
        "': neither src nor dst carries a scheme, so the transfer direction is undetermined",
    );
    let message = route(op, src, dst)->Err_0->Unsupported_0;
    let lead = op + " '"@ + src + "' -> '"@ + dst + "'"@;
    assert(lead =~= message.subrange(0, lead.len() as int));
}

/// A bucket and a path are read from an address exactly when it was put
/// together from a bucket and a path, neither of them empty.
pub proof fn law_a_bucket_is_read_as_it_was_written(bucket: Text, path: Text, op: Text, uri: Text)
    requires
        !bucket.contains('/'),
    ensures
        bucket.len() > 0 && path.len() > 0 ==> b2_parts(bucket + "/"@ + path, op, uri) == Ok::<
            (Text, Text),
            ErrorView,
        >((bucket, path)),
        bucket.len() == 0 || path.len() == 0 ==> b2_parts(bucket + "/"@ + path, op, uri) is Err,
        b2_parts(bucket, op, uri) is Err,
{
    reveal_strlit("/");
    assert("/"@ =~= seq!['/']);
    text::lemma_split_at_mark(bucket, '/', path);
}

/// What a refused address is told: of a bucket, that no endpoint is
/// declared for it; of an upload to a bucket or a repository, that it has
/// its own command; of a pair, whether both sides or neither carry a
/// scheme; and of anything else, what can be reached.
pub proof fn law_a_refusal_says_what_is_missing(op: Text, src: Text, dst: Text)
    ensures
        "b2://"@.is_prefix_of(src) ==> download_target(op, src, None) == Err::<Text, ErrorView>(
            ErrorView::Unsupported(
                op + " '"@ + src
                    + "': a public b2:// download resolves to the deployment's own download endpoint (cluster- and account-specific), and no profile field declares one — give the phase a credential `env` to take the b2 CLI route instead (chapter 04 §net.transfer)"@,
            ),
        ),
        !"https://"@.is_prefix_of(src) && !"http://"@.is_prefix_of(src) && !"hf://"@.is_prefix_of(
            src,
        ) && !"b2://"@.is_prefix_of(src) ==> download_target(op, src, None) == Err::<
            Text,
            ErrorView,
        >(
            ErrorView::Unsupported(
                op + " '"@ + src
                    + "': only https:// and hf:// sources resolve on the net.transfer bridge"@,
            ),
        ),
        "b2://"@.is_prefix_of(dst) || "hf://"@.is_prefix_of(dst) ==> upload_target(op, dst)
            == Err::<Text, ErrorView>(
            ErrorView::Unsupported(
                op + " -> '"@ + dst
                    + "': b2:// / hf:// uploads are CLI-routed and never reach the net.transfer bridge (chapter 02 §Dispatch routing)"@,
            ),
        ),
        !"https://"@.is_prefix_of(dst) && !"http://"@.is_prefix_of(dst) && !"hf://"@.is_prefix_of(
            dst,
        ) && !"b2://"@.is_prefix_of(dst) ==> upload_target(op, dst) == Err::<Text, ErrorView>(
            ErrorView::Unsupported(
                op + " -> '"@ + dst
                    + "': only https:// destinations upload over the net.transfer bridge"@,
            ),
        ),
        text::holds(src, "://"@) && text::holds(dst, "://"@) ==> route(op, src, dst) == Err::<
            TransferView,
            ErrorView,
        >(
            ErrorView::Unsupported(
                op + " '"@ + src + "' -> '"@ + dst
                    + "': src and dst both carry a scheme, so the transfer direction is undetermined"@,
            ),
        ),
        !text::holds(src, "://"@) && !text::holds(dst, "://"@) ==> route(op, src, dst) == Err::<
            TransferView,
            ErrorView,
        >(
            ErrorView::Unsupported(
                op + " '"@ + src + "' -> '"@ + dst
                    + "': neither src nor dst carries a scheme, so the transfer direction is undetermined"@,
            ),
        ),
{
    lemma_schemes_differ(src);
    lemma_schemes_differ(dst);
}

/// An address that is written wrong fails its op, in words that say what
/// is wrong with it and quote it.
pub proof fn law_a_wrong_address_is_quoted(op: Text, owner: Text, tail: Text, uri: Text)
    requires
        !owner.contains('/'),
    ensures
        hf_parts(owner, op, uri) == Err::<HfPartsView, ErrorView>(
            ErrorView::EffectFailed {
                op,
                message: "hf:// URI is missing an owner/repo segment: "@ + uri,
            },
        ),
        owner.contains('@') ==> hf_parts(owner + "/"@ + tail, op, uri) == Err::<
            HfPartsView,
            ErrorView,
        >(
            ErrorView::EffectFailed {
                op,
                message: "'@' is not allowed in the hf:// owner segment: "@ + owner,
            },
        ),
        b2_parts(owner, op, uri) == Err::<(Text, Text), ErrorView>(
            ErrorView::EffectFailed {
                op,
                message: "malformed b2:// URI (missing bucket or path): "@ + uri,
            },
        ),
        !owner.contains('@') && !tail.contains('/') ==> download_target(
            op,
            "hf://"@ + owner + "/"@ + tail,
            None,
        ) == Err::<Text, ErrorView>(
            ErrorView::EffectFailed {
                op,
                message: "hf:// download URI is missing the file path segment: "@ + ("hf://"@
                    + owner + "/"@ + tail),
            },
        ),
{
    reveal_strlit("/");
    assert("/"@ =~= seq!['/']);
    text::lemma_split_at_mark(owner, '/', tail);
    let rest = owner + seq!['/'] + tail;
    assert("hf://"@ + owner + "/"@ + tail =~= "hf://"@ + rest);
    text::lemma_lead_and_rest("hf://"@, rest);
    lemma_schemes_differ("hf://"@ + rest);
}

} // verus!
