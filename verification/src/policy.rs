//! The allowlists: which paths and which URLs a profile may reach.

use crate::exec;
use crate::exec::{ErrorView, ExecError};
use crate::text;
use crate::text::{append_list, chars_of, contains_char, find_from, same, starts_with, text_of, Text};
use vstd::prelude::*;

verus! {

// ---------------------------------------------------------------------
// Paths
// ---------------------------------------------------------------------

/// Whether a `..` stands between slashes, or between a slash and an end,
/// at position `at`.
pub open spec fn dotdot_at(path: Text, at: int) -> bool {
    &&& 0 <= at
    &&& at + 2 <= path.len()
    &&& path[at] == '.'
    &&& path[at + 1] == '.'
    &&& (at == 0 || path[at - 1] == '/')
    &&& (at + 2 == path.len() || path[at + 2] == '/')
}

/// Whether one of the segments of `path` is `..`.
pub open spec fn has_dotdot(path: Text) -> bool {
    exists|at: int| dotdot_at(path, at)
}

/// `root` with one slash at its end.
pub open spec fn with_slash(root: Text) -> Text {
    if root.len() > 0 && root.last() == '/' {
        root
    } else {
        root.push('/')
    }
}

/// Whether `path` is `root` or lies below it, segment by segment.
pub open spec fn below(root: Text, path: Text) -> bool {
    path == root || with_slash(root).is_prefix_of(path)
}

/// Whether `path` is absolute, has no `..` segment, and lies under one
/// of `roots`.
pub open spec fn path_allowed(roots: Seq<Text>, path: Text) -> bool {
    &&& path.len() > 0 && path[0] == '/'
    &&& !has_dotdot(path)
    &&& exists|i: int| 0 <= i < roots.len() && below(#[trigger] roots[i], path)
}

/// The path allowlist of a profile: lexical only, it follows no links.
#[derive(Debug)]
pub struct PathPolicy {
    roots: Vec<String>,
}

/// Whether one of the segments of `path` is `..`.
fn dotdot(path: &Vec<char>) -> (r: bool)
    ensures
        r == has_dotdot(path@),
{
    if path.len() < 2 {
        return false;
    }
    let mut i: usize = 0;
    while i <= path.len() - 2
        invariant
            2 <= path@.len() <= usize::MAX,
            i <= path@.len() - 1,
            forall|at: int| 0 <= at < i ==> !dotdot_at(path@, at),
        decreases path@.len() - i,
    {
        if path[i] == '.' && path[i + 1] == '.' && (i == 0 || path[i - 1] == '/') && (i + 2
            == path.len() || path[i + 2] == '/') {
            assert(dotdot_at(path@, i as int));
            return true;
        }
        i = i + 1;
    }
    false
}

impl PathPolicy {
    /// The declared roots.
    pub closed spec fn roots(&self) -> Seq<Text> {
        text::texts(self.roots@)
    }

    /// Whether `path` passes, and what is said when it does not.
    pub open spec fn admits(&self, path: Text) -> Result<(), ErrorView> {
        if path_allowed(self.roots(), path) {
            Ok(())
        } else {
            Err(ErrorView::PathDenied { path })
        }
    }

    /// A policy of the declared roots.
    pub fn new(roots: &Vec<String>) -> (r: Self)
        ensures
            r.roots() == text::texts(roots@),
    {
        let mut own: Vec<String> = Vec::new();
        append_list(&mut own, roots);
        assert(text::texts(own@) =~= text::texts(roots@));
        PathPolicy { roots: own }
    }

    /// Whether `path` may be reached.
    pub fn is_allowed(&self, path: &str) -> (r: bool)
        ensures
            r == path_allowed(self.roots(), path@),
    {
        let cs = chars_of(path);
        if cs.len() == 0 || cs[0] != '/' {
            return false;
        }
        if dotdot(&cs) {
            return false;
        }
        let mut i: usize = 0;
        while i < self.roots.len()
            invariant
                i <= self.roots@.len(),
                path@.len() > 0 && path@[0] == '/',
                !has_dotdot(path@),
                forall|j: int| 0 <= j < i ==> !below(#[trigger] self.roots()[j], path@),
            decreases self.roots@.len() - i,
        {
            if Self::under_root(self.roots[i].as_str(), path) {
                assert(below(self.roots()[i as int], path@));
                return true;
            }
            i = i + 1;
        }
        false
    }

    /// [`Self::is_allowed`] as a result that names the refused path.
    pub fn check(&self, path: &str) -> (r: Result<(), ExecError>)
        ensures
            exec::unit_result(r) == self.admits(path@),
    {
        if self.is_allowed(path) {
            Ok(())
        } else {
            Err(ExecError::PathDenied { path: path.to_owned() })
        }
    }

    /// Whether `path` is `root` or lies below it.
    fn under_root(root: &str, path: &str) -> (r: bool)
        ensures
            r == below(root@, path@),
    {
        if same(path, root) {
            return true;
        }
        let cs = chars_of(root);
        let mut rooted = root.to_owned();
        if cs.len() == 0 || cs[cs.len() - 1] != '/' {
            rooted.append("/");
            proof {
                reveal_strlit("/");
                assert(rooted@ =~= root@.push('/'));
            }
        }
        starts_with(path, rooted.as_str())
    }
}

// ---------------------------------------------------------------------
// URLs
// ---------------------------------------------------------------------

/// A URL cut at its `://` and at the first slash after it: scheme,
/// authority, path. The authority holds no slash.
pub open spec fn url_parts(url: Text) -> Option<(Text, Text, Text)> {
    let at = scheme_end(url);
    if at < 0 {
        None
    } else {
        let rest = url.skip(at + 3);
        let slash = text::first_of(rest, '/');
        Some((url.take(at), rest.take(slash), rest.skip(slash)))
    }
}

/// The position of the first `://`, or -1.
pub open spec fn scheme_end(url: Text) -> int
    decreases url.len(),
{
    if url.len() < 3 {
        -1
    } else if url[0] == ':' && url[1] == '/' && url[2] == '/' {
        0
    } else {
        let rest = scheme_end(url.drop_first());
        if rest < 0 {
            -1
        } else {
            rest + 1
        }
    }
}

/// Whether `://` stands in `url` at `at`.
pub open spec fn separator_at(url: Text, at: int) -> bool {
    &&& 0 <= at
    &&& at + 3 <= url.len()
    &&& url[at] == ':'
    &&& url[at + 1] == '/'
    &&& url[at + 2] == '/'
}

/// `scheme_end` is the first place of a `://`, and -1 where there is
/// none.
pub proof fn lemma_scheme_end(url: Text)
    ensures
        scheme_end(url) >= 0 ==> separator_at(url, scheme_end(url)),
        forall|at: int|
            0 <= at && (scheme_end(url) < 0 || at < scheme_end(url)) ==> !#[trigger] separator_at(
                url,
                at,
            ),
        scheme_end(url) >= -1,
    decreases url.len(),
{
    if url.len() >= 3 && !separator_at(url, 0) {
        let rest = url.drop_first();
        lemma_scheme_end(rest);
        assert forall|at: int|
            0 <= at && (scheme_end(url) < 0 || at < scheme_end(url)) implies !#[trigger] separator_at(
            url,
            at,
        ) by {
            if at > 0 {
                assert(separator_at(url, at) == separator_at(rest, at - 1));
            }
        }
        if scheme_end(url) >= 0 {
            assert(separator_at(rest, scheme_end(url) - 1));
        }
    }
}

/// Whether `c` ends the host of a URL or stands before it.
pub open spec fn delimits_host(c: char) -> bool {
    c == '/' || c == '?' || c == '#' || c == '@'
}

/// Whether `s` is text of a host: it holds nothing that ends a host or
/// stands before one.
pub open spec fn host_only(s: Text) -> bool {
    forall|i: int| 0 <= i < s.len() ==> !delimits_host(#[trigger] s[i])
}

/// Whether `authority` matches `pattern`: letter for letter, or with the
/// pattern's first `*` standing for some text of the host.
pub open spec fn authority_matches(pattern: Text, authority: Text) -> bool {
    if pattern.contains('*') {
        let star = text::first_of(pattern, '*');
        exists|middle: Text|
            host_only(middle) && authority == #[trigger] starred(
                pattern.take(star),
                middle,
                pattern.skip(star + 1),
            )
    } else {
        authority == pattern
    }
}

/// A text put between a beginning and an end.
pub open spec fn starred(before: Text, middle: Text, after: Text) -> Text {
    before + middle + after
}

/// Between one beginning and one end only one text makes the whole.
proof fn lemma_one_middle(before: Text, one: Text, other: Text, after: Text)
    requires
        starred(before, one, after) == starred(before, other, after),
    ensures
        one == other,
{
    let whole = starred(before, one, after);
    let from = before.len() as int;
    let to = whole.len() - after.len();
    assert(starred(before, other, after).len() == before.len() + other.len() + after.len());
    assert(whole.subrange(from, to) =~= one);
    assert(starred(before, other, after).subrange(from, to) =~= other);
}

/// Whether `url` matches `pattern`: the same scheme, a matching
/// authority, and a path that begins with the pattern's.
pub open spec fn url_matches(pattern: Text, url: Text) -> bool {
    match (url_parts(pattern), url_parts(url)) {
        (Some((scheme, authority, path)), Some((url_scheme, url_authority, url_path))) => {
            &&& scheme == url_scheme
            &&& authority_matches(authority, url_authority)
            &&& path.is_prefix_of(url_path)
        },
        _ => false,
    }
}

/// Whether `url` matches one of `patterns`.
pub open spec fn url_allowed(patterns: Seq<Text>, url: Text) -> bool {
    exists|i: int| 0 <= i < patterns.len() && url_matches(#[trigger] patterns[i], url)
}

/// The URL allowlist of a profile.
#[derive(Debug)]
pub struct HttpPolicy {
    allowlist: Vec<String>,
}

impl HttpPolicy {
    /// The declared patterns.
    pub closed spec fn patterns(&self) -> Seq<Text> {
        text::texts(self.allowlist@)
    }

    /// Whether `url` passes, and what is said when it does not.
    pub open spec fn admits(&self, url: Text) -> Result<(), ErrorView> {
        if url_allowed(self.patterns(), url) {
            Ok(())
        } else {
            Err(ErrorView::HttpDenied { url })
        }
    }

    /// A policy of the declared patterns.
    pub fn new(allowlist: &Vec<String>) -> (r: Self)
        ensures
            r.patterns() == text::texts(allowlist@),
    {
        let mut own: Vec<String> = Vec::new();
        append_list(&mut own, allowlist);
        assert(text::texts(own@) =~= text::texts(allowlist@));
        HttpPolicy { allowlist: own }
    }

    /// Whether `url` may be reached. What the wildcard of a pattern
    /// matches is confined to the host.
    pub fn is_allowed(&self, url: &str) -> (r: bool)
        ensures
            r == url_allowed(self.patterns(), url@),
    {
        let mut i: usize = 0;
        while i < self.allowlist.len()
            invariant
                i <= self.allowlist@.len(),
                forall|j: int| 0 <= j < i ==> !url_matches(#[trigger] self.patterns()[j], url@),
            decreases self.allowlist@.len() - i,
        {
            if Self::pattern_matches(self.allowlist[i].as_str(), url) {
                assert(url_matches(self.patterns()[i as int], url@));
                return true;
            }
            i = i + 1;
        }
        false
    }

    /// [`Self::is_allowed`] as a result that names the refused URL.
    pub fn check(&self, url: &str) -> (r: Result<(), ExecError>)
        ensures
            exec::unit_result(r) == self.admits(url@),
    {
        if self.is_allowed(url) {
            Ok(())
        } else {
            Err(ExecError::HttpDenied { url: url.to_owned() })
        }
    }

    /// Cuts `url` into scheme, authority and path.
    fn split(url: &str) -> (r: Option<(String, String, String)>)
        ensures
            match r {
                Some(parts) => url_parts(url@) == Some((parts.0@, parts.1@, parts.2@)),
                None => url_parts(url@) is None,
            },
    {
        let cs = chars_of(url);
        let n = cs.len();
        let mut at: usize = 0;
        proof {
            lemma_scheme_end(url@);
        }
        while at < n
            invariant_except_break
                cs@ == url@,
                at <= n == cs@.len(),
                forall|k: int| 0 <= k < at ==> !separator_at(url@, k),
            ensures
                at <= cs@.len(),
                forall|k: int| 0 <= k < at ==> !separator_at(url@, k),
                at < cs@.len() ==> separator_at(url@, at as int),
            decreases cs@.len() - at,
        {
            if n - at >= 3 && cs[at] == ':' && cs[at + 1] == '/' && cs[at + 2] == '/' {
                break ;
            }
            at = at + 1;
        }
        if at == n {
            assert(scheme_end(url@) < 0) by {
                if scheme_end(url@) >= 0 {
                    assert(separator_at(url@, scheme_end(url@)));
                }
            }
            return None;
        }
        assert(scheme_end(url@) == at) by {
            assert(separator_at(url@, at as int));
        }
        let from = at + 3;
        let slash = find_from(&cs, from, '/');
        let scheme = text_of(&cs, 0, at);
        let authority = text_of(&cs, from, slash);
        let path = text_of(&cs, slash, cs.len());
        proof {
            let rest = url@.skip(at + 3);
            assert(scheme@ =~= url@.take(at as int));
            assert(authority@ =~= rest.take(slash - from));
            assert(path@ =~= rest.skip(slash - from));
        }
        Some((scheme, authority, path))
    }

    /// Whether `authority` matches `pattern`.
    fn authority_matches(pattern: &str, authority: &str) -> (r: bool)
        ensures
            r == authority_matches(pattern@, authority@),
    {
        if !contains_char(pattern, '*') {
            return same(authority, pattern);
        }
        let ps = chars_of(pattern);
        let us = chars_of(authority);
        let star = find_from(&ps, 0, '*');
        let tail = ps.len() - star - 1;
        let ghost before = pattern@.take(star as int);
        let ghost after = pattern@.skip(star + 1);
        if us.len() < star || us.len() - star < tail {
            assert forall|middle: Text| authority@ != #[trigger] starred(
                before,
                middle,
                after,
            ) by {
                assert(starred(before, middle, after).len() >= star + tail);
            }
            return false;
        }
        let mut i: usize = 0;
        while i < star
            invariant
                i <= star <= us@.len(),
                star < ps@.len(),
                us@ == authority@,
                ps@ == pattern@,
                before == pattern@.take(star as int),
                after == pattern@.skip(star + 1),
                forall|j: int| 0 <= j < i ==> us@[j] == ps@[j],
                star == text::first_of(pattern@, '*'),
                pattern@.contains('*'),
            decreases star - i,
        {
            if us[i] != ps[i] {
                assert forall|middle: Text| authority@ != #[trigger] starred(
                    before,
                    middle,
                    after,
                ) by {
                    assert(starred(before, middle, after)[i as int] == pattern@[i as int]);
                }
                return false;
            }
            i = i + 1;
        }
        let from = us.len() - tail;
        let mut k: usize = 0;
        while k < tail
            invariant
                k <= tail,
                from == us@.len() - tail,
                tail == ps@.len() - star - 1,
                star <= from,
                us@ == authority@,
                ps@ == pattern@,
                us@.len() <= usize::MAX,
                ps@.len() <= usize::MAX,
                before == pattern@.take(star as int),
                after == pattern@.skip(star + 1),
                forall|j: int| 0 <= j < k ==> us@[from + j] == after[j],
                star == text::first_of(pattern@, '*'),
                pattern@.contains('*'),
            decreases tail - k,
        {
            if us[from + k] != ps[star + 1 + k] {
                assert forall|middle: Text| authority@ != #[trigger] starred(
                    before,
                    middle,
                    after,
                ) by {
                    let whole = starred(before, middle, after);
                    assert(whole[whole.len() - tail + k] == after[k as int]);
                }
                return false;
            }
            k = k + 1;
        }
        let ghost matched = authority@.subrange(star as int, from as int);
        assert(authority@ =~= starred(before, matched, after));
        let mut m: usize = star;
        while m < from
            invariant
                star <= m <= from <= us@.len(),
                us@ == authority@,
                matched == authority@.subrange(star as int, from as int),
                before == pattern@.take(star as int),
                after == pattern@.skip(star + 1),
                authority@ == starred(before, matched, after),
                forall|j: int| 0 <= j < m - star ==> !delimits_host(#[trigger] matched[j]),
                star == text::first_of(pattern@, '*'),
                pattern@.contains('*'),
            decreases from - m,
        {
            let c = us[m];
            assert(matched[m - star] == c);
            if c == '/' || c == '?' || c == '#' || c == '@' {
                assert forall|middle: Text|
                    authority@ == #[trigger] starred(before, middle, after) implies !host_only(
                    middle,
                ) by {
                    lemma_one_middle(before, matched, middle, after);
                    assert(delimits_host(matched[m - star]));
                }
                return false;
            }
            m = m + 1;
        }
        assert(host_only(matched));
        true
    }

    /// Whether `url` matches `pattern`.
    fn pattern_matches(pattern: &str, url: &str) -> (r: bool)
        ensures
            r == url_matches(pattern@, url@),
    {
        match (Self::split(pattern), Self::split(url)) {
            (Some((scheme, authority, path)), Some((url_scheme, url_authority, url_path))) => {
                same(scheme.as_str(), url_scheme.as_str()) && Self::authority_matches(
                    authority.as_str(),
                    url_authority.as_str(),
                ) && starts_with(url_path.as_str(), path.as_str())
            },
            _ => false,
        }
    }
}

// ---------------------------------------------------------------------
// Laws
// ---------------------------------------------------------------------

/// A path under a root stays under it only segment by segment: what a
/// root admits is the root itself or a longer path with a slash at the
/// root's end.
pub proof fn law_roots_are_component_aligned(root: Text, path: Text)
    requires
        below(root, path),
        path != root,
        root.len() > 0 && root.last() != '/',
    ensures
        path.len() > root.len(),
        path.take(root.len() as int) == root,
        path[root.len() as int] == '/',
{
    let rooted = with_slash(root);
    assert(path.subrange(0, rooted.len() as int) == rooted);
    assert(path[root.len() as int] == rooted[root.len() as int]);
    assert forall|i: int| 0 <= i < root.len() implies path[i] == root[i] by {
        assert(path.subrange(0, rooted.len() as int)[i] == rooted[i]);
    }
    assert(path.take(root.len() as int) =~= root);
}

/// An empty list of roots admits no path, and an empty allowlist no URL.
pub proof fn law_nothing_declared_admits_nothing(path: Text, url: Text)
    ensures
        !path_allowed(Seq::empty(), path),
        !url_allowed(Seq::empty(), url),
{
}

/// The wildcard never reaches into the path: the authority a URL is
/// matched by holds no slash, and the scheme, authority and path put
/// together again are the URL.
pub proof fn law_the_authority_ends_at_the_first_slash(url: Text)
    ensures
        url_parts(url) matches Some((scheme, authority, path)) ==> {
            &&& !authority.contains('/')
            &&& url == scheme + "://"@ + authority + path
            &&& (path.len() == 0 || path[0] == '/')
        },
{
    lemma_scheme_end(url);
    reveal_strlit("://");
    let at = scheme_end(url);
    if at >= 0 {
        let rest = url.skip(at + 3);
        text::lemma_first_of(rest, '/');
        let slash = text::first_of(rest, '/');
        assert(url.take(at) + "://"@ + rest.take(slash) + rest.skip(slash) =~= url);
    }
}

/// What the wildcard of a pattern stands for in a URL that the pattern
/// admits is text of the URL's host: the URL begins with the scheme and
/// what stands before the `*`, goes on with text that holds no slash,
/// question mark, hash or at sign, and then with what stands behind the
/// `*` in the pattern's authority.
pub proof fn law_the_wildcard_stays_in_the_host(pattern: Text, url: Text)
    requires
        url_matches(pattern, url),
        (url_parts(pattern)->0).1.contains('*'),
    ensures
        ({
            let (scheme, authority, _) = url_parts(pattern)->0;
            let star = text::first_of(authority, '*');
            exists|middle: Text|
                host_only(middle) && (scheme + "://"@ + #[trigger] starred(
                    authority.take(star),
                    middle,
                    authority.skip(star + 1),
                )).is_prefix_of(url)
        }),
{
    law_the_authority_ends_at_the_first_slash(url);
    let (scheme, authority, _) = url_parts(pattern)->0;
    let (_, url_authority, path) = url_parts(url)->0;
    let star = text::first_of(authority, '*');
    let middle = choose|middle: Text|
        host_only(middle) && url_authority == #[trigger] starred(
            authority.take(star),
            middle,
            authority.skip(star + 1),
        );
    let lead = scheme + "://"@ + url_authority;
    assert(url =~= lead + path);
    assert(lead =~= url.subrange(0, lead.len() as int));
    assert(host_only(middle) && (scheme + "://"@ + starred(
        authority.take(star),
        middle,
        authority.skip(star + 1),
    )).is_prefix_of(url));
}

/// Declaring more never takes away: a path or URL a shorter list admits
/// is admitted by any list that holds it all.
pub proof fn law_a_longer_list_admits_more(few: Seq<Text>, many: Seq<Text>, target: Text)
    requires
        forall|entry: Text| few.contains(entry) ==> many.contains(entry),
    ensures
        path_allowed(few, target) ==> path_allowed(many, target),
        url_allowed(few, target) ==> url_allowed(many, target),
{
    if path_allowed(few, target) {
        let i = choose|i: int| 0 <= i < few.len() && below(#[trigger] few[i], target);
        assert(few.contains(few[i]));
        let j = many.index_of(few[i]);
        assert(below(many[j], target));
    }
    if url_allowed(few, target) {
        let i = choose|i: int| 0 <= i < few.len() && url_matches(#[trigger] few[i], target);
        assert(few.contains(few[i]));
        let j = many.index_of(few[i]);
        assert(url_matches(many[j], target));
    }
}

/// Whether a segment of an absolute path is `..`: two dots behind a
/// slash, with another slash or nothing behind them.
pub open spec fn climbs(path: Text, at: int) -> bool {
    &&& 0 <= at && at + 3 <= path.len()
    &&& path[at] == '/' && path[at + 1] == '.' && path[at + 2] == '.'
    &&& at + 3 == path.len() || path[at + 3] == '/'
}

/// A path is refused that does not begin with a slash, or that climbs
/// anywhere, whatever roots are declared.
pub proof fn law_a_path_that_climbs_is_refused(roots: Seq<Text>, path: Text, at: int)
    ensures
        path.len() == 0 || path[0] != '/' ==> !path_allowed(roots, path),
        0 <= at && at + 3 <= path.len() && path[at] == '/' && path[at + 1] == '.' && path[at + 2]
            == '.' && (at + 3 == path.len() || path[at + 3] == '/') ==> !path_allowed(roots, path),
{
    if climbs(path, at) {
        assert(dotdot_at(path, at + 1));
    }
}

/// A declared root admits itself and every path below it, however deep,
/// as long as no segment climbs; dots that are part of a longer name do
/// not. It is enough that one root of the list does.
pub proof fn law_what_lies_below_a_root_is_allowed(roots: Seq<Text>, i: int, tail: Text)
    requires
        0 <= i < roots.len(),
        roots[i].len() > 0,
        roots[i][0] == '/',
    ensures
        ({
            let root = roots[i];
            let path = root + "/"@ + tail;
            &&& (forall|at: int| !climbs(root, at)) ==> path_allowed(roots, root)
            &&& (forall|at: int| !climbs(path, at)) ==> path_allowed(roots, path)
            &&& root.last() == '/' && (forall|at: int| !climbs(root + tail, at)) ==> path_allowed(
                roots,
                root + tail,
            )
        }),
{
    reveal_strlit("/");
    let root = roots[i];
    let path = root + "/"@ + tail;
    lemma_an_absolute_path_climbs_behind_slashes(root);
    assert(below(roots[i], root));
    assert(path[0] == '/');
    lemma_an_absolute_path_climbs_behind_slashes(path);
    assert(with_slash(root).is_prefix_of(path)) by {
        assert(path.subrange(0, with_slash(root).len() as int) =~= with_slash(root));
    }
    assert(below(roots[i], path));
    if root.last() == '/' {
        assert((root + tail)[0] == '/');
        lemma_an_absolute_path_climbs_behind_slashes(root + tail);
        assert((root + tail).subrange(0, root.len() as int) =~= root);
        assert(below(roots[i], root + tail));
    }
}

/// In an absolute path a `..` segment always has a slash before it.
proof fn lemma_an_absolute_path_climbs_behind_slashes(path: Text)
    requires
        path.len() > 0,
        path[0] == '/',
    ensures
        has_dotdot(path) ==> exists|at: int| climbs(path, at),
{
    if has_dotdot(path) {
        let at = choose|at: int| dotdot_at(path, at);
        assert(climbs(path, at - 1));
    }
}

/// A path that is allowed is one of the roots or goes on behind a slash
/// at a root's end: a longer name that only begins like a root is not
/// below it.
pub proof fn law_an_allowed_path_is_below_a_root(roots: Seq<Text>, path: Text)
    requires
        path_allowed(roots, path),
    ensures
        path[0] == '/',
        exists|i: int|
            0 <= i < roots.len() && {
                let root = #[trigger] roots[i];
                ||| path == root
                ||| path.len() > root.len() && path.take(root.len() as int) == root
                    && path[root.len() as int] == '/'
                ||| root.len() > 0 && root.last() == '/' && path.len() >= root.len() && path.take(
                    root.len() as int,
                ) == root
            },
{
    let i = choose|i: int| 0 <= i < roots.len() && below(#[trigger] roots[i], path);
    let root = roots[i];
    if path != root {
        let rooted = with_slash(root);
        assert(path.subrange(0, rooted.len() as int) == rooted);
        assert forall|k: int| 0 <= k < rooted.len() implies path[k] == rooted[k] by {
            assert(path.subrange(0, rooted.len() as int)[k] == rooted[k]);
        }
        assert(path.take(root.len() as int) =~= root);
    }
}

/// A URL put together from a scheme, an authority and a path.
pub open spec fn url_of(scheme: Text, authority: Text, path: Text) -> Text {
    scheme + "://"@ + authority + path
}

/// What the three parts of a URL may hold: a scheme no colon, an authority
/// no slash, and a path begins with a slash if there is one.
pub open spec fn url_shaped(scheme: Text, authority: Text, path: Text) -> bool {
    &&& !scheme.contains(':')
    &&& !authority.contains('/')
    &&& path.len() == 0 || path[0] == '/'
}

/// A URL comes apart into the parts it was put together from.
pub proof fn law_a_url_is_read_as_it_was_written(scheme: Text, authority: Text, path: Text)
    requires
        url_shaped(scheme, authority, path),
    ensures
        url_parts(url_of(scheme, authority, path)) == Some((scheme, authority, path)),
{
    reveal_strlit("://");
    let url = url_of(scheme, authority, path);
    let n = scheme.len() as int;
    assert(separator_at(url, n)) by {
        assert(url[n] == ':' && url[n + 1] == '/' && url[n + 2] == '/');
    }
    lemma_scheme_end(url);
    assert forall|at: int| 0 <= at < n implies !separator_at(url, at) by {
        assert(url[at] == scheme[at]);
        assert(scheme.contains(scheme[at]));
    }
    assert(scheme_end(url) == n);
    let rest = url.skip(n + 3);
    assert(rest =~= authority + path);
    assert forall|j: int| 0 <= j < authority.len() implies rest[j] != '/' by {
        assert(rest[j] == authority[j]);
        assert(authority.contains(authority[j]));
    }
    text::lemma_first_of_is(rest, '/', authority.len() as int);
    assert(url.take(n) =~= scheme);
    assert(rest.take(authority.len() as int) =~= authority);
    assert(rest.skip(authority.len() as int) =~= path);
}

/// A pattern without a wildcard admits exactly the URLs of its own scheme
/// and its own authority, letter for letter, whose path begins with its
/// path: any path where it has none.
pub proof fn law_a_plain_pattern_admits_its_own_authority(
    scheme: Text,
    authority: Text,
    path: Text,
    url_scheme: Text,
    url_authority: Text,
    url_path: Text,
)
    requires
        url_shaped(scheme, authority, path),
        url_shaped(url_scheme, url_authority, url_path),
        !authority.contains('*'),
    ensures
        url_allowed(
            seq![url_of(scheme, authority, path)],
            url_of(url_scheme, url_authority, url_path),
        ) <==> scheme == url_scheme && authority == url_authority && path.len() <= url_path.len()
            && url_path.take(path.len() as int) == path,
{
    law_a_url_is_read_as_it_was_written(scheme, authority, path);
    law_a_url_is_read_as_it_was_written(url_scheme, url_authority, url_path);
    let patterns = seq![url_of(scheme, authority, path)];
    let url = url_of(url_scheme, url_authority, url_path);
    assert(patterns[0] == url_of(scheme, authority, path));
    assert(url_path.take(path.len() as int) =~= url_path.subrange(0, path.len() as int));
    if url_matches(patterns[0], url) {
        assert(url_allowed(patterns, url));
    }
}

/// A pattern whose authority has a wildcard admits exactly the URLs of
/// its scheme whose authority has some text in the wildcard's place that
/// holds no slash, question mark, hash or at sign, and whose path begins
/// with its path.
pub proof fn law_a_wildcard_stands_for_any_host_text(
    scheme: Text,
    before: Text,
    after: Text,
    path: Text,
    middle: Text,
    url_path: Text,
)
    requires
        !before.contains('*'),
        url_shaped(scheme, before + "*"@ + after, path),
        url_shaped(scheme, before + middle + after, url_path),
    ensures
        url_allowed(
            seq![url_of(scheme, before + "*"@ + after, path)],
            url_of(scheme, before + middle + after, url_path),
        ) <==> path.len() <= url_path.len() && url_path.take(path.len() as int) == path && (forall|
            i: int,
        |
            0 <= i < middle.len() ==> #[trigger] middle[i] != '/' && middle[i] != '?' && middle[i]
                != '#' && middle[i] != '@'),
{
    reveal_strlit("*");
    let authority = before + "*"@ + after;
    let url_authority = before + middle + after;
    law_a_url_is_read_as_it_was_written(scheme, authority, path);
    law_a_url_is_read_as_it_was_written(scheme, url_authority, url_path);
    let patterns = seq![url_of(scheme, authority, path)];
    let url = url_of(scheme, url_authority, url_path);
    assert(patterns[0] == url_of(scheme, authority, path));
    let n = before.len() as int;
    assert(authority[n] == '*');
    assert(authority.contains('*'));
    assert forall|j: int| 0 <= j < n implies authority[j] != '*' by {
        assert(authority[j] == before[j]);
        assert(before.contains(before[j]));
    }
    text::lemma_first_of_is(authority, '*', n);
    assert(authority.take(n) =~= before);
    assert(authority.skip(n + 1) =~= after);
    assert(url_path.take(path.len() as int) =~= url_path.subrange(0, path.len() as int));
    if authority_matches(authority, url_authority) {
        let found = choose|found: Text|
            host_only(found) && url_authority == #[trigger] starred(before, found, after);
        lemma_one_middle(before, middle, found, after);
        assert forall|i: int| 0 <= i < middle.len() implies #[trigger] middle[i] != '/' && middle[i]
            != '?' && middle[i] != '#' && middle[i] != '@' by {
            assert(!delimits_host(found[i]));
        }
    }
    if forall|i: int|
        0 <= i < middle.len() ==> #[trigger] middle[i] != '/' && middle[i] != '?' && middle[i]
            != '#' && middle[i] != '@' {
        assert(host_only(middle));
        assert(url_authority == starred(before, middle, after));
        assert(authority_matches(authority, url_authority));
    }
    if url_matches(patterns[0], url) {
        assert(url_allowed(patterns, url));
    }
}

/// A wildcard admits no URL whose authority does not begin and end as the
/// pattern's does, and a pattern admits nothing of another scheme.
pub proof fn law_a_wildcard_keeps_what_stands_around_it(pattern: Text, url: Text)
    requires
        url_matches(pattern, url),
    ensures
        ({
            let (scheme, authority, path) = url_parts(pattern)->0;
            let (url_scheme, url_authority, url_path) = url_parts(url)->0;
            &&& scheme == url_scheme
            &&& path.is_prefix_of(url_path)
            &&& !authority.contains('*') ==> authority == url_authority
            &&& authority.contains('*') ==> {
                let (before, after) = text::split_at_first(authority, '*')->0;
                &&& before.len() + after.len() <= url_authority.len()
                &&& url_authority.take(before.len() as int) == before
                &&& url_authority.skip(url_authority.len() - after.len()) == after
            }
        }),
{
    let (_, authority, _) = url_parts(pattern)->0;
    let (_, url_authority, _) = url_parts(url)->0;
    if authority.contains('*') {
        let star = text::first_of(authority, '*');
        text::lemma_first_of(authority, '*');
        let before = authority.take(star);
        let after = authority.skip(star + 1);
        let middle = choose|middle: Text|
            host_only(middle) && url_authority == #[trigger] starred(before, middle, after);
        assert(url_authority.take(before.len() as int) =~= before);
        assert(url_authority.skip(url_authority.len() - after.len()) =~= after);
    }
}

/// A URL or a pattern without `://` matches nothing.
pub proof fn law_without_a_scheme_nothing_matches(patterns: Seq<Text>, pattern: Text, url: Text)
    ensures
        !text::holds(url, "://"@) ==> !url_allowed(patterns, url),
        !text::holds(pattern, "://"@) ==> !url_allowed(seq![pattern], url),
{
    reveal_strlit("://");
    lemma_scheme_end(url);
    lemma_scheme_end(pattern);
    if scheme_end(url) >= 0 {
        let at = scheme_end(url);
        assert(url.subrange(at, at + 3) =~= "://"@);
        assert(text::stands_at(url, "://"@, at));
    }
    if scheme_end(pattern) >= 0 {
        let at = scheme_end(pattern);
        assert(pattern.subrange(at, at + 3) =~= "://"@);
        assert(text::stands_at(pattern, "://"@, at));
    }
}

} // verus!
