//! The report of an apply run: one entry per step, and the envelope
//! around them.

use crate::json;
use crate::json::{
    array_value, bool_value, new_object, number_value, object_value, put, signed_value,
    text_array_value, text_value, JsonView,
};
use crate::text;
use crate::text::Text;
use vstd::prelude::*;

verus! {

/// Where an entry was declared: the phase's number and the step's number
/// inside it, both counted from one.
pub type DeclaredAt = (usize, usize);

/// The entry of one step that was run, or foretold by a dry run.
///
/// The optional fields stand in the report only where they are set;
/// `reason` and `declared_at` never do.
#[derive(Debug, Clone)]
pub struct StepReport {
    pub id: String,
    pub kind: String,
    pub op: String,
    pub ok: bool,
    /// An exit code, an HTTP status, or `-1` for a failure before the
    /// effect.
    pub status: i64,
    pub dry_run: Option<bool>,
    pub argv: Option<Vec<String>>,
    pub stdout: Option<String>,
    pub stderr: Option<String>,
    pub path: Option<String>,
    pub bytes: Option<u64>,
    pub url: Option<String>,
    pub src: Option<String>,
    pub dst: Option<String>,
    pub note: Option<String>,
    /// Why the step failed, for the envelope's error line.
    pub reason: Option<String>,
    /// Where the entry was declared, for entries pushed as their steps
    /// finish. An entry without it stays where it was pushed.
    pub declared_at: Option<DeclaredAt>,
}

/// The model of a [`StepReport`].
#[verifier::ext_equal]
pub struct ReportView {
    pub id: Text,
    pub kind: Text,
    pub op: Text,
    pub ok: bool,
    pub status: i64,
    pub dry_run: Option<bool>,
    pub argv: Option<Seq<Text>>,
    pub stdout: Option<Text>,
    pub stderr: Option<Text>,
    pub path: Option<Text>,
    pub bytes: Option<u64>,
    pub url: Option<Text>,
    pub src: Option<Text>,
    pub dst: Option<Text>,
    pub note: Option<Text>,
    pub reason: Option<Text>,
    pub declared_at: Option<DeclaredAt>,
}

/// The model of an optional list of texts.
pub open spec fn opt_texts(list: Option<Vec<String>>) -> Option<Seq<Text>> {
    match list {
        Some(list) => Some(text::texts(list@)),
        None => None,
    }
}

impl View for StepReport {
    type V = ReportView;

    open spec fn view(&self) -> ReportView {
        ReportView {
            id: self.id@,
            kind: self.kind@,
            op: self.op@,
            ok: self.ok,
            status: self.status,
            dry_run: self.dry_run,
            argv: opt_texts(self.argv),
            stdout: text::opt_text(self.stdout),
            stderr: text::opt_text(self.stderr),
            path: text::opt_text(self.path),
            bytes: self.bytes,
            url: text::opt_text(self.url),
            src: text::opt_text(self.src),
            dst: text::opt_text(self.dst),
            note: text::opt_text(self.note),
            reason: text::opt_text(self.reason),
            declared_at: self.declared_at,
        }
    }
}

/// The models of a list of entries.
pub open spec fn entries(steps: Seq<StepReport>) -> Seq<ReportView> {
    Seq::new(steps.len(), |i: int| steps[i]@)
}

/// The entry of a step that succeeded, with none of the optional fields.
pub open spec fn succeeded(id: Text, kind: Text, op: Text) -> ReportView {
    ReportView {
        id,
        kind,
        op,
        ok: true,
        status: 0,
        dry_run: None,
        argv: None,
        stdout: None,
        stderr: None,
        path: None,
        bytes: None,
        url: None,
        src: None,
        dst: None,
        note: None,
        reason: None,
        declared_at: None,
    }
}

/// Why a step failed: the reason if it has one, else what it wrote to
/// its error stream; a text that is empty says nothing.
pub open spec fn told_reason(entry: ReportView) -> Text {
    let told = match entry.reason {
        Some(reason) => Some(reason),
        None => entry.stderr,
    };
    match told {
        Some(message) => if message.len() > 0 {
            message
        } else {
            "unknown error"@
        },
        None => "unknown error"@,
    }
}

/// The members of an object, and one more where there is a value for it.
pub open spec fn with(
    members: Map<Text, JsonView>,
    key: Text,
    value: Option<JsonView>,
) -> Map<Text, JsonView> {
    match value {
        Some(value) => members.insert(key, value),
        None => members,
    }
}

/// An optional text as a member.
pub open spec fn text_member(value: Option<Text>) -> Option<JsonView> {
    match value {
        Some(value) => Some(JsonView::Text(value)),
        None => None,
    }
}

/// The members of an entry's object: the five it always has, and each
/// further field that is set.
pub open spec fn entry_members(entry: ReportView) -> Map<Text, JsonView> {
    let base = json::no_members().insert("id"@, JsonView::Text(entry.id)).insert(
        "kind"@,
        JsonView::Text(entry.kind),
    ).insert("op"@, JsonView::Text(entry.op)).insert("ok"@, JsonView::Bool(entry.ok)).insert(
        "status"@,
        JsonView::Integer(entry.status as int),
    );
    let dry = with(
        base,
        "dry_run"@,
        match entry.dry_run {
            Some(flag) => Some(JsonView::Bool(flag)),
            None => None,
        },
    );
    let argv = with(
        dry,
        "argv"@,
        match entry.argv {
            Some(argv) => Some(json::text_array(argv)),
            None => None,
        },
    );
    let stdout = with(argv, "stdout"@, text_member(entry.stdout));
    let stderr = with(stdout, "stderr"@, text_member(entry.stderr));
    let path = with(stderr, "path"@, text_member(entry.path));
    let bytes = with(
        path,
        "bytes"@,
        match entry.bytes {
            Some(bytes) => Some(JsonView::Integer(bytes as int)),
            None => None,
        },
    );
    let url = with(bytes, "url"@, text_member(entry.url));
    let src = with(url, "src"@, text_member(entry.src));
    let dst = with(src, "dst"@, text_member(entry.dst));
    with(dst, "note"@, text_member(entry.note))
}

/// Put a text under a key, where there is one.
fn put_text(
    object: &mut serde_json::Map<String, serde_json::Value>,
    key: &str,
    value: &Option<String>,
)
    ensures
        json::members(*final(object)) == with(
            json::members(*old(object)),
            key@,
            text_member(text::opt_text(*value)),
        ),
{
    if let Some(value) = value {
        put(object, key, text_value(value.as_str()));
    }
}

impl StepReport {
    /// The entry of a step that succeeded.
    pub fn new(id: String, kind: String, op: &str) -> (r: Self)
        ensures
            r@ == succeeded(id@, kind@, op@),
    {
        StepReport {
            id,
            kind,
            op: op.to_owned(),
            ok: true,
            status: 0,
            dry_run: None,
            argv: None,
            stdout: None,
            stderr: None,
            path: None,
            bytes: None,
            url: None,
            src: None,
            dst: None,
            note: None,
            reason: None,
            declared_at: None,
        }
    }

    /// Why the step failed.
    pub fn failure_reason(&self) -> (r: String)
        ensures
            r@ == told_reason(self@),
    {
        let told = match &self.reason {
            Some(reason) => Some(reason),
            None => match &self.stderr {
                Some(stderr) => Some(stderr),
                None => None,
            },
        };
        if let Some(message) = told {
            if message.as_str().unicode_len() > 0 {
                return message.clone();
            }
        }
        "unknown error".to_owned()
    }

    /// The entry as the report shows it.
    pub fn to_json(&self) -> (r: serde_json::Value)
        ensures
            json::held(r) == JsonView::Object(entry_members(self@)),
    {
        let mut object = new_object();
        put(&mut object, "id", text_value(self.id.as_str()));
        put(&mut object, "kind", text_value(self.kind.as_str()));
        put(&mut object, "op", text_value(self.op.as_str()));
        put(&mut object, "ok", bool_value(self.ok));
        put(&mut object, "status", signed_value(self.status));
        if let Some(dry_run) = self.dry_run {
            put(&mut object, "dry_run", bool_value(dry_run));
        }
        if let Some(argv) = &self.argv {
            put(&mut object, "argv", text_array_value(argv));
        }
        put_text(&mut object, "stdout", &self.stdout);
        put_text(&mut object, "stderr", &self.stderr);
        put_text(&mut object, "path", &self.path);
        if let Some(bytes) = self.bytes {
            put(&mut object, "bytes", number_value(bytes));
        }
        put_text(&mut object, "url", &self.url);
        put_text(&mut object, "src", &self.src);
        put_text(&mut object, "dst", &self.dst);
        put_text(&mut object, "note", &self.note);
        object_value(object)
    }
}

// ---------------------------------------------------------------------
// Declaration order
// ---------------------------------------------------------------------

/// Whether one declared position comes before another.
pub open spec fn declared_before(a: DeclaredAt, b: DeclaredAt) -> bool {
    a.0 < b.0 || (a.0 == b.0 && a.1 < b.1)
}

/// Whether an entry carries its declared position.
pub open spec fn is_placed(entry: StepReport) -> bool {
    entry.declared_at is Some
}

/// Whether every entry from `a` to `b` carries its declared position.
pub open spec fn one_run(steps: Seq<StepReport>, a: int, b: int) -> bool {
    forall|f: int| a <= f <= b ==> is_placed(#[trigger] steps[f])
}

/// Whether `source` tells for each place which entry stands there: each
/// entry once, those without a position where they were, and none moved
/// past one of those.
pub open spec fn rearranges(before: Seq<StepReport>, source: Seq<int>) -> bool {
    &&& source.len() == before.len()
    &&& forall|i: int| 0 <= i < source.len() ==> 0 <= #[trigger] source[i] < source.len()
    &&& forall|i: int, j: int|
        0 <= i < j < source.len() ==> #[trigger] source[i] != #[trigger] source[j]
    &&& forall|f: int|
        0 <= f < before.len() && !is_placed(#[trigger] before[f]) ==> source[f] == f
    &&& forall|i: int, f: int|
        0 <= i < source.len() && 0 <= f < before.len() && !is_placed(#[trigger] before[f]) ==> ((
        #[trigger] source[i] < f) == (i < f))
}

/// Whether the entries at `a` and `b`, in that order, are in declaration
/// order; entries declared at one position keep the order they had.
pub open spec fn in_order(steps: Seq<StepReport>, source: Seq<int>, a: int, b: int) -> bool {
    let first = steps[a].declared_at->0;
    let second = steps[b].declared_at->0;
    declared_before(first, second) || (first == second && source[a] < source[b])
}

/// Whether `after` is `before` with each run of entries that carry a
/// position put into declaration order, by way of `source`.
pub open spec fn reordered_by(
    before: Seq<StepReport>,
    after: Seq<StepReport>,
    source: Seq<int>,
) -> bool {
    &&& rearranges(before, source)
    &&& after.len() == before.len()
    &&& forall|i: int| 0 <= i < after.len() ==> #[trigger] after[i] == before[source[i]]
    &&& forall|a: int, b: int|
        #![trigger after[a], after[b]]
        0 <= a < b < after.len() && one_run(before, a, b) ==> in_order(after, source, a, b)
}

/// Whether `after` is `before` with each run of entries that carry a
/// position put into declaration order.
pub open spec fn reordered(before: Seq<StepReport>, after: Seq<StepReport>) -> bool {
    exists|source: Seq<int>| reordered_by(before, after, source)
}

/// The state of the work once the first `done` places are in order.
spec fn partly(
    before: Seq<StepReport>,
    now: Seq<StepReport>,
    source: Seq<int>,
    done: int,
) -> bool {
    &&& rearranges(before, source)
    &&& now.len() == before.len()
    &&& forall|i: int| 0 <= i < now.len() ==> #[trigger] now[i] == before[source[i]]
    &&& forall|i: int| done <= i < now.len() ==> #[trigger] source[i] == i
    &&& forall|a: int, b: int|
        #![trigger now[a], now[b]]
        0 <= a < b < done && one_run(before, a, b) ==> in_order(now, source, a, b)
}

/// Places that are not yet in order hold their own entries, so the ones
/// that are hold each other's.
proof fn lemma_within(before: Seq<StepReport>, now: Seq<StepReport>, source: Seq<int>, done: int)
    requires
        partly(before, now, source, done),
    ensures
        forall|i: int| 0 <= i < done && i < now.len() ==> #[trigger] source[i] < done,
        forall|i: int| 0 <= i < now.len() ==> is_placed(#[trigger] now[i]) == is_placed(before[i]),
{
    assert forall|i: int| 0 <= i < done && i < now.len() implies #[trigger] source[i] < done by {
        if source[i] >= done {
            assert(source[source[i]] == source[i]);
        }
    }
    assert forall|i: int| 0 <= i < now.len() implies is_placed(#[trigger] now[i]) == is_placed(
        before[i],
    ) by {
        let s = source[i];
        if !is_placed(before[s]) {
            assert(source[s] == s);
        }
    }
}

/// Moving the entry at `done` back to `to` takes the work one place
/// further.
proof fn lemma_moved(
    before: Seq<StepReport>,
    now: Seq<StepReport>,
    source: Seq<int>,
    done: int,
    to: int,
)
    requires
        partly(before, now, source, done),
        0 <= to <= done < now.len(),
        is_placed(before[done]),
        one_run(before, to, done),
        forall|k: int|
            to <= k < done ==> declared_before(
                now[done].declared_at->0,
                (#[trigger] now[k]).declared_at->0,
            ),
        to > 0 && is_placed(before[to - 1]) ==> !declared_before(
            now[done].declared_at->0,
            now[to - 1].declared_at->0,
        ),
    ensures
        partly(
            before,
            now.remove(done).insert(to, now[done]),
            source.remove(done).insert(to, source[done]),
            done + 1,
        ),
{
    lemma_within(before, now, source, done);
    let next = now.remove(done).insert(to, now[done]);
    let sources = source.remove(done).insert(to, source[done]);
    assert forall|i: int| 0 <= i < now.len() implies #[trigger] next[i] == (if i < to || i > done {
        now[i]
    } else if i == to {
        now[done]
    } else {
        now[i - 1]
    }) by {}
    assert forall|i: int| 0 <= i < now.len() implies #[trigger] sources[i] == (if i < to || i
        > done {
        source[i]
    } else if i == to {
        done
    } else {
        source[i - 1]
    }) by {}
    assert forall|i: int, f: int|
        0 <= i < sources.len() && 0 <= f < before.len() && !is_placed(
            #[trigger] before[f],
        ) implies ((#[trigger] sources[i] < f) == (i < f)) by {
        if to < i <= done {
            assert((source[i - 1] < f) == (i - 1 < f));
        }
    }
    assert forall|i: int, j: int| 0 <= i < j < sources.len() implies #[trigger] sources[i]
        != #[trigger] sources[j] by {
        let a = if i < to || i > done {
            i
        } else if i == to {
            done
        } else {
            i - 1
        };
        let b = if j < to || j > done {
            j
        } else if j == to {
            done
        } else {
            j - 1
        };
        assert(a != b);
        assert(source[a] != source[b]);
    }
    assert forall|a: int, b: int|
        #![trigger next[a], next[b]]
        0 <= a < b < done + 1 && one_run(before, a, b) implies in_order(next, sources, a, b) by {
        assert(is_placed(before[a]) && is_placed(before[b]));
        if b < to {
            assert(in_order(now, source, a, b));
        } else if b == to {
            let last = to - 1;
            assert(is_placed(before[last]));
            if a < last {
                assert(one_run(before, a, last));
                assert(in_order(now, source, a, last));
            }
            assert(source[a] < done);
        } else if a < to {
            assert(one_run(before, a, b - 1));
            assert(in_order(now, source, a, b - 1));
        } else if a == to {
        } else {
            assert(one_run(before, a - 1, b - 1)) by {
                assert(is_placed(before[a - 1]));
            }
            assert(in_order(now, source, a - 1, b - 1));
        }
    }
}

/// Whether an entry was declared before another. Entries without a
/// position are before none.
fn goes_before(entry: &StepReport, other: &StepReport) -> (r: bool)
    ensures
        r == (is_placed(*entry) && is_placed(*other) && declared_before(
            entry.declared_at->0,
            other.declared_at->0,
        )),
{
    match (entry.declared_at, other.declared_at) {
        (Some(a), Some(b)) => a.0 < b.0 || (a.0 == b.0 && a.1 < b.1),
        _ => false,
    }
}

/// Put the entries that steps pushed as they finished back into
/// declaration order.
///
/// Each longest run of entries that carry a position is sorted, entries
/// declared at one position keeping the order they had. An entry without
/// a position neither moves nor lets another past it.
pub fn in_declaration_order(steps: &mut Vec<StepReport>)
    ensures
        reordered(old(steps)@, final(steps)@),
{
    let ghost before = steps@;
    let ghost mut source: Seq<int> = Seq::new(before.len(), |i: int| i);
    let n = steps.len();
    let mut i: usize = 0;
    while i < n
        invariant
            n == before.len(),
            i <= n,
            partly(before, steps@, source, i as int),
        decreases n - i,
    {
        let mut j = i;
        proof {
            lemma_within(before, steps@, source, i as int);
        }
        while j > 0 && goes_before(&steps[i], &steps[j - 1])
            invariant
                i < n == before.len(),
                j <= i,
                partly(before, steps@, source, i as int),
                forall|k: int|
                    0 <= k < steps@.len() ==> is_placed(#[trigger] steps@[k]) == is_placed(
                        before[k],
                    ),
                j < i ==> one_run(before, j as int, i as int),
                forall|k: int|
                    j <= k < i ==> declared_before(
                        steps@[i as int].declared_at->0,
                        (#[trigger] steps@[k]).declared_at->0,
                    ),
            decreases j,
        {
            assert(is_placed(steps@[j - 1]) && is_placed(steps@[i as int]));
            j = j - 1;
        }
        if j < i {
            proof {
                lemma_moved(before, steps@, source, i as int, j as int);
                source = source.remove(i as int).insert(j as int, source[i as int]);
            }
            let entry = steps.remove(i);
            steps.insert(j, entry);
        } else {
            proof {
                if is_placed(before[i as int]) {
                    lemma_moved(before, steps@, source, i as int, i as int);
                    assert(steps@.remove(i as int).insert(i as int, steps@[i as int]) =~= steps@);
                    assert(source.remove(i as int).insert(i as int, source[i as int]) =~= source);
                } else {
                    assert forall|a: int, b: int|
                        #![trigger steps@[a], steps@[b]]
                        0 <= a < b < i + 1 && one_run(before, a, b) implies in_order(
                        steps@,
                        source,
                        a,
                        b,
                    ) by {
                        assert(is_placed(before[b]));
                    }
                }
            }
        }
        i = i + 1;
    }
    assert(reordered_by(before, steps@, source));
}

/// An entry without a declared position stays where it was pushed.
pub proof fn law_unplaced_entries_stay(before: Seq<StepReport>, after: Seq<StepReport>, f: int)
    requires
        reordered(before, after),
        0 <= f < before.len(),
        !is_placed(before[f]),
    ensures
        after[f] == before[f],
{
    let source = choose|source: Seq<int>| reordered_by(before, after, source);
    assert(source[f] == f);
}

/// Whether a report is in declaration order already.
pub open spec fn sequential(steps: Seq<StepReport>) -> bool {
    forall|a: int, b: int|
        #![trigger steps[a], steps[b]]
        0 <= a < b < steps.len() && one_run(steps, a, b) ==> !declared_before(
            steps[b].declared_at->0,
            steps[a].declared_at->0,
        )
}

/// A list of distinct places, in rising order and none left out, names
/// every place itself.
proof fn lemma_rising(source: Seq<int>, i: int)
    requires
        forall|k: int| 0 <= k < source.len() ==> 0 <= #[trigger] source[k] < source.len(),
        forall|a: int, b: int|
            0 <= a < b < source.len() ==> #[trigger] source[a] < #[trigger] source[b],
        0 <= i < source.len(),
    ensures
        source[i] >= i,
    decreases i,
{
    if i > 0 {
        lemma_rising(source, i - 1);
        assert(source[i - 1] < source[i]);
    }
}

proof fn lemma_rising_from_the_end(source: Seq<int>, i: int)
    requires
        forall|k: int| 0 <= k < source.len() ==> 0 <= #[trigger] source[k] < source.len(),
        forall|a: int, b: int|
            0 <= a < b < source.len() ==> #[trigger] source[a] < #[trigger] source[b],
        0 <= i < source.len(),
    ensures
        source[i] <= i,
    decreases source.len() - i,
{
    if i + 1 < source.len() {
        lemma_rising_from_the_end(source, i + 1);
        assert(source[i] < source[i + 1]);
    }
}

/// A report that is in declaration order already is left as it is.
pub proof fn law_a_sequential_report_is_untouched(
    before: Seq<StepReport>,
    after: Seq<StepReport>,
)
    requires
        reordered(before, after),
        sequential(before),
    ensures
        after == before,
{
    let source = choose|source: Seq<int>| reordered_by(before, after, source);
    assert forall|a: int, b: int| 0 <= a < b < source.len() implies #[trigger] source[a]
        < #[trigger] source[b] by {
        if one_run(before, a, b) {
            assert(in_order(after, source, a, b));
            if source[b] < source[a] {
                assert(one_run(before, source[b], source[a])) by {
                    assert forall|f: int| source[b] <= f <= source[a] implies is_placed(
                        #[trigger] before[f],
                    ) by {
                        if !is_placed(before[f]) {
                            assert((source[a] < f) == (a < f));
                            assert((source[b] < f) == (b < f));
                        }
                    }
                }
                assert(after[a] == before[source[a]]);
                assert(after[b] == before[source[b]]);
            }
        } else {
            let f = choose|f: int| a <= f <= b && !is_placed(#[trigger] before[f]);
            assert((source[a] < f) == (a < f));
            assert((source[b] < f) == (b < f));
            assert(source[f] == f);
        }
    }
    assert forall|i: int| 0 <= i < before.len() implies after[i] == before[i] by {
        lemma_rising(source, i);
        lemma_rising_from_the_end(source, i);
    }
    assert(after =~= before);
}

/// The result is in declaration order.
pub proof fn law_the_result_is_sequential(before: Seq<StepReport>, after: Seq<StepReport>)
    requires
        reordered(before, after),
    ensures
        sequential(after),
{
    let source = choose|source: Seq<int>| reordered_by(before, after, source);
    assert forall|i: int| 0 <= i < after.len() implies is_placed(#[trigger] after[i]) == is_placed(
        before[i],
    ) by {
        let s = source[i];
        if !is_placed(before[s]) {
            assert(source[s] == s);
        }
    }
    assert forall|a: int, b: int|
        #![trigger after[a], after[b]]
        0 <= a < b < after.len() && one_run(after, a, b) implies !declared_before(
        after[b].declared_at->0,
        after[a].declared_at->0,
    ) by {
        assert(one_run(before, a, b)) by {
            assert forall|f: int| a <= f <= b implies is_placed(#[trigger] before[f]) by {
                assert(is_placed(after[f]));
            }
        }
        assert(in_order(after, source, a, b));
    }
}

// ---------------------------------------------------------------------
// The envelope
// ---------------------------------------------------------------------

/// The members of a report's envelope. It is well iff there is no error.
pub open spec fn envelope_members(
    profile_name: Text,
    dry_run: bool,
    steps: Seq<ReportView>,
    error: Option<Text>,
) -> Map<Text, JsonView> {
    with(
        json::no_members().insert("ok"@, JsonView::Bool(error is None)).insert(
            "dry_run"@,
            JsonView::Bool(dry_run),
        ).insert("profile_name"@, JsonView::Text(profile_name)).insert(
            "steps"@,
            JsonView::Array(
                Seq::new(steps.len(), |i: int| JsonView::Object(entry_members(steps[i]))),
            ),
        ),
        "error"@,
        text_member(error),
    )
}

/// The report of a run.
pub fn build_envelope(
    profile_name: &str,
    dry_run: bool,
    steps: &[StepReport],
    error: Option<&str>,
) -> (r: serde_json::Value)
    ensures
        json::held(r) == JsonView::Object(
            envelope_members(profile_name@, dry_run, entries(steps@), text::opt_str(error)),
        ),
{
    let mut values: Vec<serde_json::Value> = Vec::new();
    let mut i: usize = 0;
    while i < steps.len()
        invariant
            i <= steps@.len(),
            values@.len() == i,
            forall|j: int|
                0 <= j < i ==> json::held(#[trigger] values@[j]) == JsonView::Object(
                    entry_members(steps@[j]@),
                ),
        decreases steps@.len() - i,
    {
        values.push(steps[i].to_json());
        i = i + 1;
    }
    proof {
        let all = entries(steps@);
        assert(json::all_held(values@) =~= Seq::new(
            all.len(),
            |j: int| JsonView::Object(entry_members(all[j])),
        ));
    }
    let mut object = new_object();
    put(&mut object, "ok", bool_value(error.is_none()));
    put(&mut object, "dry_run", bool_value(dry_run));
    put(&mut object, "profile_name", text_value(profile_name));
    put(&mut object, "steps", array_value(values));
    if let Some(error) = error {
        put(&mut object, "error", text_value(error));
    }
    object_value(object)
}

// ---------------------------------------------------------------------
// What a report says
// ---------------------------------------------------------------------

/// An entry begins as that of a step that went well: with its names, a
/// status of zero, and nothing else.
pub proof fn law_a_new_entry_says_success(id: Text, kind: Text, op: Text)
    ensures
        ({
            let entry = succeeded(id, kind, op);
            &&& entry.id == id && entry.kind == kind && entry.op == op
            &&& entry.ok == true && entry.status == 0
            &&& entry.dry_run is None && entry.argv is None
            &&& entry.stdout is None && entry.stderr is None
            &&& entry.path is None && entry.bytes is None && entry.url is None
            &&& entry.src is None && entry.dst is None
            &&& entry.note is None && entry.reason is None && entry.declared_at is None
        }),
{
}

/// The reason of a failure is what is told of it; without one, what the
/// step wrote to its error stream; and an empty text is as good as none.
pub proof fn law_a_failure_is_told_by_its_reason(entry: ReportView)
    ensures
        entry.reason matches Some(reason) ==> (reason.len() > 0 ==> told_reason(entry) == reason),
        entry.reason == Some(Seq::<char>::empty()) ==> told_reason(entry) == "unknown error"@,
        entry.reason is None && entry.stderr is Some && (entry.stderr->0).len() > 0 ==> told_reason(
            entry,
        ) == entry.stderr->0,
        entry.reason is None && entry.stderr == Some(Seq::<char>::empty()) ==> told_reason(entry)
            == "unknown error"@,
        entry.reason is None && entry.stderr is None ==> told_reason(entry) == "unknown error"@,
{
}

/// No two names of an entry's fields are the same.
proof fn lemma_fields_differ()
    ensures
        "id"@ != "op"@ && "id"@ != "ok"@ && "op"@ != "ok"@,
        "kind"@ != "argv"@ && "kind"@ != "path"@ && "kind"@ != "note"@,
        "argv"@ != "path"@ && "argv"@ != "note"@ && "path"@ != "note"@,
        "status"@ != "stdout"@ && "status"@ != "stderr"@ && "stdout"@ != "stderr"@,
        "url"@ != "src"@ && "url"@ != "dst"@ && "src"@ != "dst"@,
        "steps"@ != "error"@,
        "id"@.len() == 2 && "op"@.len() == 2 && "ok"@.len() == 2,
        "kind"@.len() == 4 && "argv"@.len() == 4 && "path"@.len() == 4 && "note"@.len() == 4,
        "status"@.len() == 6 && "stdout"@.len() == 6 && "stderr"@.len() == 6,
        "url"@.len() == 3 && "src"@.len() == 3 && "dst"@.len() == 3,
        "dry_run"@.len() == 7 && "bytes"@.len() == 5,
        "profile_name"@.len() == 12 && "steps"@.len() == 5 && "error"@.len() == 5,
{
    reveal_strlit("id");
    reveal_strlit("op");
    reveal_strlit("ok");
    reveal_strlit("kind");
    reveal_strlit("argv");
    reveal_strlit("path");
    reveal_strlit("note");
    reveal_strlit("status");
    reveal_strlit("stdout");
    reveal_strlit("stderr");
    reveal_strlit("url");
    reveal_strlit("src");
    reveal_strlit("dst");
    reveal_strlit("dry_run");
    reveal_strlit("bytes");
    reveal_strlit("profile_name");
    reveal_strlit("steps");
    reveal_strlit("error");
    assert("id"@[0] == 'i' && "op"@[0] == 'o' && "ok"@[0] == 'o' && "op"@[1] == 'p' && "ok"@[1]
        == 'k');
    assert("kind"@[0] == 'k' && "argv"@[0] == 'a' && "path"@[0] == 'p' && "note"@[0] == 'n');
    assert("status"@[2] == 'a' && "stdout"@[2] == 'd' && "stderr"@[2] == 'd');
    assert("stdout"@[3] == 'o' && "stderr"@[3] == 'e');
    assert("url"@[0] == 'u' && "src"@[0] == 's' && "dst"@[0] == 'd');
    assert("steps"@[0] == 's' && "error"@[0] == 'e');
}

/// An entry is shown with its five fields, each under its own name, and
/// with every further field that is set and none that is not. Why it
/// failed and where it was declared are not shown.
pub proof fn law_an_entry_shows_what_is_set(entry: ReportView)
    ensures
        ({
            let shown = entry_members(entry);
            &&& shown.contains_key("id"@) && shown["id"@] == JsonView::Text(entry.id)
            &&& shown.contains_key("kind"@) && shown["kind"@] == JsonView::Text(entry.kind)
            &&& shown.contains_key("op"@) && shown["op"@] == JsonView::Text(entry.op)
            &&& shown.contains_key("ok"@) && shown["ok"@] == JsonView::Bool(entry.ok)
            &&& shown.contains_key("status"@) && shown["status"@] == JsonView::Integer(
                entry.status as int,
            )
            &&& shown.contains_key("dry_run"@) <==> entry.dry_run is Some
            &&& entry.dry_run matches Some(flag) ==> shown["dry_run"@] == JsonView::Bool(flag)
            &&& shown.contains_key("argv"@) <==> entry.argv is Some
            &&& entry.argv matches Some(argv) ==> shown["argv"@] == json::text_array(argv)
            &&& shown.contains_key("stdout"@) <==> entry.stdout is Some
            &&& entry.stdout matches Some(out) ==> shown["stdout"@] == JsonView::Text(out)
            &&& shown.contains_key("stderr"@) <==> entry.stderr is Some
            &&& entry.stderr matches Some(out) ==> shown["stderr"@] == JsonView::Text(out)
            &&& shown.contains_key("path"@) <==> entry.path is Some
            &&& entry.path matches Some(path) ==> shown["path"@] == JsonView::Text(path)
            &&& shown.contains_key("bytes"@) <==> entry.bytes is Some
            &&& entry.bytes matches Some(n) ==> shown["bytes"@] == JsonView::Integer(n as int)
            &&& shown.contains_key("url"@) <==> entry.url is Some
            &&& entry.url matches Some(url) ==> shown["url"@] == JsonView::Text(url)
            &&& shown.contains_key("src"@) <==> entry.src is Some
            &&& entry.src matches Some(src) ==> shown["src"@] == JsonView::Text(src)
            &&& shown.contains_key("dst"@) <==> entry.dst is Some
            &&& entry.dst matches Some(dst) ==> shown["dst"@] == JsonView::Text(dst)
            &&& shown.contains_key("note"@) <==> entry.note is Some
            &&& entry.note matches Some(note) ==> shown["note"@] == JsonView::Text(note)
        }),
{
    lemma_fields_differ();
}

/// What an entry shows does not depend on why it failed or on where it
/// was declared.
pub proof fn law_a_reason_is_not_shown(
    entry: ReportView,
    reason: Option<Text>,
    declared_at: Option<DeclaredAt>,
)
    ensures
        entry_members(ReportView { reason, declared_at, ..entry }) == entry_members(entry),
{
}

/// A report says that a run went well exactly where there is no error,
/// and shows the error where there is one; it names the profile and the
/// mode, and shows every entry, in order.
pub proof fn law_a_report_is_well_without_an_error(
    profile_name: Text,
    dry_run: bool,
    steps: Seq<ReportView>,
    error: Option<Text>,
)
    ensures
        ({
            let shown = envelope_members(profile_name, dry_run, steps, error);
            &&& shown.contains_key("ok"@) && shown["ok"@] == JsonView::Bool(error is None)
            &&& shown.contains_key("dry_run"@) && shown["dry_run"@] == JsonView::Bool(dry_run)
            &&& shown.contains_key("profile_name"@) && shown["profile_name"@] == JsonView::Text(
                profile_name,
            )
            &&& shown.contains_key("error"@) <==> error is Some
            &&& error matches Some(message) ==> shown["error"@] == JsonView::Text(message)
            &&& shown.contains_key("steps"@)
            &&& shown["steps"@] matches JsonView::Array(list) && list.len() == steps.len()
                && forall|i: int|
                0 <= i < steps.len() ==> #[trigger] list[i] == JsonView::Object(
                    entry_members(steps[i]),
                )
        }),
{
    lemma_fields_differ();
}

/// Of two entries with no unplaced one between them, the one of the
/// earlier phase comes first, and within a phase that of the earlier
/// step.
pub proof fn law_entries_follow_the_declaration(
    before: Seq<StepReport>,
    after: Seq<StepReport>,
    a: int,
    b: int,
)
    requires
        reordered(before, after),
        0 <= a < b < after.len(),
        forall|f: int| a <= f <= b ==> (#[trigger] after[f]).declared_at is Some,
    ensures
        ({
            let first = after[a].declared_at->0;
            let second = after[b].declared_at->0;
            first.0 < second.0 || first.0 == second.0 && first.1 <= second.1
        }),
        after.len() == before.len(),
{
    law_the_result_is_sequential(before, after);
    assert(one_run(after, a, b)) by {
        assert forall|f: int| a <= f <= b implies is_placed(#[trigger] after[f]) by {}
    }
    assert(!declared_before(after[b].declared_at->0, after[a].declared_at->0));
}

/// Ordering a report takes from it no entry and adds none: every entry of
/// the result was in the report, and every one of the report is in the
/// result.
pub proof fn law_ordering_loses_no_entry(before: Seq<StepReport>, after: Seq<StepReport>, i: int)
    requires
        reordered(before, after),
        0 <= i < before.len(),
    ensures
        before.contains(after[i]),
        after.contains(before[i]),
{
    let source = choose|source: Seq<int>| reordered_by(before, after, source);
    assert(after[i] == before[source[i]]);
    lemma_every_place_is_a_source(source, i);
    let j = choose|j: int| 0 <= j < source.len() && source[j] == i;
    assert(after[j] == before[source[j]]);
}

/// Places that are all different and as many as there are, are all there
/// are.
proof fn lemma_every_place_is_a_source(source: Seq<int>, i: int)
    requires
        forall|k: int| 0 <= k < source.len() ==> 0 <= #[trigger] source[k] < source.len(),
        forall|a: int, b: int|
            0 <= a < b < source.len() ==> #[trigger] source[a] != #[trigger] source[b],
        0 <= i < source.len(),
    ensures
        exists|j: int| 0 <= j < source.len() && #[trigger] source[j] == i,
{
    let n = source.len();
    assert(source.no_duplicates());
    source.unique_seq_to_set();
    let all = vstd::set_lib::set_int_range(0, n as int);
    vstd::set_lib::lemma_int_range(0, n as int);
    let held = source.to_set();
    assert(held.subset_of(all)) by {
        assert forall|x: int| held.contains(x) implies all.contains(x) by {
            let k = source.index_of(x);
            assert(source[k] == x);
        }
    }
    vstd::set_lib::lemma_subset_equality(held, all);
    assert(held.contains(i));
    let j = source.index_of(i);
    assert(source[j] == i);
}

} // verus!
