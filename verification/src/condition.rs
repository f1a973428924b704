//! Conditions: what a condition answers, how answers compose, and how a
//! condition is evaluated.
//!
//! A condition is an expression, not a closed list of cases. Evaluating
//! one reads the host, so it can fail; "did not evaluate" and "could not
//! evaluate" are different things and are not folded together. Hence the
//! four-valued [`AssertOutcome`].
//!
//! What a finished file, checkout or service looks like is answered by
//! [`Done`] and its implementors at the end of the file.

use crate::exec::ExecMode;
use crate::text;
use crate::text::{copy_list, join, push_char, same, same_list, signed_number, to_lower, Text};
use vstd::prelude::*;

verus! {

// ---------------------------------------------------------------------
// What a condition answers
// ---------------------------------------------------------------------

/// Why an observation failed.
#[derive(Debug, Clone, Copy, PartialEq, Eq, Structural)]
pub enum CheckErrorCategory {
    /// The host could not be observed.
    Unobservable,
}

/// A failed observation.
#[derive(Debug, PartialEq, Eq)]
pub struct CheckError {
    category: CheckErrorCategory,
    detail: String,
}

/// The model of a [`CheckError`].
pub struct CheckErrorView {
    pub category: CheckErrorCategory,
    pub detail: Text,
}

impl View for CheckError {
    type V = CheckErrorView;

    closed spec fn view(&self) -> CheckErrorView {
        CheckErrorView { category: self.category, detail: self.detail@ }
    }
}

impl CheckError {
    /// A failed observation. The detail is a function of the observation
    /// alone, so that the same host gives the same answer.
    pub fn new(category: CheckErrorCategory, detail: &str) -> (r: Self)
        ensures
            r@ == (CheckErrorView { category, detail: detail@ }),
    {
        CheckError { category, detail: detail.to_owned() }
    }

    /// Why the observation failed.
    pub fn category(&self) -> (r: CheckErrorCategory)
        ensures
            r == self@.category,
    {
        self.category
    }

    /// What the observation ran into.
    pub fn detail(&self) -> (r: &str)
        ensures
            r@ == self@.detail,
    {
        self.detail.as_str()
    }
}

impl Clone for CheckError {
    fn clone(&self) -> (r: Self)
        ensures
            r@ == self@,
    {
        CheckError { category: self.category, detail: self.detail.clone() }
    }
}

/// The answer of a condition.
#[derive(Debug, PartialEq, Eq)]
pub enum AssertOutcome {
    /// The condition holds.
    Satisfied,
    /// The condition does not hold.
    Unsatisfied,
    /// The condition was not evaluated.
    NotChecked,
    /// The condition could not be evaluated.
    CheckFailed(CheckError),
}

/// The model of an [`AssertOutcome`].
pub enum OutcomeView {
    Satisfied,
    Unsatisfied,
    NotChecked,
    CheckFailed(CheckErrorView),
}

impl View for AssertOutcome {
    type V = OutcomeView;

    open spec fn view(&self) -> OutcomeView {
        match self {
            AssertOutcome::Satisfied => OutcomeView::Satisfied,
            AssertOutcome::Unsatisfied => OutcomeView::Unsatisfied,
            AssertOutcome::NotChecked => OutcomeView::NotChecked,
            AssertOutcome::CheckFailed(error) => OutcomeView::CheckFailed(error@),
        }
    }
}

impl Clone for AssertOutcome {
    fn clone(&self) -> (r: Self)
        ensures
            r@ == self@,
    {
        match self {
            AssertOutcome::Satisfied => AssertOutcome::Satisfied,
            AssertOutcome::Unsatisfied => AssertOutcome::Unsatisfied,
            AssertOutcome::NotChecked => AssertOutcome::NotChecked,
            AssertOutcome::CheckFailed(error) => AssertOutcome::CheckFailed(error.clone()),
        }
    }
}

impl OutcomeView {
    /// The answer to the opposite question: a question that was not
    /// answered stays unanswered.
    pub open spec fn negated(self) -> OutcomeView {
        match self {
            OutcomeView::Satisfied => OutcomeView::Unsatisfied,
            OutcomeView::Unsatisfied => OutcomeView::Satisfied,
            OutcomeView::NotChecked => OutcomeView::NotChecked,
            OutcomeView::CheckFailed(error) => OutcomeView::CheckFailed(error),
        }
    }

    /// The word an answer reads as.
    pub open spec fn label(self) -> Text {
        match self {
            OutcomeView::Satisfied => "satisfied"@,
            OutcomeView::Unsatisfied => "unsatisfied"@,
            OutcomeView::NotChecked => "not-checked"@,
            OutcomeView::CheckFailed(error) => "check-failed("@ + category_name(error.category)
                + ": "@ + error.detail + ")"@,
        }
    }
}

/// The name of a failure category.
pub open spec fn category_name(category: CheckErrorCategory) -> Text {
    match category {
        CheckErrorCategory::Unobservable => "Unobservable"@,
    }
}

/// The answer to the opposite question.
pub fn not(outcome: AssertOutcome) -> (r: AssertOutcome)
    ensures
        r@ == outcome@.negated(),
{
    match outcome {
        AssertOutcome::Satisfied => AssertOutcome::Unsatisfied,
        AssertOutcome::Unsatisfied => AssertOutcome::Satisfied,
        AssertOutcome::NotChecked => AssertOutcome::NotChecked,
        AssertOutcome::CheckFailed(error) => AssertOutcome::CheckFailed(error),
    }
}

impl AssertOutcome {
    /// The word the answer reads as.
    pub fn label(&self) -> (r: String)
        ensures
            r@ == self@.label(),
    {
        match self {
            AssertOutcome::Satisfied => "satisfied".to_owned(),
            AssertOutcome::Unsatisfied => "unsatisfied".to_owned(),
            AssertOutcome::NotChecked => "not-checked".to_owned(),
            AssertOutcome::CheckFailed(error) => {
                let mut out = "check-failed(".to_owned();
                match error.category() {
                    CheckErrorCategory::Unobservable => out.append("Unobservable"),
                }
                out.append(": ");
                out.append(error.detail());
                out.append(")");
                out
            },
        }
    }
}

// ---------------------------------------------------------------------
// What a condition asks
// ---------------------------------------------------------------------

/// A list that is never empty.
#[derive(Debug, PartialEq, Eq)]
pub struct NonEmpty<T> {
    /// The first item.
    pub head: Box<T>,
    /// The items after it.
    pub tail: Vec<T>,
}

impl<T> NonEmpty<T> {
    /// The items in order.
    pub open spec fn items(self) -> Seq<T> {
        seq![*self.head] + self.tail@
    }

    /// A list of `head` and what follows it.
    pub fn new(head: T, tail: Vec<T>) -> (r: Self)
        ensures
            r.items() == seq![head] + tail@,
            *r.head == head,
            r.tail@ == tail@,
    {
        NonEmpty { head: Box::new(head), tail }
    }

    /// The first item.
    pub fn head(&self) -> (r: &T)
        ensures
            *r == self.items()[0],
    {
        &self.head
    }

    /// How many items there are.
    pub fn len(&self) -> (r: usize)
        requires
            self.items().len() <= usize::MAX,
        ensures
            r == self.items().len(),
    {
        self.tail.len() + 1
    }

    /// The item at `index`, when there is one.
    pub fn get(&self, index: usize) -> (r: Option<&T>)
        ensures
            match r {
                Some(item) => index < self.items().len() && *item == self.items()[index as int],
                None => index >= self.items().len(),
            },
    {
        if index == 0 {
            Some(&self.head)
        } else if index - 1 < self.tail.len() {
            Some(&self.tail[index - 1])
        } else {
            None
        }
    }

    /// The items in order.
    pub fn iter(&self) -> (r: Vec<&T>)
        ensures
            r@.len() == self.items().len(),
            forall|i: int| 0 <= i < r@.len() ==> *#[trigger] r@[i] == self.items()[i],
    {
        let mut out: Vec<&T> = Vec::new();
        out.push(&*self.head);
        let mut i: usize = 0;
        while i < self.tail.len()
            invariant
                i <= self.tail@.len(),
                out@.len() == i + 1,
                forall|j: int| 0 <= j <= i ==> *#[trigger] out@[j] == self.items()[j],
            decreases self.tail@.len() - i,
        {
            out.push(&self.tail[i]);
            i = i + 1;
        }
        out
    }

    /// `f` of every item.
    pub fn map<U>(&self, f: impl Fn(&T) -> U) -> (r: NonEmpty<U>)
        requires
            forall|i: int|
                0 <= i < self.items().len() ==> call_requires(f, (&#[trigger] self.items()[i],)),
        ensures
            r.items().len() == self.items().len(),
            forall|i: int|
                0 <= i < r.items().len() ==> call_ensures(
                    f,
                    (&self.items()[i],),
                    #[trigger] r.items()[i],
                ),
    {
        assert(self.items()[0] == *self.head);
        let head = f(&self.head);
        let mut tail: Vec<U> = Vec::new();
        let mut i: usize = 0;
        while i < self.tail.len()
            invariant
                i <= self.tail@.len(),
                tail@.len() == i,
                forall|j: int|
                    0 <= j < self.items().len() ==> call_requires(
                        f,
                        (&#[trigger] self.items()[j],),
                    ),
                forall|j: int|
                    0 <= j < i ==> call_ensures(f, (&self.tail@[j],), #[trigger] tail@[j]),
            decreases self.tail@.len() - i,
        {
            assert(self.items()[i + 1] == self.tail@[i as int]);
            tail.push(f(&self.tail[i]));
            i = i + 1;
        }
        let r = NonEmpty { head: Box::new(head), tail };
        assert forall|j: int| 0 <= j < r.items().len() implies call_ensures(
            f,
            (&self.items()[j],),
            #[trigger] r.items()[j],
        ) by {
            if j > 0 {
                assert(self.items()[j] == self.tail@[j - 1]);
                assert(r.items()[j] == r.tail@[j - 1]);
            }
        }
        r
    }
}

/// A condition on the host.
#[derive(Debug, PartialEq, Eq)]
pub enum Assert {
    /// Something is at `path`.
    FileExists { path: String },
    /// The file at `path` has this content digest, in lowercase hex.
    FileDigest { path: String, expected_sha256: String },
    /// The repository in `dir` holds the tree `git_ref` names.
    GitTreeAt { dir: String, git_ref: String },
    /// The process `pid_file` names is running.
    ProcessAlive { pid_file: String },
    /// The process `pid_file` names was started with `argv`.
    ProcessArgv { pid_file: String, argv: Vec<String> },
    /// Every one of these holds.
    All(NonEmpty<Assert>),
}

/// The model of an [`Assert`].
pub enum AssertView {
    FileExists { path: Text },
    FileDigest { path: Text, expected_sha256: Text },
    GitTreeAt { dir: Text, git_ref: Text },
    ProcessAlive { pid_file: Text },
    ProcessArgv { pid_file: Text, argv: Seq<Text> },
    All(Seq<AssertView>),
}

/// The model of a condition.
pub open spec fn assert_view(condition: Assert) -> AssertView
    decreases condition,
{
    match condition {
        Assert::FileExists { path } => AssertView::FileExists { path: path@ },
        Assert::FileDigest { path, expected_sha256 } => AssertView::FileDigest {
            path: path@,
            expected_sha256: expected_sha256@,
        },
        Assert::GitTreeAt { dir, git_ref } => AssertView::GitTreeAt {
            dir: dir@,
            git_ref: git_ref@,
        },
        Assert::ProcessAlive { pid_file } => AssertView::ProcessAlive { pid_file: pid_file@ },
        Assert::ProcessArgv { pid_file, argv } => AssertView::ProcessArgv {
            pid_file: pid_file@,
            argv: text::texts(argv@),
        },
        Assert::All(children) => AssertView::All(
            seq![assert_view(*children.head)] + assert_views(children.tail@),
        ),
    }
}

/// The model of a list of conditions.
pub open spec fn assert_views(conditions: Seq<Assert>) -> Seq<AssertView>
    decreases conditions,
{
    if conditions.len() == 0 {
        Seq::empty()
    } else {
        assert_views(conditions.drop_last()).push(assert_view(conditions.last()))
    }
}

/// The model of a list is the list of the models.
pub proof fn lemma_assert_views(conditions: Seq<Assert>)
    ensures
        assert_views(conditions).len() == conditions.len(),
        forall|i: int|
            0 <= i < conditions.len() ==> #[trigger] assert_views(conditions)[i] == assert_view(
                conditions[i],
            ),
    decreases conditions.len(),
{
    if conditions.len() > 0 {
        lemma_assert_views(conditions.drop_last());
    }
}

impl View for Assert {
    type V = AssertView;

    open spec fn view(&self) -> AssertView {
        assert_view(*self)
    }
}

/// The children of a conjunction, one by one.
proof fn lemma_conjunction(children: NonEmpty<Assert>)
    ensures
        Assert::All(children)@ matches AssertView::All(views) && {
            &&& views.len() == children.items().len()
            &&& forall|i: int|
                0 <= i < views.len() ==> #[trigger] views[i] == children.items()[i]@
        },
{
    lemma_assert_views(children.tail@);
    let views = seq![assert_view(*children.head)] + assert_views(children.tail@);
    assert forall|i: int| 0 <= i < views.len() implies #[trigger] views[i]
        == children.items()[i]@ by {
        if i > 0 {
            assert(views[i] == assert_views(children.tail@)[i - 1]);
        }
    }
}

/// The command a [`Assert::GitTreeAt`] asks for: it reads, it takes no
/// locks, and the ref stands in one place.
pub open spec fn git_command(dir: Text, git_ref: Text) -> Seq<Text> {
    seq![
        "git"@,
        "--no-optional-locks"@,
        "-C"@,
        dir,
        "diff"@,
        "--quiet"@,
        git_ref,
        "HEAD"@,
        "--"@,
    ]
}

/// The command a [`Assert::GitTreeAt`] asks for.
pub fn git_tree_at_argv(dir: &str, git_ref: &str) -> (r: Vec<String>)
    ensures
        text::texts(r@) == git_command(dir@, git_ref@),
{
    let mut argv: Vec<String> = Vec::new();
    argv.push("git".to_owned());
    argv.push("--no-optional-locks".to_owned());
    argv.push("-C".to_owned());
    argv.push(dir.to_owned());
    argv.push("diff".to_owned());
    argv.push("--quiet".to_owned());
    argv.push(git_ref.to_owned());
    argv.push("HEAD".to_owned());
    argv.push("--".to_owned());
    assert(text::texts(argv@) =~= git_command(dir@, git_ref@));
    argv
}

// ---------------------------------------------------------------------
// How answers fold
// ---------------------------------------------------------------------

/// The first failure among `outcomes`.
pub open spec fn first_failure(outcomes: Seq<OutcomeView>) -> Option<CheckErrorView>
    decreases outcomes.len(),
{
    if outcomes.len() == 0 {
        None
    } else {
        match outcomes[0] {
            OutcomeView::CheckFailed(error) => Some(error),
            _ => first_failure(outcomes.drop_first()),
        }
    }
}

/// What a conjunction answers. One unsatisfied child decides it;
/// otherwise the first failure stands; otherwise anything unchecked
/// leaves it unchecked; otherwise it holds.
pub open spec fn folded(outcomes: Seq<OutcomeView>) -> OutcomeView {
    if outcomes.contains(OutcomeView::Unsatisfied) {
        OutcomeView::Unsatisfied
    } else if first_failure(outcomes) is Some {
        OutcomeView::CheckFailed(first_failure(outcomes)->0)
    } else if outcomes.contains(OutcomeView::NotChecked) {
        OutcomeView::NotChecked
    } else {
        OutcomeView::Satisfied
    }
}

/// The models of the answers of a list.
pub open spec fn outcome_views(outcomes: Seq<AssertOutcome>) -> Seq<OutcomeView> {
    Seq::new(outcomes.len(), |i: int| outcomes[i]@)
}

/// The failure found first is the earliest one.
proof fn lemma_first_failure(outcomes: Seq<OutcomeView>, at: int)
    requires
        0 <= at <= outcomes.len(),
        forall|i: int| 0 <= i < at ==> !((#[trigger] outcomes[i]) is CheckFailed),
        at < outcomes.len() ==> outcomes[at] is CheckFailed,
    ensures
        at == outcomes.len() ==> first_failure(outcomes) is None,
        at < outcomes.len() ==> first_failure(outcomes) == Some(outcomes[at]->CheckFailed_0),
    decreases at,
{
    if at > 0 {
        let rest = outcomes.drop_first();
        assert forall|i: int| 0 <= i < at - 1 implies !((#[trigger] rest[i]) is CheckFailed) by {
            assert(rest[i] == outcomes[i + 1]);
        }
        assert(!(outcomes[0] is CheckFailed));
        lemma_first_failure(rest, at - 1);
    }
}

/// Folds the answers of a conjunction's children.
pub fn fold_all(children: &NonEmpty<AssertOutcome>) -> (r: AssertOutcome)
    ensures
        r@ == folded(outcome_views(children.items())),
{
    let items = children.iter();
    let ghost views = outcome_views(children.items());
    let mut saw_unsatisfied = false;
    let mut saw_not_checked = false;
    let mut first: Option<usize> = None;
    let mut i: usize = 0;
    while i < items.len()
        invariant
            i <= items@.len() == views.len(),
            forall|j: int| 0 <= j < items@.len() ==> (*#[trigger] items@[j])@ == views[j],
            saw_unsatisfied <==> views.take(i as int).contains(OutcomeView::Unsatisfied),
            saw_not_checked <==> views.take(i as int).contains(OutcomeView::NotChecked),
            match first {
                Some(at) => {
                    &&& at < i
                    &&& views[at as int] is CheckFailed
                    &&& forall|j: int| 0 <= j < at ==> !((#[trigger] views[j]) is CheckFailed)
                },
                None => forall|j: int| 0 <= j < i ==> !((#[trigger] views[j]) is CheckFailed),
            },
        decreases items@.len() - i,
    {
        let ghost sofar = views.take(i as int);
        let ghost upto = views.take(i + 1);
        proof {
            assert(upto =~= sofar.push(views[i as int]));
            assert(upto[i as int] == views[i as int]);
            assert forall|wanted: OutcomeView| #[trigger] upto.contains(wanted) <==> sofar.contains(
                wanted,
            ) || views[i as int] == wanted by {
                if sofar.contains(wanted) {
                    let j = sofar.index_of(wanted);
                    assert(upto[j] == wanted);
                }
            }
        }
        match items[i] {
            AssertOutcome::Satisfied => {},
            AssertOutcome::Unsatisfied => {
                saw_unsatisfied = true;
            },
            AssertOutcome::NotChecked => {
                saw_not_checked = true;
            },
            AssertOutcome::CheckFailed(_) => {
                if first.is_none() {
                    first = Some(i);
                }
            },
        }
        i = i + 1;
    }
    assert(views.take(i as int) =~= views);
    proof {
        match first {
            Some(at) => lemma_first_failure(views, at as int),
            None => lemma_first_failure(views, views.len() as int),
        }
    }
    if saw_unsatisfied {
        return AssertOutcome::Unsatisfied;
    }
    match first {
        Some(at) => {
            let outcome = items[at].clone();
            outcome
        },
        None => if saw_not_checked {
            AssertOutcome::NotChecked
        } else {
            AssertOutcome::Satisfied
        },
    }
}

// ---------------------------------------------------------------------
// The evaluated tree
// ---------------------------------------------------------------------

/// The identity of one evaluation of one condition.
#[derive(Debug, Clone, Copy, PartialEq, Eq, Hash, Structural)]
pub struct AssertExecutionId(pub u64);

/// Hands out evaluation identities, counting up.
#[derive(Debug)]
pub struct ExecutionIds {
    /// The next identity.
    pub next: u64,
}

/// The number after `n`, starting over behind the last.
pub open spec fn bump(n: u64) -> u64 {
    if n == u64::MAX {
        0
    } else {
        (n + 1) as u64
    }
}

impl ExecutionIds {
    /// Starts counting at one.
    pub fn new() -> (r: Self)
        ensures
            r.next == 1,
    {
        ExecutionIds { next: 1 }
    }

    /// The next identity.
    fn take(&mut self) -> (r: AssertExecutionId)
        ensures
            r.0 == old(self).next,
            final(self).next == bump(old(self).next),
    {
        let id = self.next;
        self.next = if id == u64::MAX {
            0
        } else {
            id + 1
        };
        AssertExecutionId(id)
    }
}

/// An evaluated condition: its answer, and below a conjunction the
/// answers of every child.
#[derive(Debug, PartialEq, Eq)]
pub enum AssertNode {
    /// One predicate.
    Leaf { id: AssertExecutionId, outcome: AssertOutcome },
    /// A conjunction.
    All { id: AssertExecutionId, outcome: AssertOutcome, children: NonEmpty<AssertNode> },
}

/// The model of an [`AssertNode`].
pub enum NodeView {
    Leaf { id: u64, outcome: OutcomeView },
    All { id: u64, outcome: OutcomeView, children: Seq<NodeView> },
}

/// The model of an evaluated condition.
pub open spec fn node_view(node: AssertNode) -> NodeView
    decreases node,
{
    match node {
        AssertNode::Leaf { id, outcome } => NodeView::Leaf { id: id.0, outcome: outcome@ },
        AssertNode::All { id, outcome, children } => NodeView::All {
            id: id.0,
            outcome: outcome@,
            children: seq![node_view(*children.head)] + node_views(children.tail@),
        },
    }
}

/// The model of a list of evaluated conditions.
pub open spec fn node_views(nodes: Seq<AssertNode>) -> Seq<NodeView>
    decreases nodes,
{
    if nodes.len() == 0 {
        Seq::empty()
    } else {
        node_views(nodes.drop_last()).push(node_view(nodes.last()))
    }
}

/// The model of a list is the list of the models.
pub proof fn lemma_node_views(nodes: Seq<AssertNode>)
    ensures
        node_views(nodes).len() == nodes.len(),
        forall|i: int|
            0 <= i < nodes.len() ==> #[trigger] node_views(nodes)[i] == node_view(nodes[i]),
    decreases nodes.len(),
{
    if nodes.len() > 0 {
        lemma_node_views(nodes.drop_last());
    }
}

impl View for AssertNode {
    type V = NodeView;

    open spec fn view(&self) -> NodeView {
        node_view(*self)
    }
}

/// The children of an evaluated conjunction, one by one.
proof fn lemma_evaluated_conjunction(node: AssertNode)
    requires
        node is All,
    ensures
        node@ matches NodeView::All { children, .. } && {
            &&& children.len() == node->children.items().len()
            &&& forall|i: int|
                0 <= i < children.len() ==> #[trigger] children[i]
                    == node->children.items()[i]@
        },
{
    lemma_node_views(node->children.tail@);
    let list = node->children;
    let views = seq![node_view(*list.head)] + node_views(list.tail@);
    assert forall|i: int| 0 <= i < views.len() implies #[trigger] views[i]
        == list.items()[i]@ by {
        if i > 0 {
            assert(views[i] == node_views(list.tail@)[i - 1]);
        }
    }
}

impl NodeView {
    /// The answer of the node.
    pub open spec fn outcome(self) -> OutcomeView {
        match self {
            NodeView::Leaf { outcome, .. } => outcome,
            NodeView::All { outcome, .. } => outcome,
        }
    }

    /// The identity of the node.
    pub open spec fn id(self) -> u64 {
        match self {
            NodeView::Leaf { id, .. } => id,
            NodeView::All { id, .. } => id,
        }
    }
}

/// The answers of a list of evaluated conditions.
pub open spec fn outcomes_of(nodes: Seq<NodeView>) -> Seq<OutcomeView> {
    Seq::new(nodes.len(), |i: int| nodes[i].outcome())
}

impl AssertNode {
    /// The answer of the node.
    pub fn outcome(&self) -> (r: &AssertOutcome)
        ensures
            r@ == self@.outcome(),
    {
        match self {
            AssertNode::Leaf { outcome, .. } => outcome,
            AssertNode::All { outcome, .. } => outcome,
        }
    }

    /// Whether the condition holds.
    pub fn is_satisfied(&self) -> (r: bool)
        ensures
            r == (self@.outcome() is Satisfied),
    {
        matches!(self.outcome(), AssertOutcome::Satisfied)
    }
}

// ---------------------------------------------------------------------
// Observing the host
// ---------------------------------------------------------------------

/// What reading a file's digest gave.
#[derive(Debug, PartialEq, Eq)]
pub enum DigestReading {
    /// There is no file.
    Absent,
    /// The file's digest, in lowercase hex.
    Present(String),
}

/// What reading a process's command line gave.
#[derive(Debug, PartialEq, Eq)]
pub enum ArgvReading {
    /// There is no such process.
    NoProcess,
    /// What the process was started with.
    Argv(Vec<String>),
}

/// The model of a [`DigestReading`].
pub enum DigestView {
    Absent,
    Present(Text),
}

/// The model of an [`ArgvReading`].
pub enum ArgvView {
    NoProcess,
    Argv(Seq<Text>),
}

impl View for DigestReading {
    type V = DigestView;

    open spec fn view(&self) -> DigestView {
        match self {
            DigestReading::Absent => DigestView::Absent,
            DigestReading::Present(hex) => DigestView::Present(hex@),
        }
    }
}

impl View for ArgvReading {
    type V = ArgvView;

    open spec fn view(&self) -> ArgvView {
        match self {
            ArgvReading::NoProcess => ArgvView::NoProcess,
            ArgvReading::Argv(argv) => ArgvView::Argv(text::texts(argv@)),
        }
    }
}

/// The model of an observation that answers yes or no.
pub open spec fn flag_reading(r: Result<bool, CheckError>) -> Result<bool, CheckErrorView> {
    match r {
        Ok(flag) => Ok(flag),
        Err(error) => Err(error@),
    }
}

/// The model of a digest observation.
pub open spec fn digest_reading(r: Result<DigestReading, CheckError>) -> Result<
    DigestView,
    CheckErrorView,
> {
    match r {
        Ok(reading) => Ok(reading@),
        Err(error) => Err(error@),
    }
}

/// The model of a command's exit status.
pub open spec fn status_reading(r: Result<i32, CheckError>) -> Result<i32, CheckErrorView> {
    match r {
        Ok(status) => Ok(status),
        Err(error) => Err(error@),
    }
}

/// The model of a command-line observation.
pub open spec fn argv_reading(r: Result<ArgvReading, CheckError>) -> Result<
    ArgvView,
    CheckErrorView,
> {
    match r {
        Ok(reading) => Ok(reading@),
        Err(error) => Err(error@),
    }
}

/// A host that can be observed.
///
/// The `says_*` relations are what an observer's answers are known by:
/// which answers it may give to a question. A host that changes may give
/// several, and an observer of which nothing is known may give any.
pub trait Observe {
    /// Whether the observer may answer `r` to "is there something at
    /// `path`".
    open spec fn says_exists(&self, path: Text, r: Result<bool, CheckErrorView>) -> bool {
        true
    }

    /// Whether the observer may read `r` as the digest of `path`.
    open spec fn says_digest(&self, path: Text, r: Result<DigestView, CheckErrorView>) -> bool {
        true
    }

    /// Whether the observer may see `argv` end with `r`.
    open spec fn says_status(&self, argv: Seq<Text>, r: Result<i32, CheckErrorView>) -> bool {
        true
    }

    /// Whether the observer may answer `r` to "is the process of
    /// `pid_file` running".
    open spec fn says_alive(&self, pid_file: Text, r: Result<bool, CheckErrorView>) -> bool {
        true
    }

    /// Whether the observer may read `r` as the command line of the
    /// process of `pid_file`.
    open spec fn says_argv(&self, pid_file: Text, r: Result<ArgvView, CheckErrorView>) -> bool {
        true
    }

    /// Whether there is something at `path`.
    fn file_exists(&self, path: &str) -> (r: Result<bool, CheckError>)
        ensures
            self.says_exists(path@, flag_reading(r)),
    ;

    /// The digest of the file at `path`.
    fn file_digest(&self, path: &str) -> (r: Result<DigestReading, CheckError>)
        ensures
            self.says_digest(path@, digest_reading(r)),
    ;

    /// The status `argv` exits with.
    fn command_status(&self, argv: &Vec<String>) -> (r: Result<i32, CheckError>)
        ensures
            self.says_status(text::texts(argv@), status_reading(r)),
    ;

    /// Whether the process `pid_file` names is running.
    fn process_alive(&self, pid_file: &str) -> (r: Result<bool, CheckError>)
        ensures
            self.says_alive(pid_file@, flag_reading(r)),
    ;

    /// What the process `pid_file` names was started with.
    fn process_argv(&self, pid_file: &str) -> (r: Result<ArgvReading, CheckError>)
        ensures
            self.says_argv(pid_file@, argv_reading(r)),
    ;
}

// ---------------------------------------------------------------------
// What one observation means
// ---------------------------------------------------------------------

/// What a yes-or-no observation answers.
pub open spec fn flag_answer(reading: Result<bool, CheckErrorView>) -> OutcomeView {
    match reading {
        Ok(true) => OutcomeView::Satisfied,
        Ok(false) => OutcomeView::Unsatisfied,
        Err(error) => OutcomeView::CheckFailed(error),
    }
}

/// What a digest observation answers: an absent file has no digest to
/// match.
pub open spec fn digest_answer(
    expected: Text,
    reading: Result<DigestView, CheckErrorView>,
) -> OutcomeView {
    match reading {
        Ok(DigestView::Absent) => OutcomeView::Unsatisfied,
        Ok(DigestView::Present(found)) => if found == expected {
            OutcomeView::Satisfied
        } else {
            OutcomeView::Unsatisfied
        },
        Err(error) => OutcomeView::CheckFailed(error),
    }
}

/// What a `git diff --quiet` answers: no difference, a difference, or
/// git's own failure.
pub open spec fn status_answer(reading: Result<i32, CheckErrorView>) -> OutcomeView {
    match reading {
        Ok(code) => if code == 0 {
            OutcomeView::Satisfied
        } else if code == 1 {
            OutcomeView::Unsatisfied
        } else {
            OutcomeView::CheckFailed(
                CheckErrorView {
                    category: CheckErrorCategory::Unobservable,
                    detail: "git exited "@ + text::signed_decimal(code as int),
                },
            )
        },
        Err(error) => OutcomeView::CheckFailed(error),
    }
}

/// What a command-line observation answers: every argument counts.
pub open spec fn argv_answer(
    declared: Seq<Text>,
    reading: Result<ArgvView, CheckErrorView>,
) -> OutcomeView {
    match reading {
        Ok(ArgvView::NoProcess) => OutcomeView::Unsatisfied,
        Ok(ArgvView::Argv(found)) => if found == declared {
            OutcomeView::Satisfied
        } else {
            OutcomeView::Unsatisfied
        },
        Err(error) => OutcomeView::CheckFailed(error),
    }
}

/// What a yes-or-no observation answers.
pub fn flag_outcome(reading: Result<bool, CheckError>) -> (r: AssertOutcome)
    ensures
        r@ == flag_answer(flag_reading(reading)),
{
    match reading {
        Ok(true) => AssertOutcome::Satisfied,
        Ok(false) => AssertOutcome::Unsatisfied,
        Err(error) => AssertOutcome::CheckFailed(error),
    }
}

/// What a digest observation answers.
pub fn digest_outcome(expected: &str, reading: Result<DigestReading, CheckError>) -> (r:
    AssertOutcome)
    ensures
        r@ == digest_answer(expected@, digest_reading(reading)),
{
    match reading {
        Ok(DigestReading::Absent) => AssertOutcome::Unsatisfied,
        Ok(DigestReading::Present(found)) => if same(found.as_str(), expected) {
            AssertOutcome::Satisfied
        } else {
            AssertOutcome::Unsatisfied
        },
        Err(error) => AssertOutcome::CheckFailed(error),
    }
}

/// What a `git diff --quiet` answers.
pub fn status_outcome(reading: Result<i32, CheckError>) -> (r: AssertOutcome)
    ensures
        r@ == status_answer(status_reading(reading)),
{
    match reading {
        Ok(code) => if code == 0 {
            AssertOutcome::Satisfied
        } else if code == 1 {
            AssertOutcome::Unsatisfied
        } else {
            let mut detail = "git exited ".to_owned();
            detail.append(signed_number(code as i64).as_str());
            AssertOutcome::CheckFailed(
                CheckError::new(CheckErrorCategory::Unobservable, detail.as_str()),
            )
        },
        Err(error) => AssertOutcome::CheckFailed(error),
    }
}

/// What a command-line observation answers.
pub fn argv_outcome(declared: &Vec<String>, reading: Result<ArgvReading, CheckError>) -> (r:
    AssertOutcome)
    ensures
        r@ == argv_answer(text::texts(declared@), argv_reading(reading)),
{
    match reading {
        Ok(ArgvReading::NoProcess) => AssertOutcome::Unsatisfied,
        Ok(ArgvReading::Argv(found)) => if same_list(&found, declared) {
            AssertOutcome::Satisfied
        } else {
            AssertOutcome::Unsatisfied
        },
        Err(error) => AssertOutcome::CheckFailed(error),
    }
}

// ---------------------------------------------------------------------
// Evaluation
// ---------------------------------------------------------------------

/// Whether `outcome` may answer "is there something at `path`".
pub open spec fn answers_exists<O: Observe>(obs: O, path: Text, outcome: OutcomeView) -> bool {
    exists|reading: Result<bool, CheckErrorView>| #[trigger]
        obs.says_exists(path, reading) && outcome == flag_answer(reading)
}

/// Whether `outcome` may answer "has the file at `path` this digest".
pub open spec fn answers_digest<O: Observe>(
    obs: O,
    path: Text,
    expected: Text,
    outcome: OutcomeView,
) -> bool {
    exists|reading: Result<DigestView, CheckErrorView>| #[trigger]
        obs.says_digest(path, reading) && outcome == digest_answer(expected, reading)
}

/// Whether `outcome` may answer "does `dir` hold the tree of `git_ref`".
pub open spec fn answers_tree<O: Observe>(
    obs: O,
    dir: Text,
    git_ref: Text,
    outcome: OutcomeView,
) -> bool {
    exists|reading: Result<i32, CheckErrorView>| #[trigger]
        obs.says_status(git_command(dir, git_ref), reading) && outcome == status_answer(reading)
}

/// Whether `outcome` may answer "is the process of `pid_file` running".
pub open spec fn answers_alive<O: Observe>(obs: O, pid_file: Text, outcome: OutcomeView) -> bool {
    exists|reading: Result<bool, CheckErrorView>| #[trigger]
        obs.says_alive(pid_file, reading) && outcome == flag_answer(reading)
}

/// Whether `outcome` may answer "was the process of `pid_file` started
/// with `argv`".
pub open spec fn answers_argv<O: Observe>(
    obs: O,
    pid_file: Text,
    argv: Seq<Text>,
    outcome: OutcomeView,
) -> bool {
    exists|reading: Result<ArgvView, CheckErrorView>| #[trigger]
        obs.says_argv(pid_file, reading) && outcome == argv_answer(argv, reading)
}

/// Whether `node` is what evaluating `condition` against `obs` may give.
///
/// A leaf asks the one thing it is about; only the digest goes unasked
/// in a dry run. A conjunction evaluates every child, in order, and
/// folds their answers: nothing is left out because another child
/// already decided.
pub open spec fn evaluated<O: Observe>(
    obs: O,
    condition: AssertView,
    mode: ExecMode,
    node: NodeView,
) -> bool
    decreases condition,
{
    match condition {
        AssertView::FileExists { path } => {
            &&& node is Leaf
            &&& answers_exists(obs, path, node.outcome())
        },
        AssertView::FileDigest { path, expected_sha256 } => {
            &&& node is Leaf
            &&& match mode {
                ExecMode::DryRun => node.outcome() is NotChecked,
                ExecMode::Real => answers_digest(obs, path, expected_sha256, node.outcome()),
            }
        },
        AssertView::GitTreeAt { dir, git_ref } => {
            &&& node is Leaf
            &&& answers_tree(obs, dir, git_ref, node.outcome())
        },
        AssertView::ProcessAlive { pid_file } => {
            &&& node is Leaf
            &&& answers_alive(obs, pid_file, node.outcome())
        },
        AssertView::ProcessArgv { pid_file, argv } => {
            &&& node is Leaf
            &&& answers_argv(obs, pid_file, argv, node.outcome())
        },
        AssertView::All(children) => {
            &&& node matches NodeView::All { outcome, children: nodes, .. }
            &&& evaluated_list(obs, children, mode, nodes)
            &&& outcome == folded(outcomes_of(nodes))
        },
    }
}

/// Whether `nodes` is what evaluating each of `conditions` may give.
pub open spec fn evaluated_list<O: Observe>(
    obs: O,
    conditions: Seq<AssertView>,
    mode: ExecMode,
    nodes: Seq<NodeView>,
) -> bool
    decreases conditions,
{
    if conditions.len() == 0 {
        nodes.len() == 0
    } else {
        &&& nodes.len() == conditions.len()
        &&& evaluated_list(obs, conditions.drop_last(), mode, nodes.drop_last())
        &&& evaluated(obs, conditions.last(), mode, nodes.last())
    }
}

/// The identity after those of `node`, when its first is `first`.
pub open spec fn ids_after(node: NodeView, first: u64) -> u64
    decreases node,
{
    match node {
        NodeView::Leaf { .. } => bump(first),
        NodeView::All { children, .. } => bump(ids_after_list(children, first)),
    }
}

/// The identity after those of `nodes`, when the first is `first`.
pub open spec fn ids_after_list(nodes: Seq<NodeView>, first: u64) -> u64
    decreases nodes,
{
    if nodes.len() == 0 {
        first
    } else {
        ids_after(nodes.last(), ids_after_list(nodes.drop_last(), first))
    }
}

/// Whether the identities of `node` count up from `first`, children
/// before their conjunction.
pub open spec fn numbered(node: NodeView, first: u64) -> bool
    decreases node,
{
    match node {
        NodeView::Leaf { id, .. } => id == first,
        NodeView::All { id, children, .. } => {
            &&& numbered_list(children, first)
            &&& id == ids_after_list(children, first)
        },
    }
}

/// Whether the identities of `nodes` count up from `first`.
pub open spec fn numbered_list(nodes: Seq<NodeView>, first: u64) -> bool
    decreases nodes,
{
    if nodes.len() == 0 {
        true
    } else {
        &&& numbered_list(nodes.drop_last(), first)
        &&& numbered(nodes.last(), ids_after_list(nodes.drop_last(), first))
    }
}

/// Evaluating a list is evaluating its first and then the rest.
proof fn lemma_evaluated_cons<O: Observe>(
    obs: O,
    condition: AssertView,
    conditions: Seq<AssertView>,
    mode: ExecMode,
    node: NodeView,
    nodes: Seq<NodeView>,
)
    requires
        evaluated(obs, condition, mode, node),
        evaluated_list(obs, conditions, mode, nodes),
    ensures
        evaluated_list(obs, seq![condition] + conditions, mode, seq![node] + nodes),
    decreases conditions.len(),
{
    let all = seq![condition] + conditions;
    let given = seq![node] + nodes;
    if conditions.len() == 0 {
        assert(all.drop_last() =~= Seq::<AssertView>::empty());
        assert(given.drop_last() =~= Seq::<NodeView>::empty());
        assert(all.last() == condition);
        assert(given.last() == node);
        assert(evaluated_list(obs, all.drop_last(), mode, given.drop_last()));
    } else {
        lemma_evaluated_cons(obs, condition, conditions.drop_last(), mode, node, nodes.drop_last());
        assert(all.drop_last() =~= seq![condition] + conditions.drop_last());
        assert(given.drop_last() =~= seq![node] + nodes.drop_last());
        assert(all.last() == conditions.last());
        assert(given.last() == nodes.last());
    }
}

/// Numbering a list is numbering its first and then the rest.
proof fn lemma_numbered_cons(node: NodeView, nodes: Seq<NodeView>, first: u64)
    ensures
        ids_after_list(seq![node] + nodes, first) == ids_after_list(nodes, ids_after(node, first)),
        numbered_list(seq![node] + nodes, first) == (numbered(node, first) && numbered_list(
            nodes,
            ids_after(node, first),
        )),
    decreases nodes.len(),
{
    let given = seq![node] + nodes;
    if nodes.len() == 0 {
        assert(given.drop_last() =~= Seq::<NodeView>::empty());
        assert(given.last() == node);
        assert(ids_after_list(given.drop_last(), first) == first);
        assert(numbered_list(given.drop_last(), first));
    } else {
        lemma_numbered_cons(node, nodes.drop_last(), first);
        assert(given.drop_last() =~= seq![node] + nodes.drop_last());
        assert(given.last() == nodes.last());
    }
}

/// A copy of the answer of `node`.
fn answer_of(node: &AssertNode) -> (r: AssertOutcome)
    ensures
        r@ == node@.outcome(),
{
    node.outcome().clone()
}

/// Evaluates a condition against a host.
///
/// Everything is evaluated: the tree keeps an answer the conjunction
/// above it does not show.
pub fn eval<O: Observe>(
    condition: &Assert,
    mode: ExecMode,
    obs: &O,
    ids: &mut ExecutionIds,
) -> (node: AssertNode)
    ensures
        evaluated(*obs, condition@, mode, node@),
        numbered(node@, old(ids).next),
        final(ids).next == ids_after(node@, old(ids).next),
    decreases condition,
{
    match condition {
        Assert::FileExists { path } => {
            let reading = obs.file_exists(path.as_str());
            assert(obs.says_exists(path@, flag_reading(reading)));
            let outcome = flag_outcome(reading);
            AssertNode::Leaf { id: ids.take(), outcome }
        },
        Assert::FileDigest { path, expected_sha256 } => {
            let outcome = match mode {
                ExecMode::DryRun => AssertOutcome::NotChecked,
                ExecMode::Real => {
                    let reading = obs.file_digest(path.as_str());
                    assert(obs.says_digest(path@, digest_reading(reading)));
                    digest_outcome(expected_sha256.as_str(), reading)
                },
            };
            AssertNode::Leaf { id: ids.take(), outcome }
        },
        Assert::GitTreeAt { dir, git_ref } => {
            let argv = git_tree_at_argv(dir.as_str(), git_ref.as_str());
            let reading = obs.command_status(&argv);
            assert(obs.says_status(git_command(dir@, git_ref@), status_reading(reading)));
            let outcome = status_outcome(reading);
            AssertNode::Leaf { id: ids.take(), outcome }
        },
        Assert::ProcessAlive { pid_file } => {
            let reading = obs.process_alive(pid_file.as_str());
            assert(obs.says_alive(pid_file@, flag_reading(reading)));
            let outcome = flag_outcome(reading);
            AssertNode::Leaf { id: ids.take(), outcome }
        },
        Assert::ProcessArgv { pid_file, argv } => {
            let reading = obs.process_argv(pid_file.as_str());
            assert(obs.says_argv(pid_file@, argv_reading(reading)));
            let outcome = argv_outcome(argv, reading);
            AssertNode::Leaf { id: ids.take(), outcome }
        },
        Assert::All(children) => {
            let ghost first = ids.next;
            let head = eval(&*children.head, mode, obs, ids);
            let tail = eval_list(&children.tail, mode, obs, ids);
            let nodes = NonEmpty::new(head, tail);
            let answers = nodes.map(answer_of);
            let outcome = fold_all(&answers);
            proof {
                let views = seq![node_view(*nodes.head)] + node_views(nodes.tail@);
                lemma_evaluated_cons(
                    *obs,
                    assert_view(*children.head),
                    assert_views(children.tail@),
                    mode,
                    node_view(*nodes.head),
                    node_views(nodes.tail@),
                );
                lemma_numbered_cons(node_view(*nodes.head), node_views(nodes.tail@), first);
                lemma_node_views(nodes.tail@);
                assert forall|j: int| 0 <= j < views.len() implies outcome_views(
                    answers.items(),
                )[j] == outcomes_of(views)[j] by {
                    if j > 0 {
                        assert(views[j] == node_views(nodes.tail@)[j - 1]);
                    }
                    let given = answers.items()[j];
                    assert(given@ == nodes.items()[j]@.outcome());
                }
                assert(outcome_views(answers.items()) =~= outcomes_of(views));
            }
            AssertNode::All { id: ids.take(), outcome, children: nodes }
        },
    }
}

/// Evaluates every one of `conditions`, in order.
fn eval_list<O: Observe>(
    conditions: &Vec<Assert>,
    mode: ExecMode,
    obs: &O,
    ids: &mut ExecutionIds,
) -> (nodes: Vec<AssertNode>)
    ensures
        evaluated_list(*obs, assert_views(conditions@), mode, node_views(nodes@)),
        numbered_list(node_views(nodes@), old(ids).next),
        final(ids).next == ids_after_list(node_views(nodes@), old(ids).next),
    decreases conditions,
{
    let ghost first = ids.next;
    let mut nodes: Vec<AssertNode> = Vec::new();
    let mut i: usize = 0;
    while i < conditions.len()
        invariant
            i <= conditions@.len(),
            nodes@.len() == i,
            evaluated_list(
                *obs,
                assert_views(conditions@.take(i as int)),
                mode,
                node_views(nodes@),
            ),
            numbered_list(node_views(nodes@), first),
            ids.next == ids_after_list(node_views(nodes@), first),
        decreases conditions@.len() - i,
    {
        let ghost were = nodes@;
        let node = eval(&conditions[i], mode, obs, ids);
        nodes.push(node);
        proof {
            let upto = conditions@.take(i + 1);
            assert(upto.drop_last() =~= conditions@.take(i as int));
            assert(nodes@.drop_last() =~= were);
            assert(node_views(nodes@).drop_last() =~= node_views(were));
            assert(assert_views(upto).drop_last() =~= assert_views(upto.drop_last()));
            lemma_node_views(nodes@);
            lemma_assert_views(upto);
        }
        i = i + 1;
    }
    assert(conditions@.take(i as int) =~= conditions@);
    nodes
}

// ---------------------------------------------------------------------
// Describing a condition
// ---------------------------------------------------------------------

/// What a condition reads as before its own answer; `nodes` are the
/// evaluated parts of a conjunction.
pub open spec fn asked_text(condition: AssertView, nodes: Option<Seq<NodeView>>) -> Text
    decreases condition, 0nat,
{
    match condition {
        AssertView::FileExists { path } => "exists("@ + path + ")"@,
        AssertView::FileDigest { path, expected_sha256 } => "sha256("@ + path + ")="@
            + expected_sha256,
        AssertView::GitTreeAt { dir, git_ref } => "git_tree("@ + dir + ")="@ + git_ref,
        AssertView::ProcessAlive { pid_file } => "proc_alive("@ + pid_file + ")"@,
        AssertView::ProcessArgv { pid_file, argv } => "proc_argv("@ + pid_file + ")=["@
            + text::joined(argv, " "@) + "]"@,
        AssertView::All(children) => "all["@ + described_list(children, nodes) + "]"@,
    }
}

/// What a condition reads as, each part with its answer when `node`
/// gives one.
pub open spec fn described(condition: AssertView, node: Option<NodeView>) -> Text
    decreases condition, 1nat,
{
    match node {
        Some(node) => asked_text(condition, child_nodes(Some(node))) + "="@
            + node.outcome().label(),
        None => asked_text(condition, None),
    }
}

/// What a list of conditions reads as, set apart by commas.
pub open spec fn described_list(conditions: Seq<AssertView>, nodes: Option<Seq<NodeView>>) -> Text
    decreases conditions, 0nat,
{
    if conditions.len() == 0 {
        Seq::empty()
    } else if conditions.len() == 1 {
        described(conditions[0], node_at(nodes, 0))
    } else {
        described_list(conditions.drop_last(), nodes) + ", "@ + described(
            conditions.last(),
            node_at(nodes, conditions.len() - 1),
        )
    }
}

/// The evaluated children of an evaluated conjunction.
pub open spec fn child_nodes(node: Option<NodeView>) -> Option<Seq<NodeView>> {
    match node {
        Some(NodeView::All { children, .. }) => Some(children),
        _ => None,
    }
}

/// The evaluated child at `at`, when there is one.
pub open spec fn node_at(nodes: Option<Seq<NodeView>>, at: int) -> Option<NodeView> {
    match nodes {
        Some(nodes) => if 0 <= at < nodes.len() {
            Some(nodes[at])
        } else {
            None
        },
        None => None,
    }
}

/// The model of an optional evaluated condition.
pub open spec fn opt_node(node: Option<&AssertNode>) -> Option<NodeView> {
    match node {
        Some(node) => Some(node@),
        None => None,
    }
}

/// What a condition reads as, without answers.
pub fn describe(condition: &Assert) -> (r: String)
    ensures
        r@ == described(condition@, None),
{
    let mut out = String::new();
    write_assert(condition, None, &mut out);
    assert(out@ =~= described(condition@, None));
    out
}

/// What a condition reads as, with the answer of every part.
pub fn describe_execution(condition: &Assert, node: &AssertNode) -> (r: String)
    ensures
        r@ == described(condition@, Some(node@)),
{
    let mut out = String::new();
    write_assert(condition, Some(node), &mut out);
    assert(out@ =~= described(condition@, Some(node@)));
    out
}

/// Appends what a condition reads as. A part that `node` has no answer
/// for reads without one.
pub fn write_assert(condition: &Assert, node: Option<&AssertNode>, out: &mut String)
    ensures
        final(out)@ == old(out)@ + described(condition@, opt_node(node)),
    decreases condition,
{
    let ghost before = out@;
    match condition {
        Assert::FileExists { path } => {
            out.append("exists(");
            out.append(path.as_str());
            out.append(")");
        },
        Assert::FileDigest { path, expected_sha256 } => {
            out.append("sha256(");
            out.append(path.as_str());
            out.append(")=");
            out.append(expected_sha256.as_str());
        },
        Assert::GitTreeAt { dir, git_ref } => {
            out.append("git_tree(");
            out.append(dir.as_str());
            out.append(")=");
            out.append(git_ref.as_str());
        },
        Assert::ProcessAlive { pid_file } => {
            out.append("proc_alive(");
            out.append(pid_file.as_str());
            out.append(")");
        },
        Assert::ProcessArgv { pid_file, argv } => {
            out.append("proc_argv(");
            out.append(pid_file.as_str());
            out.append(")=[");
            out.append(join(argv, " ").as_str());
            out.append("]");
        },
        Assert::All(children) => {
            let nodes: Option<&NonEmpty<AssertNode>> = match node {
                Some(AssertNode::All { children, .. }) => Some(children),
                _ => None,
            };
            proof {
                if node is Some && node->0 is All {
                    lemma_evaluated_conjunction(*node->0);
                }
            }
            out.append("all[");
            write_list(children, nodes, out);
            out.append("]");
        },
    }
    assert(out@ =~= before + asked_text(condition@, child_nodes(opt_node(node))));
    if let Some(node) = node {
        out.append("=");
        out.append(node.outcome().label().as_str());
        assert(out@ =~= before + described(condition@, Some(node@)));
    }
}

/// The models of the children of an evaluated conjunction.
pub open spec fn opt_nodes(nodes: Option<&NonEmpty<AssertNode>>) -> Option<Seq<NodeView>> {
    match nodes {
        Some(nodes) => Some(seq![node_view(*nodes.head)] + node_views(nodes.tail@)),
        None => None,
    }
}

/// Appends what a list of conditions reads as.
fn write_list(
    conditions: &NonEmpty<Assert>,
    nodes: Option<&NonEmpty<AssertNode>>,
    out: &mut String,
)
    ensures
        final(out)@ == old(out)@ + described_list(
            seq![assert_view(*conditions.head)] + assert_views(conditions.tail@),
            opt_nodes(nodes),
        ),
    decreases conditions,
{
    let ghost before = out@;
    let ghost views = seq![assert_view(*conditions.head)] + assert_views(conditions.tail@);
    let ghost answers = opt_nodes(nodes);
    proof {
        lemma_assert_views(conditions.tail@);
        if nodes is Some {
            lemma_node_views(nodes->0.tail@);
        }
    }
    let first: Option<&AssertNode> = match nodes {
        Some(nodes) => nodes.get(0),
        None => None,
    };
    write_assert(&*conditions.head, first, out);
    let mut i: usize = 0;
    proof {
        assert(views.take(1).len() == 1);
        assert(views.take(1)[0] == assert_view(*conditions.head));
        assert(opt_node(first) == node_at(answers, 0));
    }
    while i < conditions.tail.len()
        invariant
            i <= conditions.tail@.len(),
            views == seq![assert_view(*conditions.head)] + assert_views(conditions.tail@),
            assert_views(conditions.tail@).len() == conditions.tail@.len(),
            forall|j: int|
                0 <= j < conditions.tail@.len() ==> #[trigger] assert_views(conditions.tail@)[j]
                    == assert_view(conditions.tail@[j]),
            answers == opt_nodes(nodes),
            nodes is Some ==> {
                &&& node_views(nodes->0.tail@).len() == nodes->0.tail@.len()
                &&& forall|j: int|
                    0 <= j < nodes->0.tail@.len() ==> #[trigger] node_views(nodes->0.tail@)[j]
                        == node_view(nodes->0.tail@[j])
            },
            out@ == before + described_list(views.take(i + 1), answers),
        decreases conditions.tail@.len() - i,
    {
        let given: Option<&AssertNode> = match nodes {
            Some(nodes) => nodes.get(i + 1),
            None => None,
        };
        out.append(", ");
        write_assert(&conditions.tail[i], given, out);
        proof {
            let upto = views.take(i + 2);
            assert(upto.drop_last() =~= views.take(i + 1));
            assert(upto.last() == assert_view(conditions.tail@[i as int]));
            assert(opt_node(given) == node_at(answers, i + 1)) by {
                if nodes is Some && i + 1 < nodes->0.items().len() {
                    assert(nodes->0.items()[i + 1] == nodes->0.tail@[i as int]);
                    assert(node_views(nodes->0.tail@)[i as int] == node_view(
                        nodes->0.tail@[i as int],
                    ));
                }
            }
            assert(out@ =~= before + described_list(upto, answers));
        }
        i = i + 1;
    }
    assert(views.take(i + 1) =~= views);
}

// ---------------------------------------------------------------------
// What being finished looks like
// ---------------------------------------------------------------------

/// A thing that can say when it is finished.
pub trait Done {
    /// The condition that holds once it is finished.
    spec fn finished(&self) -> AssertView;

    /// The condition that holds once it is finished.
    fn done(&self) -> (r: Assert)
        ensures
            r@ == self.finished(),
    ;
}

/// A conjunction of two conditions.
fn both(first: Assert, second: Assert) -> (r: Assert)
    ensures
        r@ == AssertView::All(seq![first@, second@]),
{
    let mut tail: Vec<Assert> = Vec::new();
    tail.push(second);
    let list = NonEmpty::new(first, tail);
    proof {
        lemma_conjunction(list);
        assert(list.items() =~= seq![first, second]);
        let views = Assert::All(list)@->All_0;
        assert(views[0] == list.items()[0]@);
        assert(views[1] == list.items()[1]@);
        assert(views =~= seq![first@, second@]);
    }
    Assert::All(list)
}

/// A downloaded model file.
#[derive(Debug, PartialEq, Eq)]
pub struct ModelFile {
    /// Where the file lies.
    pub dst: String,
    /// Its declared digest, in lowercase hex.
    pub sha256: Option<String>,
}

impl ModelFile {
    /// The file at `dst`, with the digest the profile declared in any
    /// case.
    pub fn new(dst: &str, sha256: Option<String>) -> (r: Self)
        ensures
            r.dst@ == dst@,
            text::opt_text(r.sha256) == match sha256 {
                Some(hex) => Some(text::lower(hex@)),
                None => None,
            },
    {
        let sha256 = match sha256 {
            Some(hex) => Some(to_lower(hex.as_str())),
            None => None,
        };
        ModelFile { dst: dst.to_owned(), sha256 }
    }
}

/// A finished model file: it exists, and where a digest is declared its
/// content has it.
pub open spec fn finished_file(dst: Text, sha256: Option<Text>) -> AssertView {
    match sha256 {
        None => AssertView::FileExists { path: dst },
        Some(hex) => AssertView::All(
            seq![
                AssertView::FileExists { path: dst },
                AssertView::FileDigest { path: dst, expected_sha256: hex },
            ],
        ),
    }
}

impl Done for ModelFile {
    open spec fn finished(&self) -> AssertView {
        finished_file(self.dst@, text::opt_text(self.sha256))
    }

    fn done(&self) -> (r: Assert) {
        let exists = Assert::FileExists { path: self.dst.clone() };
        match &self.sha256 {
            None => exists,
            Some(hex) => both(
                exists,
                Assert::FileDigest { path: self.dst.clone(), expected_sha256: hex.clone() },
            ),
        }
    }
}

/// A cloned repository, at a ref where one is named.
#[derive(Debug, PartialEq, Eq)]
pub struct Checkout {
    /// The directory of the clone.
    pub dir: String,
    /// The ref it is to hold.
    pub git_ref: Option<String>,
}

impl Checkout {
    /// The repository in `dir`.
    pub fn new(dir: &str, git_ref: Option<String>) -> (r: Self)
        ensures
            r.dir@ == dir@,
            r.git_ref == git_ref,
    {
        Checkout { dir: dir.to_owned(), git_ref }
    }
}

/// The path of `name` in `dir`: one slash between them, and none where
/// there is no directory.
pub open spec fn in_dir(dir: Text, name: Text) -> Text {
    if dir.len() == 0 {
        name
    } else if dir.last() == '/' {
        dir + name
    } else {
        dir.push('/') + name
    }
}

/// The path of `name` in `dir`.
fn path_in(dir: &str, name: &str) -> (r: String)
    ensures
        r@ == in_dir(dir@, name@),
{
    let cs = text::chars_of(dir);
    let mut out = dir.to_owned();
    if cs.len() > 0 && cs[cs.len() - 1] != '/' {
        push_char(&mut out, '/');
    }
    out.append(name);
    proof {
        if dir@.len() == 0 {
            assert(out@ =~= name@);
        }
    }
    out
}

/// A finished checkout: the repository is there, and where a ref is
/// named it holds that ref's tree.
pub open spec fn finished_checkout(dir: Text, git_ref: Option<Text>) -> AssertView {
    let cloned = AssertView::FileExists { path: in_dir(dir, ".git"@) };
    match git_ref {
        None => cloned,
        Some(git_ref) => AssertView::All(seq![cloned, AssertView::GitTreeAt { dir, git_ref }]),
    }
}

impl Done for Checkout {
    open spec fn finished(&self) -> AssertView {
        finished_checkout(self.dir@, text::opt_text(self.git_ref))
    }

    fn done(&self) -> (r: Assert) {
        let cloned = Assert::FileExists { path: path_in(self.dir.as_str(), ".git") };
        match &self.git_ref {
            None => cloned,
            Some(git_ref) => both(
                cloned,
                Assert::GitTreeAt { dir: self.dir.clone(), git_ref: git_ref.clone() },
            ),
        }
    }
}

/// A launched service.
#[derive(Debug, PartialEq, Eq)]
pub struct Service {
    /// The file its launch wrote the process number to.
    pub pid_file: String,
    /// What it is started with.
    pub argv: Vec<String>,
}

impl Service {
    /// The service `pid_file` records, started with `argv`.
    pub fn new(pid_file: &str, argv: Vec<String>) -> (r: Self)
        ensures
            r.pid_file@ == pid_file@,
            r.argv == argv,
    {
        Service { pid_file: pid_file.to_owned(), argv }
    }
}

/// A finished launch: the process is running, and it was started with
/// exactly the declared arguments.
pub open spec fn finished_service(pid_file: Text, argv: Seq<Text>) -> AssertView {
    AssertView::All(
        seq![AssertView::ProcessAlive { pid_file }, AssertView::ProcessArgv { pid_file, argv }],
    )
}

impl Done for Service {
    open spec fn finished(&self) -> AssertView {
        finished_service(self.pid_file@, text::texts(self.argv@))
    }

    fn done(&self) -> (r: Assert) {
        both(
            Assert::ProcessAlive { pid_file: self.pid_file.clone() },
            Assert::ProcessArgv { pid_file: self.pid_file.clone(), argv: copy_list(&self.argv) },
        )
    }
}

// ---------------------------------------------------------------------
// Laws
// ---------------------------------------------------------------------

/// Asking for the opposite twice gives the answer back.
pub proof fn law_not_undoes_itself(outcome: OutcomeView)
    ensures
        outcome.negated().negated() == outcome,
{
}

/// A conjunction holds exactly when every part of it does.
pub proof fn law_all_holds_when_every_part_does(outcomes: Seq<OutcomeView>)
    ensures
        folded(outcomes) is Satisfied <==> forall|i: int|
            0 <= i < outcomes.len() ==> (#[trigger] outcomes[i]) is Satisfied,
{
    lemma_failure_found(outcomes);
    if folded(outcomes) is Satisfied {
        assert forall|i: int| 0 <= i < outcomes.len() implies (
        #[trigger] outcomes[i]) is Satisfied by {
            assert(outcomes.contains(outcomes[i]));
        }
    }
}

/// A failure is found exactly when there is one.
proof fn lemma_failure_found(outcomes: Seq<OutcomeView>)
    ensures
        first_failure(outcomes) is Some <==> exists|i: int|
            0 <= i < outcomes.len() && (#[trigger] outcomes[i]) is CheckFailed,
    decreases outcomes.len(),
{
    if outcomes.len() > 0 {
        let rest = outcomes.drop_first();
        lemma_failure_found(rest);
        if outcomes[0] is CheckFailed {
            assert(first_failure(outcomes) is Some);
        } else {
            assert(first_failure(outcomes) == first_failure(rest));
            if exists|i: int| 0 <= i < outcomes.len() && (#[trigger] outcomes[i]) is CheckFailed {
                let i = choose|i: int|
                    0 <= i < outcomes.len() && (#[trigger] outcomes[i]) is CheckFailed;
                assert(rest[i - 1] is CheckFailed);
            }
            if exists|i: int| 0 <= i < rest.len() && (#[trigger] rest[i]) is CheckFailed {
                let i = choose|i: int| 0 <= i < rest.len() && (#[trigger] rest[i]) is CheckFailed;
                assert(outcomes[i + 1] is CheckFailed);
            }
        }
    }
}

/// One unsatisfied part decides a conjunction, whatever the others are.
pub proof fn law_one_unsatisfied_part_decides(outcomes: Seq<OutcomeView>)
    ensures
        folded(outcomes) is Unsatisfied <==> outcomes.contains(OutcomeView::Unsatisfied),
{
}

/// Whether what a dry run answers stands in a real run too: a decided
/// answer stays as it is, an undecided one may turn out either way.
pub open spec fn foretells(dry: OutcomeView, run: OutcomeView) -> bool {
    &&& dry is Satisfied ==> run is Satisfied
    &&& dry is Unsatisfied ==> run is Unsatisfied
}

/// The opposite question keeps what a dry run foretells.
pub proof fn law_not_keeps_what_a_dry_run_foretells(dry: OutcomeView, run: OutcomeView)
    requires
        foretells(dry, run),
    ensures
        foretells(dry.negated(), run.negated()),
{
}

/// A conjunction keeps what a dry run foretells of its parts.
pub proof fn law_all_keeps_what_a_dry_run_foretells(dry: Seq<OutcomeView>, run: Seq<OutcomeView>)
    requires
        dry.len() == run.len(),
        forall|i: int| 0 <= i < dry.len() ==> foretells(#[trigger] dry[i], run[i]),
    ensures
        foretells(folded(dry), folded(run)),
{
    law_all_holds_when_every_part_does(dry);
    law_all_holds_when_every_part_does(run);
    if folded(dry) is Satisfied {
        assert forall|i: int| 0 <= i < run.len() implies (#[trigger] run[i]) is Satisfied by {
            assert(foretells(dry[i], run[i]));
        }
    }
    if folded(dry) is Unsatisfied {
        let i = dry.index_of(OutcomeView::Unsatisfied);
        assert(foretells(dry[i], run[i]));
        assert(run[i] == OutcomeView::Unsatisfied);
    }
}

/// An observer that gives one answer to each question.
pub open spec fn steady<O: Observe>(obs: O) -> bool {
    &&& forall|path: Text, a: Result<bool, CheckErrorView>, b: Result<bool, CheckErrorView>|
        #[trigger] obs.says_exists(path, a) && #[trigger] obs.says_exists(path, b) ==> a == b
    &&& forall|path: Text, a: Result<DigestView, CheckErrorView>, b: Result<DigestView, CheckErrorView>|
        #[trigger] obs.says_digest(path, a) && #[trigger] obs.says_digest(path, b) ==> a == b
    &&& forall|argv: Seq<Text>, a: Result<i32, CheckErrorView>, b: Result<i32, CheckErrorView>|
        #[trigger] obs.says_status(argv, a) && #[trigger] obs.says_status(argv, b) ==> a == b
    &&& forall|file: Text, a: Result<bool, CheckErrorView>, b: Result<bool, CheckErrorView>|
        #[trigger] obs.says_alive(file, a) && #[trigger] obs.says_alive(file, b) ==> a == b
    &&& forall|file: Text, a: Result<ArgvView, CheckErrorView>, b: Result<ArgvView, CheckErrorView>|
        #[trigger] obs.says_argv(file, a) && #[trigger] obs.says_argv(file, b) ==> a == b
}

/// Whether two evaluated conditions answer alike, part by part; their
/// identities may differ.
pub open spec fn alike(a: NodeView, b: NodeView) -> bool
    decreases a,
{
    &&& a.outcome() == b.outcome()
    &&& match (a, b) {
        (NodeView::Leaf { .. }, NodeView::Leaf { .. }) => true,
        (NodeView::All { children: xs, .. }, NodeView::All { children: ys, .. }) => alike_list(
            xs,
            ys,
        ),
        _ => false,
    }
}

/// Whether two lists of evaluated conditions answer alike.
pub open spec fn alike_list(xs: Seq<NodeView>, ys: Seq<NodeView>) -> bool
    decreases xs,
{
    if xs.len() == 0 {
        ys.len() == 0
    } else {
        &&& xs.len() == ys.len()
        &&& alike_list(xs.drop_last(), ys.drop_last())
        &&& alike(xs.last(), ys.last())
    }
}

/// Lists that answer alike have the same answers.
proof fn lemma_alike_outcomes(xs: Seq<NodeView>, ys: Seq<NodeView>)
    requires
        alike_list(xs, ys),
    ensures
        outcomes_of(xs) == outcomes_of(ys),
    decreases xs.len(),
{
    if xs.len() > 0 {
        lemma_alike_outcomes(xs.drop_last(), ys.drop_last());
        assert forall|i: int| 0 <= i < xs.len() implies xs[i].outcome() == ys[i].outcome() by {
            if i < xs.len() - 1 {
                assert(outcomes_of(xs.drop_last())[i] == xs[i].outcome());
                assert(outcomes_of(ys.drop_last())[i] == ys[i].outcome());
            } else {
                assert(alike(xs.last(), ys.last()));
            }
        }
    }
    assert(outcomes_of(xs) =~= outcomes_of(ys));
}

/// The same condition asked twice of a host that does not change gives
/// the same answer, down to the detail of every part.
pub proof fn law_a_steady_host_answers_alike<O: Observe>(
    obs: O,
    condition: AssertView,
    mode: ExecMode,
    first: NodeView,
    second: NodeView,
)
    requires
        steady(obs),
        evaluated(obs, condition, mode, first),
        evaluated(obs, condition, mode, second),
    ensures
        alike(first, second),
    decreases condition,
{
    if let AssertView::All(children) = condition {
        lemma_steady_list(obs, children, mode, first->children, second->children);
        lemma_alike_outcomes(first->children, second->children);
    }
}

/// [`law_a_steady_host_answers_alike`] for a list.
proof fn lemma_steady_list<O: Observe>(
    obs: O,
    conditions: Seq<AssertView>,
    mode: ExecMode,
    first: Seq<NodeView>,
    second: Seq<NodeView>,
)
    requires
        steady(obs),
        evaluated_list(obs, conditions, mode, first),
        evaluated_list(obs, conditions, mode, second),
    ensures
        alike_list(first, second),
    decreases conditions,
{
    if conditions.len() > 0 {
        lemma_steady_list(obs, conditions.drop_last(), mode, first.drop_last(), second.drop_last());
        law_a_steady_host_answers_alike(
            obs,
            conditions.last(),
            mode,
            first.last(),
            second.last(),
        );
    }
}

/// On a host that does not change, what a dry run decides a real run
/// decides the same way: a condition that a dry run finds satisfied is
/// satisfied in a real run.
pub proof fn law_a_dry_run_foretells_the_real_one<O: Observe>(
    obs: O,
    condition: AssertView,
    dry: NodeView,
    run: NodeView,
)
    requires
        steady(obs),
        evaluated(obs, condition, ExecMode::DryRun, dry),
        evaluated(obs, condition, ExecMode::Real, run),
    ensures
        foretells(dry.outcome(), run.outcome()),
    decreases condition,
{
    if let AssertView::All(children) = condition {
        lemma_foretold_list(obs, children, dry->children, run->children);
        law_all_keeps_what_a_dry_run_foretells(
            outcomes_of(dry->children),
            outcomes_of(run->children),
        );
    }
}

/// [`law_a_dry_run_foretells_the_real_one`] for a list.
proof fn lemma_foretold_list<O: Observe>(
    obs: O,
    conditions: Seq<AssertView>,
    dry: Seq<NodeView>,
    run: Seq<NodeView>,
)
    requires
        steady(obs),
        evaluated_list(obs, conditions, ExecMode::DryRun, dry),
        evaluated_list(obs, conditions, ExecMode::Real, run),
    ensures
        dry.len() == run.len(),
        forall|i: int|
            0 <= i < dry.len() ==> foretells(
                #[trigger] outcomes_of(dry)[i],
                outcomes_of(run)[i],
            ),
    decreases conditions,
{
    if conditions.len() > 0 {
        lemma_foretold_list(obs, conditions.drop_last(), dry.drop_last(), run.drop_last());
        law_a_dry_run_foretells_the_real_one(obs, conditions.last(), dry.last(), run.last());
        assert forall|i: int| 0 <= i < dry.len() implies foretells(
            #[trigger] outcomes_of(dry)[i],
            outcomes_of(run)[i],
        ) by {
            if i < dry.len() - 1 {
                assert(foretells(
                    outcomes_of(dry.drop_last())[i],
                    outcomes_of(run.drop_last())[i],
                ));
            }
        }
    }
}

/// Every part of a conjunction is evaluated, whatever the others
/// answered, and its answer is kept: the tree has a child per part.
pub proof fn law_every_part_is_evaluated<O: Observe>(
    obs: O,
    parts: Seq<AssertView>,
    mode: ExecMode,
    node: NodeView,
    at: int,
)
    requires
        evaluated(obs, AssertView::All(parts), mode, node),
        0 <= at < parts.len(),
    ensures
        node->children.len() == parts.len(),
        evaluated(obs, parts[at], mode, node->children[at]),
{
    lemma_evaluated_part(obs, parts, mode, node->children, at);
}

/// The node of a part is what evaluating that part gives.
proof fn lemma_evaluated_part<O: Observe>(
    obs: O,
    parts: Seq<AssertView>,
    mode: ExecMode,
    nodes: Seq<NodeView>,
    at: int,
)
    requires
        evaluated_list(obs, parts, mode, nodes),
        0 <= at < parts.len(),
    ensures
        nodes.len() == parts.len(),
        evaluated(obs, parts[at], mode, nodes[at]),
    decreases parts.len(),
{
    if at < parts.len() - 1 {
        lemma_evaluated_part(obs, parts.drop_last(), mode, nodes.drop_last(), at);
    }
}

/// A launch never counts as finished unless the process was read as
/// running and its arguments as exactly the declared ones.
pub proof fn law_a_finished_service_runs_as_declared<O: Observe>(
    obs: O,
    pid_file: Text,
    argv: Seq<Text>,
    mode: ExecMode,
    node: NodeView,
)
    requires
        evaluated(obs, finished_service(pid_file, argv), mode, node),
        node.outcome() is Satisfied,
    ensures
        obs.says_alive(pid_file, Ok(true)),
        obs.says_argv(pid_file, Ok(ArgvView::Argv(argv))),
{
    let parts = finished_service(pid_file, argv)->All_0;
    law_every_part_is_evaluated(obs, parts, mode, node, 0);
    law_every_part_is_evaluated(obs, parts, mode, node, 1);
    let answers = outcomes_of(node->children);
    law_all_holds_when_every_part_does(answers);
    assert(answers[0] is Satisfied);
    assert(answers[1] is Satisfied);
}

/// What each of `parts` reads as, with the answer of the node at its
/// place where there is one.
pub open spec fn part_texts(parts: Seq<AssertView>, nodes: Option<Seq<NodeView>>) -> Seq<Text> {
    Seq::new(parts.len(), |i: int| described(parts[i], node_at(nodes, i)))
}

/// A conjunction reads as its parts in order, whatever tree it is read
/// with: a part that the tree has no node for reads without an answer.
/// So every part does where the tree is that of a single question, and
/// so do the last parts where the tree has too few children. The answer
/// of the conjunction itself stands behind them all the same.
pub proof fn law_a_part_without_a_node_reads_without_an_answer(
    parts: Seq<AssertView>,
    node: NodeView,
)
    ensures
        described(AssertView::All(parts), Some(node)) == "all["@ + text::joined(
            part_texts(parts, child_nodes(Some(node))),
            ", "@,
        ) + "]"@ + "="@ + node.outcome().label(),
        described(AssertView::All(parts), None) == "all["@ + text::joined(
            part_texts(parts, None),
            ", "@,
        ) + "]"@,
        forall|i: int|
            0 <= i < parts.len() && (node is Leaf || node->children.len() <= i)
                ==> #[trigger] part_texts(parts, child_nodes(Some(node)))[i] == described(
                parts[i],
                None,
            ),
        forall|i: int|
            0 <= i < parts.len() && node is All && i < node->children.len()
                ==> #[trigger] part_texts(parts, child_nodes(Some(node)))[i] == described(
                parts[i],
                Some(node->children[i]),
            ),
{
    lemma_list_is_joined(parts, child_nodes(Some(node)));
    lemma_list_is_joined(parts, None);
}

/// A list of conditions reads as its parts with commas between.
proof fn lemma_list_is_joined(parts: Seq<AssertView>, nodes: Option<Seq<NodeView>>)
    ensures
        described_list(parts, nodes) == text::joined(part_texts(parts, nodes), ", "@),
    decreases parts.len(),
{
    if parts.len() > 1 {
        lemma_list_is_joined(parts.drop_last(), nodes);
        assert(part_texts(parts, nodes).drop_last() =~= part_texts(parts.drop_last(), nodes));
    }
}

/// Number of nodes in a tree.
pub open spec fn tree_size(node: NodeView) -> nat
    decreases node,
{
    match node {
        NodeView::Leaf { .. } => 1,
        NodeView::All { children, .. } => list_size(children) + 1,
    }
}

/// Number of nodes in a list of trees.
pub open spec fn list_size(nodes: Seq<NodeView>) -> nat
    decreases nodes,
{
    if nodes.len() == 0 {
        0
    } else {
        list_size(nodes.drop_last()) + tree_size(nodes.last())
    }
}

/// The identities in a tree, children before their conjunction.
pub open spec fn tree_ids(node: NodeView) -> Seq<u64>
    decreases node,
{
    match node {
        NodeView::Leaf { id, .. } => seq![id],
        NodeView::All { id, children, .. } => list_ids(children).push(id),
    }
}

/// The identities in a list of trees.
pub open spec fn list_ids(nodes: Seq<NodeView>) -> Seq<u64>
    decreases nodes,
{
    if nodes.len() == 0 {
        Seq::empty()
    } else {
        list_ids(nodes.drop_last()) + tree_ids(nodes.last())
    }
}

/// While the counter does not run over, the identities of one evaluation
/// are consecutive, so no two parts of it share one.
pub proof fn law_identities_are_consecutive(node: NodeView, first: u64)
    requires
        numbered(node, first),
        first + tree_size(node) <= u64::MAX,
    ensures
        tree_ids(node).len() == tree_size(node),
        forall|k: int| 0 <= k < tree_size(node) ==> #[trigger] tree_ids(node)[k] == first + k,
        ids_after(node, first) == first + tree_size(node),
    decreases node,
{
    if let NodeView::All { id, children, .. } = node {
        lemma_list_ids(children, first);
    }
}

/// [`law_identities_are_consecutive`] for a list.
proof fn lemma_list_ids(nodes: Seq<NodeView>, first: u64)
    requires
        numbered_list(nodes, first),
        first + list_size(nodes) <= u64::MAX,
    ensures
        list_ids(nodes).len() == list_size(nodes),
        forall|k: int| 0 <= k < list_size(nodes) ==> #[trigger] list_ids(nodes)[k] == first + k,
        ids_after_list(nodes, first) == first + list_size(nodes),
    decreases nodes,
{
    if nodes.len() > 0 {
        let rest = nodes.drop_last();
        lemma_list_ids(rest, first);
        law_identities_are_consecutive(nodes.last(), ids_after_list(rest, first));
    }
}

/// Asking whether something is at a path answers yes or no as the host
/// does, and fails where the host could not be read: in a dry run as in a
/// real one. It is never left open.
pub proof fn law_a_path_is_answered_as_the_host_says<O: Observe>(
    obs: O,
    path: Text,
    mode: ExecMode,
    node: NodeView,
)
    requires
        evaluated(obs, AssertView::FileExists { path }, mode, node),
    ensures
        node.outcome() is Satisfied ==> obs.says_exists(path, Ok(true)),
        node.outcome() is Unsatisfied ==> obs.says_exists(path, Ok(false)),
        node.outcome() matches OutcomeView::CheckFailed(error) ==> obs.says_exists(
            path,
            Err(error),
        ),
        !(node.outcome() is NotChecked),
{
}

/// A digest is compared in a real run only, letter for letter; a missing
/// file does not have it. In a dry run it is left open.
pub proof fn law_a_digest_is_compared_in_a_real_run<O: Observe>(
    obs: O,
    path: Text,
    expected: Text,
    mode: ExecMode,
    node: NodeView,
)
    requires
        evaluated(obs, AssertView::FileDigest { path, expected_sha256: expected }, mode, node),
    ensures
        mode == ExecMode::DryRun <==> node.outcome() is NotChecked,
        node.outcome() is Satisfied ==> obs.says_digest(path, Ok(DigestView::Present(expected))),
        node.outcome() is Unsatisfied ==> obs.says_digest(path, Ok(DigestView::Absent)) || exists|
            found: Text,
        | found != expected && #[trigger] obs.says_digest(path, Ok(DigestView::Present(found))),
        node.outcome() matches OutcomeView::CheckFailed(error) ==> obs.says_digest(
            path,
            Err(error),
        ),
{
    if mode == ExecMode::Real {
        let reading = choose|reading: Result<DigestView, CheckErrorView>| #[trigger]
            obs.says_digest(path, reading) && node.outcome() == digest_answer(expected, reading);
        if let Ok(DigestView::Present(found)) = reading {
            assert(obs.says_digest(path, Ok(DigestView::Present(found))));
        }
    }
}

/// A checkout is compared by a command that reads and takes no locks:
/// `git diff --quiet` of the ref and `HEAD`. It answers yes with status 0
/// and no with status 1; any other status is a failure that names it.
pub proof fn law_a_tree_is_compared_with_git<O: Observe>(
    obs: O,
    dir: Text,
    git_ref: Text,
    mode: ExecMode,
    node: NodeView,
)
    requires
        evaluated(obs, AssertView::GitTreeAt { dir, git_ref }, mode, node),
    ensures
        ({
            let command = seq![
                "git"@,
                "--no-optional-locks"@,
                "-C"@,
                dir,
                "diff"@,
                "--quiet"@,
                git_ref,
                "HEAD"@,
                "--"@,
            ];
            &&& !(node.outcome() is NotChecked)
            &&& node.outcome() is Satisfied ==> obs.says_status(command, Ok(0))
            &&& node.outcome() is Unsatisfied ==> obs.says_status(command, Ok(1))
            &&& node.outcome() matches OutcomeView::CheckFailed(error) ==> obs.says_status(
                command,
                Err(error),
            ) || exists|code: i32| #[trigger]
                obs.says_status(command, Ok(code)) && code != 0 && code != 1 && error.detail
                    == "git exited "@ + text::signed_decimal(code as int)
        }),
{
    let reading = choose|reading: Result<i32, CheckErrorView>| #[trigger]
        obs.says_status(git_command(dir, git_ref), reading) && node.outcome() == status_answer(
            reading,
        );
    if let Ok(code) = reading {
        assert(obs.says_status(git_command(dir, git_ref), Ok(code)));
    }
}

/// A process is answered for as the host says, and its arguments are
/// compared one by one: a process that is gone was not started so.
pub proof fn law_a_process_is_answered_as_the_host_says<O: Observe>(
    obs: O,
    pid_file: Text,
    argv: Seq<Text>,
    mode: ExecMode,
    alive: NodeView,
    started: NodeView,
)
    requires
        evaluated(obs, AssertView::ProcessAlive { pid_file }, mode, alive),
        evaluated(obs, AssertView::ProcessArgv { pid_file, argv }, mode, started),
    ensures
        alive.outcome() is Satisfied ==> obs.says_alive(pid_file, Ok(true)),
        alive.outcome() is Unsatisfied ==> obs.says_alive(pid_file, Ok(false)),
        alive.outcome() matches OutcomeView::CheckFailed(error) ==> obs.says_alive(
            pid_file,
            Err(error),
        ),
        !(alive.outcome() is NotChecked) && !(started.outcome() is NotChecked),
        started.outcome() is Satisfied ==> obs.says_argv(pid_file, Ok(ArgvView::Argv(argv))),
        started.outcome() is Unsatisfied ==> obs.says_argv(pid_file, Ok(ArgvView::NoProcess))
            || exists|found: Seq<Text>|
            found != argv && #[trigger] obs.says_argv(pid_file, Ok(ArgvView::Argv(found))),
        started.outcome() matches OutcomeView::CheckFailed(error) ==> obs.says_argv(
            pid_file,
            Err(error),
        ),
{
    let reading = choose|reading: Result<ArgvView, CheckErrorView>| #[trigger]
        obs.says_argv(pid_file, reading) && started.outcome() == argv_answer(argv, reading);
    if let Ok(ArgvView::Argv(found)) = reading {
        assert(obs.says_argv(pid_file, Ok(ArgvView::Argv(found))));
    }
}

/// Every question is answered by exactly one of the four answers, given
/// what was read: yes by a satisfied one, no by an unsatisfied one, a
/// failed reading by that failure.
pub proof fn law_a_reading_has_one_answer(
    flag: Result<bool, CheckErrorView>,
    digest: Result<DigestView, CheckErrorView>,
    expected: Text,
    status: Result<i32, CheckErrorView>,
    argv: Result<ArgvView, CheckErrorView>,
    declared: Seq<Text>,
)
    ensures
        flag_answer(flag) is Satisfied <==> flag == Ok::<bool, CheckErrorView>(true),
        flag_answer(flag) is Unsatisfied <==> flag == Ok::<bool, CheckErrorView>(false),
        flag matches Err(error) ==> flag_answer(flag) == OutcomeView::CheckFailed(error),
        digest_answer(expected, digest) is Satisfied <==> (digest matches Ok(DigestView::Present(
            found,
        )) && found == expected),
        digest_answer(expected, digest) is Unsatisfied <==> (digest matches Ok(reading) && reading
            != DigestView::Present(expected)),
        digest matches Err(error) ==> digest_answer(expected, digest) == OutcomeView::CheckFailed(
            error,
        ),
        status_answer(status) is Satisfied <==> status == Ok::<i32, CheckErrorView>(0),
        status_answer(status) is Unsatisfied <==> status == Ok::<i32, CheckErrorView>(1),
        status matches Err(error) ==> status_answer(status) == OutcomeView::CheckFailed(error),
        argv_answer(declared, argv) is Satisfied <==> (argv matches Ok(ArgvView::Argv(found))
            && found == declared),
        argv_answer(declared, argv) is Unsatisfied <==> (argv matches Ok(reading) && reading
            != ArgvView::Argv(declared)),
        argv matches Err(error) ==> argv_answer(declared, argv) == OutcomeView::CheckFailed(error),
{
}

/// A conjunction that no part decides shows the first failure among its
/// parts; without a failure one part that was left open leaves it open.
pub proof fn law_the_first_failure_stands(outcomes: Seq<OutcomeView>, at: int)
    requires
        0 <= at < outcomes.len(),
        forall|i: int|
            0 <= i < outcomes.len() ==> !((#[trigger] outcomes[i]) is Unsatisfied),
    ensures
        outcomes[at] is CheckFailed && (forall|i: int|
            0 <= i < at ==> !((#[trigger] outcomes[i]) is CheckFailed)) ==> folded(outcomes)
            == outcomes[at],
        outcomes[at] is NotChecked && (forall|i: int|
            0 <= i < outcomes.len() ==> !((#[trigger] outcomes[i]) is CheckFailed)) ==> folded(
            outcomes,
        ) is NotChecked,
{
    assert(!outcomes.contains(OutcomeView::Unsatisfied));
    if outcomes[at] is CheckFailed && (forall|i: int|
        0 <= i < at ==> !((#[trigger] outcomes[i]) is CheckFailed)) {
        lemma_first_failure(outcomes, at);
    }
    if outcomes[at] is NotChecked {
        lemma_failure_found(outcomes);
        assert(outcomes.contains(outcomes[at]));
    }
}

/// The opposite question turns yes into no and no into yes, and leaves
/// what is open or failed as it is.
pub proof fn law_the_opposite_turns_only_decided_answers(outcome: OutcomeView)
    ensures
        outcome is Satisfied <==> outcome.negated() is Unsatisfied,
        outcome is Unsatisfied <==> outcome.negated() is Satisfied,
        outcome is NotChecked || outcome is CheckFailed ==> outcome.negated() == outcome,
{
}

/// What an answer reads as.
pub proof fn law_an_answer_reads_as_a_word(outcome: OutcomeView)
    ensures
        outcome is Satisfied ==> outcome.label() == "satisfied"@,
        outcome is Unsatisfied ==> outcome.label() == "unsatisfied"@,
        outcome is NotChecked ==> outcome.label() == "not-checked"@,
        outcome matches OutcomeView::CheckFailed(error) ==> outcome.label() == "check-failed("@
            + "Unobservable"@ + ": "@ + error.detail + ")"@,
{
}

/// A single question reads as what it asks and of what, and behind an
/// equals sign the answer where there is one.
pub proof fn law_a_question_reads_as_what_it_asks(condition: AssertView, node: NodeView)
    ensures
        condition matches AssertView::FileExists { path } ==> described(condition, None)
            == "exists("@ + path + ")"@,
        condition matches AssertView::FileDigest { path, expected_sha256 } ==> described(
            condition,
            None,
        ) == "sha256("@ + path + ")="@ + expected_sha256,
        condition matches AssertView::GitTreeAt { dir, git_ref } ==> described(condition, None)
            == "git_tree("@ + dir + ")="@ + git_ref,
        condition matches AssertView::ProcessAlive { pid_file } ==> described(condition, None)
            == "proc_alive("@ + pid_file + ")"@,
        condition matches AssertView::ProcessArgv { pid_file, argv } ==> described(condition, None)
            == "proc_argv("@ + pid_file + ")=["@ + text::joined(argv, " "@) + "]"@,
        !(condition is All) ==> described(condition, Some(node)) == described(condition, None)
            + "="@ + node.outcome().label(),
{
}

/// A clone counts as finished only where its `.git` was seen and, with a
/// ref, git found no difference to that ref; and it does count as
/// finished where the host can say nothing else.
pub proof fn law_a_finished_checkout_holds_its_ref<O: Observe>(
    obs: O,
    dir: Text,
    git_ref: Option<Text>,
    mode: ExecMode,
    node: NodeView,
)
    requires
        dir.len() > 0 && dir.last() != '/',
        evaluated(obs, finished_checkout(dir, git_ref), mode, node),
    ensures
        ({
            let at = dir + "/.git"@;
            let command = seq![
                "git"@,
                "--no-optional-locks"@,
                "-C"@,
                dir,
                "diff"@,
                "--quiet"@,
                git_ref->0,
                "HEAD"@,
                "--"@,
            ];
            &&& node.outcome() is Satisfied ==> obs.says_exists(at, Ok(true)) && (git_ref is Some
                ==> obs.says_status(command, Ok(0)))
            &&& (forall|r: Result<bool, CheckErrorView>| #[trigger]
                obs.says_exists(at, r) ==> r == Ok::<bool, CheckErrorView>(true)) && (git_ref
                is Some ==> forall|r: Result<i32, CheckErrorView>| #[trigger]
                obs.says_status(command, r) ==> r == Ok::<i32, CheckErrorView>(0))
                ==> node.outcome() is Satisfied
        }),
{
    reveal_strlit(".git");
    reveal_strlit("/.git");
    assert(in_dir(dir, ".git"@) =~= dir + "/.git"@);
    if git_ref is Some {
        let parts = finished_checkout(dir, git_ref)->All_0;
        law_every_part_is_evaluated(obs, parts, mode, node, 0);
        law_every_part_is_evaluated(obs, parts, mode, node, 1);
        let answers = outcomes_of(node->children);
        law_all_holds_when_every_part_does(answers);
        assert(answers.len() == 2);
        assert(answers[0] == node->children[0].outcome());
        assert(answers[1] == node->children[1].outcome());
    }
}

/// A model file counts as finished only where it was seen and, with a
/// digest, read with exactly that digest; a dry run never finds a file
/// with a digest finished, and finds it unfinished where it is missing.
pub proof fn law_a_finished_file_has_its_digest<O: Observe>(
    obs: O,
    dst: Text,
    sha256: Option<Text>,
    mode: ExecMode,
    node: NodeView,
)
    requires
        evaluated(obs, finished_file(dst, sha256), mode, node),
    ensures
        node.outcome() is Satisfied ==> obs.says_exists(dst, Ok(true)) && (sha256 matches Some(hex)
            ==> mode == ExecMode::Real && obs.says_digest(dst, Ok(DigestView::Present(hex)))),
        (forall|r: Result<bool, CheckErrorView>| #[trigger]
            obs.says_exists(dst, r) ==> r == Ok::<bool, CheckErrorView>(true)) && (sha256 is Some
            ==> mode == ExecMode::Real && forall|r: Result<DigestView, CheckErrorView>| #[trigger]
            obs.says_digest(dst, r) ==> r == Ok::<DigestView, CheckErrorView>(
                DigestView::Present(sha256->0),
            )) ==> node.outcome() is Satisfied,
        (forall|r: Result<bool, CheckErrorView>| #[trigger]
            obs.says_exists(dst, r) ==> r == Ok::<bool, CheckErrorView>(false))
            ==> node.outcome() is Unsatisfied,
{
    if sha256 is Some {
        let parts = finished_file(dst, sha256)->All_0;
        law_every_part_is_evaluated(obs, parts, mode, node, 0);
        law_every_part_is_evaluated(obs, parts, mode, node, 1);
        let answers = outcomes_of(node->children);
        law_all_holds_when_every_part_does(answers);
        assert(answers.len() == 2);
        assert(answers[0] == node->children[0].outcome());
        assert(answers[1] == node->children[1].outcome());
        if answers[0] is Unsatisfied {
            assert(answers.contains(answers[0]));
        }
    }
}

/// A single question takes one identity, the next one is one higher, and
/// a conjunction takes its own behind those of its parts.
pub proof fn law_an_identity_is_one_higher(node: NodeView, first: u64)
    requires
        numbered(node, first),
        first < u64::MAX,
    ensures
        node is Leaf ==> node.id() == first && ids_after(node, first) == first + 1,
        node is Leaf ==> ids_after(node, u64::MAX) == 0,
        node matches NodeView::All { id, children, .. } ==> (id < u64::MAX ==> ids_after(node, first)
            == id + 1) && (children.len() == 0 ==> id == first),
{
}

/// A file of a directory lies behind one slash, be one written at the
/// directory's end or not.
pub proof fn law_a_file_lies_in_its_directory(dir: Text, name: Text)
    ensures
        dir.len() > 0 && dir.last() != '/' ==> in_dir(dir, name) == dir + "/"@ + name && in_dir(
            dir + "/"@,
            name,
        ) == dir + "/"@ + name,
        dir.len() == 0 ==> in_dir(dir, name) == name,
{
    reveal_strlit("/");
    if dir.len() > 0 && dir.last() != '/' {
        assert(in_dir(dir, name) =~= dir + "/"@ + name);
        assert((dir + "/"@).last() == '/');
    }
}

} // verus!
