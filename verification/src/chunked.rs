//! Downloads by ranges: a file cut into pieces, each fetched by a
//! request of its own.
//!
//! Every range is asked of the URL the profile named, and never of a
//! location that another range was redirected to: a supplier may sign
//! such a location for one range only. The host makes the requests; here
//! stands which ranges there are, which may run at once, when a range is
//! tried again, and what the bytes that arrive add up to.

use crate::exec::{ErrorView, ExecError};
use crate::scheme;
use crate::text;
use crate::text::{chars_of, number, parse_number, text_of, trim, Text};
use vstd::prelude::*;

verus! {

/// Bytes asked for by one range.
pub const CHUNK_SIZE: u64 = 10485760;

/// Ranges fetched at once.
pub const CONCURRENCY: usize = 16;

/// The least size of a file that is fetched by ranges: two of them.
pub const MIN_TOTAL: u64 = 20971520;

/// How often a range is tried.
pub const MAX_ATTEMPTS: u32 = 5;

/// How long the second try waits, in milliseconds; each further one waits
/// twice as long as the one before.
pub const BASE_BACKOFF_MS: u64 = 300;

/// How long a try waits at most, in milliseconds.
pub const MAX_BACKOFF_MS: u64 = 10000;

// ---------------------------------------------------------------------
// The size of the file
// ---------------------------------------------------------------------

/// What stands after the last slash; everything, where there is none.
pub open spec fn after_slash(s: Text) -> Text
    decreases s.len(),
{
    if s.len() == 0 || s.last() == '/' {
        Seq::empty()
    } else {
        after_slash(s.drop_last()).push(s.last())
    }
}

/// What stands after the last slash is the end of the text.
proof fn lemma_after_slash(s: Text, from: int)
    requires
        0 <= from <= s.len(),
        from == 0 || s[from - 1] == '/',
        forall|k: int| from <= k < s.len() ==> s[k] != '/',
    ensures
        after_slash(s) == s.skip(from),
    decreases s.len(),
{
    if from < s.len() {
        lemma_after_slash(s.drop_last(), from);
        assert(s.skip(from) =~= s.drop_last().skip(from).push(s.last()));
    } else {
        assert(s.skip(from) =~= Seq::<char>::empty());
    }
}

/// The full size that a `Content-Range` header tells.
pub open spec fn declared_total(header: Text) -> Option<nat> {
    text::read_number(text::trimmed(after_slash(header)), u64::MAX as nat)
}

/// The full size that a `Content-Range` header tells; none where it is
/// not known.
pub fn total_of(header: &str) -> (r: Option<u64>)
    ensures
        match r {
            Some(total) => declared_total(header@) == Some(total as nat),
            None => declared_total(header@) is None,
        },
{
    let cs = chars_of(header);
    let n = cs.len();
    let mut from = n;
    while from > 0 && cs[from - 1] != '/'
        invariant
            from <= n == cs@.len(),
            forall|k: int| from <= k < n ==> cs@[k] != '/',
        decreases from,
    {
        from = from - 1;
    }
    let rest = text_of(&cs, from, n);
    proof {
        lemma_after_slash(header@, from as int);
        assert(rest@ =~= header@.skip(from as int));
    }
    parse_number(trim(rest.as_str()).as_str(), u64::MAX)
}

// ---------------------------------------------------------------------
// The ranges
// ---------------------------------------------------------------------

/// How many ranges a file is cut into.
pub open spec fn range_count(total: u64) -> nat {
    ((total + CHUNK_SIZE - 1) / CHUNK_SIZE as int) as nat
}

/// The range of a number: its first and its last byte. The last range is
/// as long as what is left.
pub open spec fn range_at(total: u64, i: int) -> (int, int) {
    let start = i * CHUNK_SIZE;
    let end = start + CHUNK_SIZE - 1;
    (start, if end < total - 1 {
        end
    } else {
        total - 1
    })
}

/// Whether `pairs` are the first ranges of a file.
pub open spec fn first_ranges(total: u64, pairs: Seq<(u64, u64)>) -> bool {
    forall|i: int|
        0 <= i < pairs.len() ==> ((#[trigger] pairs[i]).0 as int, pairs[i].1 as int) == range_at(
            total,
            i,
        )
}

/// The ranges of a file.
pub fn ranges(total: u64) -> (r: Vec<(u64, u64)>)
    ensures
        r@.len() == range_count(total),
        first_ranges(total, r@),
{
    let mut out: Vec<(u64, u64)> = Vec::new();
    let mut start: u64 = 0;
    while total - start > CHUNK_SIZE
        invariant
            start <= total,
            start == out@.len() * CHUNK_SIZE,
            first_ranges(total, out@),
        decreases total - start,
    {
        out.push((start, start + (CHUNK_SIZE - 1)));
        start = start + CHUNK_SIZE;
    }
    if start < total {
        out.push((start, total - 1));
    }
    out
}

/// Every byte of a file is in exactly one of its ranges.
pub proof fn law_every_byte_is_in_one_range(total: u64, byte: int)
    requires
        0 <= byte < total,
    ensures
        ({
            let i = byte / CHUNK_SIZE as int;
            &&& 0 <= i < range_count(total)
            &&& range_at(total, i).0 <= byte <= range_at(total, i).1
            &&& forall|j: int|
                0 <= j < range_count(total) && (#[trigger] range_at(total, j)).0 <= byte
                    <= range_at(total, j).1 ==> j == i
        }),
{
}

/// How many bytes the first ranges of a file hold.
pub open spec fn bytes_in(total: u64, count: nat) -> int
    decreases count,
{
    if count == 0 {
        0
    } else {
        let last = range_at(total, count - 1);
        bytes_in(total, (count - 1) as nat) + (last.1 - last.0 + 1)
    }
}

/// The first ranges, short of the last, hold a whole chunk each.
proof fn lemma_whole_chunks(total: u64, count: nat)
    requires
        count * CHUNK_SIZE <= total,
    ensures
        bytes_in(total, count) == count * CHUNK_SIZE,
    decreases count,
{
    if count > 0 {
        lemma_whole_chunks(total, (count - 1) as nat);
    }
}

/// The ranges of a file hold as many bytes as the file.
pub proof fn law_the_ranges_add_up(total: u64)
    ensures
        bytes_in(total, range_count(total)) == total,
{
    let count = range_count(total);
    if count > 0 {
        lemma_whole_chunks(total, (count - 1) as nat);
    }
}

// ---------------------------------------------------------------------
// Which ranges run
// ---------------------------------------------------------------------

/// Which ranges of a file are handed out, and how many are being fetched.
#[derive(Debug)]
pub struct RangeQueue {
    pub ranges: Vec<(u64, u64)>,
    pub next: usize,
    pub running: usize,
}

impl RangeQueue {
    /// Ranges are handed out from the front; some of those handed out are
    /// being fetched, never more than may be at once, and there are
    /// fewer of them only when none is left to hand out.
    pub open spec fn wf(&self) -> bool {
        &&& self.next <= self.ranges@.len()
        &&& self.running <= self.next
        &&& self.running <= CONCURRENCY
        &&& self.running < CONCURRENCY ==> self.next == self.ranges@.len()
    }

    /// The ranges that were handed out so far, in order.
    pub open spec fn handed_out(&self) -> Seq<(u64, u64)> {
        self.ranges@.take(self.next as int)
    }

    /// The range to hand out next, while there is one.
    pub open spec fn next_range(&self) -> Option<(u64, u64)> {
        if self.next < self.ranges@.len() {
            Some(self.ranges@[self.next as int])
        } else {
            None
        }
    }

    /// The ranges of a file, and those to begin with. The first of them
    /// is the one whose response is in hand already.
    pub fn open(total: u64) -> (r: (Self, Vec<(u64, u64)>))
        ensures
            r.0.wf(),
            r.0.ranges@.len() == range_count(total),
            first_ranges(total, r.0.ranges@),
            r.0.running == r.0.next,
            r.1@ == r.0.ranges@.take(r.0.next as int),
            r.1@ == r.0.handed_out(),
    {
        let all = ranges(total);
        let count: usize = if all.len() < CONCURRENCY {
            all.len()
        } else {
            CONCURRENCY
        };
        let mut begin: Vec<(u64, u64)> = Vec::new();
        let mut i: usize = 0;
        while i < count
            invariant
                i <= count <= all@.len(),
                begin@ == all@.take(i as int),
            decreases count - i,
        {
            begin.push(all[i]);
            i = i + 1;
            assert(begin@ =~= all@.take(i as int));
        }
        (RangeQueue { ranges: all, next: count, running: count }, begin)
    }

    /// A range was fetched: the one to fetch in its place, while there is
    /// one.
    pub fn fetched(&mut self) -> (r: Option<(u64, u64)>)
        requires
            old(self).wf(),
            old(self).running > 0,
        ensures
            final(self).wf(),
            final(self).ranges == old(self).ranges,
            r == old(self).next_range(),
            final(self).handed_out() == old(self).handed_out() + (match r {
                Some(range) => seq![range],
                None => Seq::empty(),
            }),
            match r {
                Some(range) => old(self).next < old(self).ranges@.len() && range
                    == old(self).ranges@[old(self).next as int] && final(self).next
                    == old(self).next + 1 && final(self).running == old(self).running,
                None => old(self).next == old(self).ranges@.len() && final(self).next
                    == old(self).next && final(self).running == old(self).running - 1,
            },
    {
        if self.next < self.ranges.len() {
            let range = self.ranges[self.next];
            self.next = self.next + 1;
            assert(self.handed_out() =~= old(self).handed_out() + seq![range]);
            Some(range)
        } else {
            self.running = self.running - 1;
            assert(self.handed_out() =~= old(self).handed_out() + Seq::<(u64, u64)>::empty());
            None
        }
    }
}

/// When no range is being fetched any more, every range was handed out.
pub proof fn law_nothing_is_left_when_nothing_runs(queue: RangeQueue)
    requires
        queue.wf(),
        queue.running == 0,
    ensures
        queue.next == queue.ranges@.len(),
{
}

// ---------------------------------------------------------------------
// Fetching one range
// ---------------------------------------------------------------------

/// How a range is called in messages.
pub open spec fn range_name(start: u64, end: u64) -> Text {
    "range "@ + text::decimal(start as nat) + "-"@ + text::decimal(end as nat)
}

fn name_of(start: u64, end: u64) -> (r: String)
    ensures
        r@ == range_name(start, end),
{
    let mut out = "range ".to_owned();
    out.append(number(start).as_str());
    out.append("-");
    out.append(number(end).as_str());
    out
}

/// The header that asks for a range.
pub open spec fn range_request(start: u64, end: u64) -> Text {
    "bytes="@ + text::decimal(start as nat) + "-"@ + text::decimal(end as nat)
}

/// The header that asks for a range.
pub fn range_header(start: u64, end: u64) -> (r: String)
    ensures
        r@ == "bytes="@ + text::decimal(start as nat) + "-"@ + text::decimal(end as nat),
        r@ == range_request(start, end),
{
    let mut out = "bytes=".to_owned();
    out.append(number(start).as_str());
    out.append("-");
    out.append(number(end).as_str());
    out
}

/// A try that failed: what to say of it, and how many bytes it wrote.
#[derive(Debug, PartialEq, Eq)]
pub struct FailedTry {
    pub message: String,
    pub partial: u64,
}

/// A request for a range that got no response.
pub fn request_failed(start: u64, end: u64, error: &str) -> (r: FailedTry)
    ensures
        r.message@ == range_name(start, end) + ": "@ + error@,
        r.message@ == unanswered(start, end, error@),
        r.partial == 0,
{
    let mut message = name_of(start, end);
    message.append(": ");
    message.append(error);
    FailedTry { message, partial: 0 }
}

/// What is said of a response to a request for a range that is not one.
pub open spec fn not_partial(start: u64, end: u64, status: u16) -> Option<Text> {
    if status == 206 {
        None
    } else {
        Some(range_name(start, end) + ": expected 206, got "@ + text::decimal(status as nat))
    }
}

/// Whether the response to a request for a range is one: a supplier that
/// sends the whole file would write it over every other range.
pub fn check_partial(start: u64, end: u64, status: u16) -> (r: Result<(), FailedTry>)
    ensures
        match r {
            Ok(()) => status == 206 && not_partial(start, end, status) is None,
            Err(failed) => status != 206 && failed.partial == 0 && failed.message@ == range_name(
                start,
                end,
            ) + ": expected 206, got "@ + text::decimal(status as nat) && not_partial(
                start,
                end,
                status,
            ) == Some(failed.message@),
        },
{
    if status == 206 {
        return Ok(());
    }
    let mut message = name_of(start, end);
    message.append(": expected 206, got ");
    message.append(number(status as u64).as_str());
    Err(FailedTry { message, partial: 0 })
}

/// What is said of a range of which more or less than it has arrived.
pub open spec fn shortfall(start: u64, end: u64, got: int) -> Option<Text> {
    let expected = end - start + 1;
    if got == expected {
        None
    } else {
        Some(
            range_name(start, end) + ": asked for "@ + text::decimal(expected as nat)
                + " bytes and received "@ + text::decimal(got as nat),
        )
    }
}

/// What is said of a range whose next piece could not be read.
pub open spec fn unread(start: u64, end: u64, error: Text) -> Text {
    range_name(start, end) + ": reading the body: "@ + error
}

/// What is said of a range whose piece could not be written at `at`.
pub open spec fn unwritten(start: u64, end: u64, at: u64, error: Text) -> Text {
    range_name(start, end) + ": writing at "@ + text::decimal(at as nat) + ": "@ + error
}

/// What is said of a range whose writing was given up.
pub open spec fn given_up(start: u64, end: u64, error: Text) -> Text {
    range_name(start, end) + ": writing: "@ + error
}

/// What is said of a request for a range that got no response.
pub open spec fn unanswered(start: u64, end: u64, error: Text) -> Text {
    range_name(start, end) + ": "@ + error
}

/// The failure of a download whose fetching of a range was lost.
pub open spec fn lost(error: Text) -> ErrorView {
    scheme::failed("net_transfer"@, "a range download panicked: "@ + error)
}

/// The body of one range on its way into the file.
#[derive(Debug)]
pub struct Drain {
    pub start: u64,
    pub end: u64,
    /// Where the next piece goes.
    pub at: u64,
}

impl Drain {
    /// Pieces go to the range's own place in the file, one after another.
    pub open spec fn wf(&self) -> bool {
        &&& self.start <= self.end < u64::MAX
        &&& self.start <= self.at
    }

    /// How many bytes were written.
    pub open spec fn got(&self) -> int {
        self.at - self.start
    }

    /// How many bytes were asked for.
    pub open spec fn expected(&self) -> int {
        self.end - self.start + 1
    }

    /// A range of which nothing has arrived.
    pub fn new(start: u64, end: u64) -> (r: Self)
        requires
            start <= end < u64::MAX,
        ensures
            r.wf(),
            r.start == start,
            r.end == end,
            r.got() == 0,
    {
        Drain { start, end, at: start }
    }

    /// A piece was written.
    pub fn landed(&mut self, len: u64)
        requires
            old(self).wf(),
            old(self).at + len <= u64::MAX,
        ensures
            final(self).wf(),
            final(self).start == old(self).start,
            final(self).end == old(self).end,
            final(self).got() == old(self).got() + len,
    {
        self.at = self.at + len;
    }

    /// The next piece could not be read.
    pub fn read_failed(&self, error: &str) -> (r: FailedTry)
        requires
            self.wf(),
        ensures
            r.message@ == range_name(self.start, self.end) + ": reading the body: "@ + error@,
            r.message@ == unread(self.start, self.end, error@),
            r.partial == self.got(),
    {
        let mut message = name_of(self.start, self.end);
        message.append(": reading the body: ");
        message.append(error);
        FailedTry { message, partial: self.at - self.start }
    }

    /// A piece could not be written.
    pub fn write_failed(&self, error: &str) -> (r: FailedTry)
        requires
            self.wf(),
        ensures
            r.message@ == range_name(self.start, self.end) + ": writing at "@ + text::decimal(
                self.at as nat,
            ) + ": "@ + error@,
            r.message@ == unwritten(self.start, self.end, self.at, error@),
            r.partial == self.got(),
    {
        let mut message = name_of(self.start, self.end);
        message.append(": writing at ");
        message.append(number(self.at).as_str());
        message.append(": ");
        message.append(error);
        FailedTry { message, partial: self.at - self.start }
    }

    /// The writing of a piece was given up.
    pub fn write_lost(&self, error: &str) -> (r: FailedTry)
        requires
            self.wf(),
        ensures
            r.message@ == range_name(self.start, self.end) + ": writing: "@ + error@,
            r.message@ == given_up(self.start, self.end, error@),
            r.partial == self.got(),
    {
        let mut message = name_of(self.start, self.end);
        message.append(": writing: ");
        message.append(error);
        FailedTry { message, partial: self.at - self.start }
    }

    /// The body is at its end: whether it was all that was asked for, and
    /// no more.
    pub fn finish(&self) -> (r: Result<(), FailedTry>)
        requires
            self.wf(),
        ensures
            match r {
                Ok(()) => self.got() == self.expected() && shortfall(
                    self.start,
                    self.end,
                    self.got(),
                ) is None,
                Err(failed) => self.got() != self.expected() && failed.partial == self.got()
                    && failed.message@ == range_name(self.start, self.end) + ": asked for "@
                    + text::decimal(self.expected() as nat) + " bytes and received "@
                    + text::decimal(self.got() as nat) && shortfall(
                    self.start,
                    self.end,
                    self.got(),
                ) == Some(failed.message@),
            },
    {
        let expected = self.end - self.start + 1;
        let got = self.at - self.start;
        if got == expected {
            return Ok(());
        }
        let mut message = name_of(self.start, self.end);
        message.append(": asked for ");
        message.append(number(expected).as_str());
        message.append(" bytes and received ");
        message.append(number(got).as_str());
        Err(FailedTry { message, partial: got })
    }
}

// ---------------------------------------------------------------------
// Trying again
// ---------------------------------------------------------------------

/// How long a try waits before it begins, in milliseconds.
pub open spec fn wait_before(attempt: int) -> u64
    decreases attempt,
{
    if attempt <= 1 {
        0
    } else if attempt == 2 {
        BASE_BACKOFF_MS
    } else {
        let doubled = 2 * wait_before(attempt - 1);
        if doubled < MAX_BACKOFF_MS {
            doubled as u64
        } else {
            MAX_BACKOFF_MS
        }
    }
}

/// What follows `failed` tries at a range: a wait before the next one, or
/// the end, with the reason the last one failed for.
pub open spec fn next_try(failed: u32, last: Text) -> Result<u64, Text> {
    if failed < MAX_ATTEMPTS {
        Ok(wait_before(failed + 1))
    } else {
        Err(last + " (after "@ + text::decimal(MAX_ATTEMPTS as nat) + " attempts)"@)
    }
}

/// The tries at one range.
#[derive(Debug)]
pub struct Tries {
    /// How many tries failed.
    pub failed: u32,
    /// How long the next one waits, in milliseconds.
    pub backoff: u64,
    /// What the last one failed with.
    pub last: String,
}

/// What to do about a range.
#[derive(Debug, PartialEq, Eq)]
pub enum NextTry {
    /// Wait so many milliseconds, then try it.
    Wait(u64),
    /// Leave it, for this reason.
    GiveUp(String),
}

impl Tries {
    /// The time to wait follows from the number of failed tries.
    pub open spec fn wf(&self) -> bool {
        &&& self.failed <= MAX_ATTEMPTS
        &&& self.backoff <= MAX_BACKOFF_MS
        &&& self.backoff == (if self.failed == 0 {
            BASE_BACKOFF_MS
        } else {
            wait_before(self.failed + 1)
        })
    }

    /// A range that was not tried.
    pub fn new() -> (r: Self)
        ensures
            r.wf(),
            r.failed == 0,
            r.last@ == Seq::<char>::empty(),
    {
        let last = String::new();
        assert(last@ =~= Seq::<char>::empty());
        Tries { failed: 0, backoff: BASE_BACKOFF_MS, last }
    }

    /// What to do next: the first try begins at once, each further one
    /// waits, and after the last one the range is left.
    pub fn next(&self) -> (r: NextTry)
        requires
            self.wf(),
        ensures
            match r {
                NextTry::Wait(ms) => self.failed < MAX_ATTEMPTS && ms == wait_before(
                    self.failed + 1,
                ) && next_try(self.failed, self.last@) == Ok::<u64, Text>(ms),
                NextTry::GiveUp(reason) => self.failed >= MAX_ATTEMPTS && reason@ == self.last@
                    + " (after "@ + text::decimal(MAX_ATTEMPTS as nat) + " attempts)"@ && next_try(
                    self.failed,
                    self.last@,
                ) == Err::<u64, Text>(reason@),
            },
    {
        if self.failed >= MAX_ATTEMPTS {
            let mut reason = self.last.clone();
            reason.append(" (after ");
            reason.append(number(MAX_ATTEMPTS as u64).as_str());
            reason.append(" attempts)");
            return NextTry::GiveUp(reason);
        }
        if self.failed == 0 {
            return NextTry::Wait(0);
        }
        NextTry::Wait(self.backoff)
    }

    /// A try failed.
    pub fn note(&mut self, message: String)
        requires
            old(self).wf(),
            old(self).failed < MAX_ATTEMPTS,
        ensures
            final(self).wf(),
            final(self).failed == old(self).failed + 1,
            final(self).last@ == message@,
    {
        if self.failed > 0 {
            let doubled = self.backoff * 2;
            self.backoff = if doubled < MAX_BACKOFF_MS {
                doubled
            } else {
                MAX_BACKOFF_MS
            };
        }
        self.failed = self.failed + 1;
        self.last = message;
    }
}

impl Default for Tries {
    /// A range that was not tried.
    fn default() -> (r: Self)
        ensures
            r.wf(),
            r.failed == 0,
            r.last@ == Seq::<char>::empty(),
    {
        Tries::new()
    }
}

// ---------------------------------------------------------------------
// What it adds up to
// ---------------------------------------------------------------------

/// What the bytes written come to, for a file of `total` bytes.
pub open spec fn tallied(written: u64, total: u64) -> Result<u64, ErrorView> {
    if written == total {
        Ok(written)
    } else {
        Err(
            scheme::failed(
                "net_transfer"@,
                "the supplier declared "@ + text::decimal(total as nat) + " bytes and delivered "@
                    + text::decimal(written as nat),
            ),
        )
    }
}

/// The bytes written over all ranges.
#[derive(Debug, Clone, Copy, PartialEq, Eq)]
pub struct Tally {
    pub written: u64,
}

impl Tally {
    /// A piece was written.
    pub fn landed(&mut self, len: u64)
        requires
            old(self).written + len <= u64::MAX,
        ensures
            final(self).written == old(self).written + len,
    {
        self.written = self.written + len;
    }

    /// A try failed: what it wrote will be written again.
    pub fn give_back(&mut self, partial: u64)
        requires
            partial <= old(self).written,
        ensures
            final(self).written == old(self).written - partial,
    {
        self.written = self.written - partial;
    }

    /// All ranges were fetched: whether they were the whole file.
    pub fn finish(&self, total: u64) -> (r: Result<u64, ExecError>)
        ensures
            match r {
                Ok(written) => written == self.written && written == total && tallied(
                    self.written,
                    total,
                ) == Ok::<u64, ErrorView>(written),
                Err(error) => self.written != total && error@ == scheme::failed(
                    "net_transfer"@,
                    "the supplier declared "@ + text::decimal(total as nat)
                        + " bytes and delivered "@ + text::decimal(self.written as nat),
                ) && tallied(self.written, total) == Err::<u64, ErrorView>(error@),
            },
    {
        if self.written == total {
            return Ok(self.written);
        }
        let mut message = "the supplier declared ".to_owned();
        message.append(number(total).as_str());
        message.append(" bytes and delivered ");
        message.append(number(self.written).as_str());
        Err(failed(message))
    }
}

/// A download that failed. It is the transfer that failed, whichever way
/// it was made.
pub fn failed(message: String) -> (r: ExecError)
    ensures
        r@ == scheme::failed("net_transfer"@, message@),
{
    ExecError::EffectFailed { op: "net_transfer".to_owned(), message }
}

/// A download whose fetching of a range was lost.
pub fn range_lost(error: &str) -> (r: ExecError)
    ensures
        r@ == scheme::failed("net_transfer"@, "a range download panicked: "@ + error@),
        r@ == lost(error@),
{
    let mut message = "a range download panicked: ".to_owned();
    message.append(error);
    failed(message)
}

/// The sum of a list of numbers.
pub open spec fn sum(counts: Seq<int>) -> int
    decreases counts.len(),
{
    if counts.len() == 0 {
        0
    } else {
        sum(counts.drop_last()) + counts.last()
    }
}

proof fn lemma_sum_update(counts: Seq<int>, i: int, count: int)
    requires
        0 <= i < counts.len(),
    ensures
        sum(counts.update(i, count)) == sum(counts) - counts[i] + count,
    decreases counts.len(),
{
    let changed = counts.update(i, count);
    if i == counts.len() - 1 {
        assert(changed.drop_last() =~= counts.drop_last());
    } else {
        assert(changed.drop_last() =~= counts.drop_last().update(i, count));
        lemma_sum_update(counts.drop_last(), i, count);
    }
}

/// The bytes written are those that the ranges hold, and stay so: a piece
/// that lands adds to both, and a try that fails gives back from both
/// what it had written.
pub proof fn law_the_tally_is_what_the_ranges_hold(
    written: int,
    held: Seq<int>,
    i: int,
    len: u64,
)
    requires
        written == sum(held),
        0 <= i < held.len(),
    ensures
        written + len == sum(held.update(i, held[i] + len)),
        written - held[i] == sum(held.update(i, 0)),
{
    lemma_sum_update(held, i, held[i] + len);
    lemma_sum_update(held, i, 0);
}

/// The first ranges, each held whole, add up.
proof fn lemma_held_whole(total: u64, held: Seq<int>)
    requires
        forall|i: int|
            0 <= i < held.len() ==> #[trigger] held[i] == range_at(total, i).1 - range_at(
                total,
                i,
            ).0 + 1,
    ensures
        sum(held) == bytes_in(total, held.len()),
    decreases held.len(),
{
    if held.len() > 0 {
        lemma_held_whole(total, held.drop_last());
    }
}

/// When every range is held whole, the bytes written are the whole file,
/// however often a range was tried.
pub proof fn law_whole_ranges_make_the_whole_file(total: u64, held: Seq<int>)
    requires
        held.len() == range_count(total),
        forall|i: int|
            0 <= i < held.len() ==> #[trigger] held[i] == range_at(total, i).1 - range_at(
                total,
                i,
            ).0 + 1,
    ensures
        sum(held) == total,
{
    lemma_held_whole(total, held);
    law_the_ranges_add_up(total);
}

// ---------------------------------------------------------------------
// What a download by ranges comes to
// ---------------------------------------------------------------------

/// A file is cut every ten mebibytes: every range begins where the one
/// before it ended, each but the last is ten mebibytes long, and the last
/// ends with the file.
pub proof fn law_a_file_is_cut_every_ten_mebibytes(total: u64, i: int)
    requires
        0 <= i < range_count(total),
    ensures
        range_at(total, i).0 == i * (10 * 1024 * 1024),
        range_at(total, i).0 <= range_at(total, i).1 < total,
        i + 1 < range_count(total) ==> range_at(total, i).1 + 1 == range_at(total, i + 1).0,
        i + 1 == range_count(total) ==> range_at(total, i).1 == total - 1,
        range_count(0) == 0,
        MIN_TOTAL == 2 * (10 * 1024 * 1024),
{
}

/// Sixteen ranges are fetched at once, as long as there are so many: fewer
/// only when every range was handed out.
pub proof fn law_sixteen_ranges_are_fetched_at_once(queue: RangeQueue)
    requires
        queue.wf(),
    ensures
        queue.running <= 16,
        queue.next < queue.ranges@.len() ==> queue.running == 16,
        queue.running == queue.next ==> queue.next == (if queue.ranges@.len() < 16 {
            queue.ranges@.len() as int
        } else {
            16
        }),
{
}

/// A range is asked for by its first and its last byte.
pub proof fn law_a_range_is_asked_for_by_its_ends(start: u64, end: u64)
    ensures
        range_request(start, end) == "bytes="@ + text::decimal(start as nat) + "-"@ + text::decimal(
            end as nat,
        ),
        range_name(start, end) == "range "@ + text::decimal(start as nat) + "-"@ + text::decimal(
            end as nat,
        ),
{
}

/// A response to a request for a range is taken exactly when its status
/// is 206: the whole file, with 200, is refused too, and the refusal names
/// the range and the status.
pub proof fn law_only_206_is_a_range(start: u64, end: u64, status: u16)
    ensures
        not_partial(start, end, status) is None <==> status == 206,
        status != 206 ==> not_partial(start, end, status) == Some(
            "range "@ + text::decimal(start as nat) + "-"@ + text::decimal(end as nat)
                + ": expected 206, got "@ + text::decimal(status as nat),
        ),
{
}

/// A range is whole exactly when as many bytes arrived as lie between its
/// two ends, both counted: one byte more or less fails it.
pub proof fn law_a_range_is_whole_or_fails(start: u64, end: u64, got: int)
    requires
        start <= end,
        got >= 0,
    ensures
        shortfall(start, end, got) is None <==> got == end - start + 1,
        shortfall(start, end, got) matches Some(said) ==> said == range_name(start, end)
            + ": asked for "@ + text::decimal((end - start + 1) as nat) + " bytes and received "@
            + text::decimal(got as nat),
{
}

/// A range is tried five times. The first try begins at once, the second
/// waits 300 milliseconds, and each further one twice as long as the one
/// before it; no wait is longer than ten seconds. After the fifth the
/// reason of the last one is what the range fails for.
pub proof fn law_a_range_is_tried_five_times(failed: u32, last: Text)
    ensures
        next_try(failed, last) is Ok <==> failed < 5,
        next_try(0, last) == Ok::<u64, Text>(0),
        next_try(1, last) == Ok::<u64, Text>(300),
        next_try(2, last) == Ok::<u64, Text>(600),
        next_try(3, last) == Ok::<u64, Text>(1200),
        next_try(4, last) == Ok::<u64, Text>(2400),
        failed >= 5 ==> next_try(failed, last) == Err::<u64, Text>(
            last + " (after "@ + text::decimal(5) + " attempts)"@,
        ),
{
    assert(wait_before(1) == 0);
    assert(wait_before(2) == 300);
    assert(wait_before(3) == 600);
    assert(wait_before(4) == 1200);
    assert(wait_before(5) == 2400);
}

/// However often a range were tried, a wait never shrinks and is never
/// longer than ten seconds.
pub proof fn law_no_wait_is_longer_than_ten_seconds(attempt: int)
    ensures
        wait_before(attempt) <= 10000,
        wait_before(attempt) <= wait_before(attempt + 1),
        attempt >= 2 && wait_before(attempt) < 5000 ==> wait_before(attempt + 1) == 2 * wait_before(
            attempt,
        ),
    decreases attempt,
{
    if attempt > 1 {
        law_no_wait_is_longer_than_ten_seconds(attempt - 1);
    }
}

/// A download by ranges is accepted exactly when the bytes written are as
/// many as the supplier declared.
pub proof fn law_a_short_file_is_refused(written: u64, total: u64)
    ensures
        tallied(written, total) is Ok <==> written == total,
        tallied(total, total) == Ok::<u64, ErrorView>(total),
        written != total ==> tallied(written, total) == Err::<u64, ErrorView>(
            ErrorView::EffectFailed {
                op: "net_transfer"@,
                message: "the supplier declared "@ + text::decimal(total as nat)
                    + " bytes and delivered "@ + text::decimal(written as nat),
            },
        ),
{
}

/// The size of a file is the number behind the last slash of the header;
/// an unknown one, for which a star stands, is none.
pub proof fn law_the_size_stands_behind_the_slash(lead: Text, total: u64)
    ensures
        declared_total(lead + "/"@ + text::decimal(total as nat)) == Some(total as nat),
        declared_total(lead + "/*"@) is None,
{
    reveal_strlit("/");
    reveal_strlit("/*");
    let digits = text::decimal(total as nat);
    let header = lead + "/"@ + digits;
    text::law_a_spelled_number_is_read_back(total as nat, u64::MAX as nat);
    let from = lead.len() + 1;
    assert(header[from - 1] == '/');
    assert forall|k: int| from <= k < header.len() implies header[k] != '/' by {
        assert(header[k] == digits[k - from]);
        assert('0' <= digits[k - from]);
    }
    lemma_after_slash(header, from as int);
    assert(header.skip(from as int) =~= digits);
    text::law_blanks_and_line_ends_are_space(digits[0]);
    text::law_blanks_and_line_ends_are_space(digits.last());
    assert(digits.len() > 0);
    assert('0' <= digits[0] && digits[0] <= '9');
    assert('0' <= digits[digits.len() - 1] && digits[digits.len() - 1] <= '9');
    let none = Seq::<char>::empty();
    text::law_space_is_taken_off_both_ends(none, digits, none);
    assert(none + digits + none =~= digits);
    let unknown = lead + "/*"@;
    assert(unknown[from - 1] == '/');
    lemma_after_slash(unknown, from as int);
    let star = seq!['*'];
    assert(unknown.skip(from as int) =~= star);
    text::law_blanks_and_line_ends_are_space('*');
    text::law_space_is_taken_off_both_ends(none, star, none);
    assert(none + star + none =~= star);
    text::law_nothing_but_digits_is_a_number(star, 0, u64::MAX as nat);
}

/// A range that failed is named by its two ends, with what it was doing
/// and the reason.
pub proof fn law_a_failed_range_is_named(start: u64, end: u64, at: u64, error: Text)
    ensures
        ({
            let named = "range "@ + text::decimal(start as nat) + "-"@ + text::decimal(end as nat);
            &&& unanswered(start, end, error) == named + ": "@ + error
            &&& unread(start, end, error) == named + ": reading the body: "@ + error
            &&& unwritten(start, end, at, error) == named + ": writing at "@ + text::decimal(
                at as nat,
            ) + ": "@ + error
            &&& given_up(start, end, error) == named + ": writing: "@ + error
        }),
        lost(error) == (ErrorView::EffectFailed {
            op: "net_transfer"@,
            message: "a range download panicked: "@ + error,
        }),
{
}

/// Ranges are handed out in the order they have in the file, each once:
/// the next one is the one behind those handed out, and when none is being
/// fetched any more they were all handed out.
pub proof fn law_every_range_is_handed_out_once(queue: RangeQueue, i: int)
    requires
        queue.wf(),
    ensures
        0 <= i < queue.handed_out().len() ==> queue.handed_out()[i] == queue.ranges@[i],
        queue.next_range() matches Some(range) ==> queue.handed_out().len() < queue.ranges@.len()
            && range == queue.ranges@[queue.handed_out().len() as int],
        queue.next_range() is None ==> queue.handed_out() == queue.ranges@,
        queue.running == 0 ==> queue.handed_out() == queue.ranges@,
        queue.running <= queue.handed_out().len(),
{
    if queue.next_range() is None {
        assert(queue.handed_out() =~= queue.ranges@);
    }
}

/// What a range holds so far lies between its first byte and the place of
/// the next piece, and it is whole when that place is the one behind its
/// last byte.
pub proof fn law_a_drain_holds_what_lies_behind_its_start(drain: Drain)
    requires
        drain.wf(),
    ensures
        drain.start + drain.got() == drain.at,
        drain.got() == drain.expected() <==> drain.at == drain.end + 1,
        shortfall(drain.start, drain.end, drain.got()) is None <==> drain.at == drain.end + 1,
{
}

} // verus!
