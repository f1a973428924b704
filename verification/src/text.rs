//! Text: what the library says about strings, over their characters.
//!
//! A `String` or `&str` is modelled by its sequence of characters. The
//! functions here are the searches, splits and renderings the rest of the
//! library composes its messages and command lines from.

use vstd::prelude::*;

verus! {

/// The mathematical model of a string.
pub type Text = Seq<char>;

/// The model of a list of strings.
pub open spec fn texts(list: Seq<String>) -> Seq<Text> {
    Seq::new(list.len(), |i: int| list[i]@)
}

/// The model of an optional string.
pub open spec fn opt_text(value: Option<String>) -> Option<Text> {
    match value {
        Some(text) => Some(text@),
        None => None,
    }
}

/// The model of an optional borrowed string.
pub open spec fn opt_str(value: Option<&str>) -> Option<Text> {
    match value {
        Some(text) => Some(text@),
        None => None,
    }
}

// ---------------------------------------------------------------------
// Searching
// ---------------------------------------------------------------------

/// The position of the first `c` in `s`, or `s.len()` when there is none.
pub open spec fn first_of(s: Text, c: char) -> int
    decreases s.len(),
{
    if s.len() == 0 || s[0] == c {
        0
    } else {
        1 + first_of(s.drop_first(), c)
    }
}

/// `first_of` names a position that holds `c`, with no `c` before it.
pub proof fn lemma_first_of(s: Text, c: char)
    ensures
        0 <= first_of(s, c) <= s.len(),
        first_of(s, c) < s.len() ==> s[first_of(s, c)] == c,
        forall|j: int| 0 <= j < first_of(s, c) ==> s[j] != c,
        first_of(s, c) < s.len() <==> s.contains(c),
    decreases s.len(),
{
    if s.len() == 0 || s[0] == c {
        if s.len() > 0 {
            assert(s.contains(s[0]));
        }
    } else {
        let rest = s.drop_first();
        lemma_first_of(rest, c);
        assert forall|j: int| 0 <= j < first_of(s, c) implies s[j] != c by {
            if j > 0 {
                assert(rest[j - 1] == s[j]);
            }
        }
        let at = first_of(s, c);
        if at < s.len() {
            assert(rest[at - 1] == s[at]);
            assert(s.contains(s[at]));
        } else {
            assert(!s.contains(c)) by {
                assert(forall|j: int| 0 <= j < s.len() ==> s[j] != c);
            }
        }
    }
}

/// A position that holds the first `c` is the one `first_of` names.
pub proof fn lemma_first_of_is(s: Text, c: char, at: int)
    requires
        0 <= at <= s.len(),
        at < s.len() ==> s[at] == c,
        forall|j: int| 0 <= j < at ==> s[j] != c,
    ensures
        first_of(s, c) == at,
{
    lemma_first_of(s, c);
    let found = first_of(s, c);
    if found < at {
        assert(s[found] != c);
    }
    if at < found {
        assert(s[at] != c);
    }
}

/// The two sides of the first `c`, or `None` when `s` holds no `c`.
pub open spec fn split_at_first(s: Text, c: char) -> Option<(Text, Text)> {
    if s.contains(c) {
        Some((s.take(first_of(s, c)), s.skip(first_of(s, c) + 1)))
    } else {
        None
    }
}

/// A text put together around its first `c` comes apart there.
pub proof fn lemma_split_at_mark(before: Text, c: char, after: Text)
    requires
        !before.contains(c),
    ensures
        split_at_first(before + seq![c] + after, c) == Some((before, after)),
{
    let whole = before + seq![c] + after;
    assert forall|j: int| 0 <= j < before.len() implies whole[j] != c by {
        assert(whole[j] == before[j]);
        assert(before.contains(before[j]));
    }
    assert(whole[before.len() as int] == c);
    lemma_first_of_is(whole, c, before.len() as int);
    assert(whole.contains(whole[before.len() as int]));
    assert(whole.take(before.len() as int) =~= before);
    assert(whole.skip(before.len() as int + 1) =~= after);
}

/// A text comes apart at the first `c` only where it was put together
/// around it.
pub proof fn lemma_split_puts_together(s: Text, c: char)
    ensures
        match split_at_first(s, c) {
            Some((before, after)) => s == before + seq![c] + after && !before.contains(c),
            None => !s.contains(c),
        },
{
    lemma_first_of(s, c);
    if s.contains(c) {
        let at = first_of(s, c);
        assert(s =~= s.take(at) + seq![c] + s.skip(at + 1));
        assert(!s.take(at).contains(c)) by {
            assert(forall|j: int| 0 <= j < at ==> s.take(at)[j] == s[j]);
        }
    }
}

/// What is put before a text is its beginning, and the text what follows.
pub proof fn lemma_lead_and_rest(lead: Text, rest: Text)
    ensures
        lead.is_prefix_of(lead + rest),
        (lead + rest).skip(lead.len() as int) == rest,
{
    assert((lead + rest).subrange(0, lead.len() as int) =~= lead);
    assert((lead + rest).skip(lead.len() as int) =~= rest);
}

/// A text that stands in the beginning of another stands in that one.
pub proof fn lemma_holds_in_longer(s: Text, lead: Text, part: Text)
    requires
        lead.is_prefix_of(s),
        holds(lead, part),
    ensures
        holds(s, part),
{
    let at = choose|at: int| stands_at(lead, part, at);
    assert(s.subrange(at, at + part.len()) =~= lead.subrange(at, at + part.len()));
    assert(stands_at(s, part, at));
}

/// Whether `part` stands somewhere in `s`.
pub open spec fn holds(s: Text, part: Text) -> bool {
    exists|at: int| stands_at(s, part, at)
}

/// Whether `part` stands in `s` at position `at`.
pub open spec fn stands_at(s: Text, part: Text, at: int) -> bool {
    &&& 0 <= at
    &&& at + part.len() <= s.len()
    &&& s.subrange(at, at + part.len()) == part
}

/// A text put between two others stands in the whole.
pub proof fn lemma_holds_middle(before: Text, part: Text, after: Text)
    ensures
        holds(before + part + after, part),
{
    let whole = before + part + after;
    assert(whole.subrange(before.len() as int, (before.len() + part.len()) as int) =~= part);
    assert(stands_at(whole, part, before.len() as int));
}

// ---------------------------------------------------------------------
// Numbers
// ---------------------------------------------------------------------

/// The decimal digit of `d`.
pub open spec fn digit(d: int) -> char {
    (48 + d) as char
}

/// The decimal spelling of `n`, without leading zeros.
pub open spec fn decimal(n: nat) -> Text
    decreases n,
{
    if n < 10 {
        seq![digit(n as int)]
    } else {
        decimal(n / 10).push(digit((n % 10) as int))
    }
}

/// The decimal spelling of a signed number.
pub open spec fn signed_decimal(n: int) -> Text {
    if n < 0 {
        seq!['-'] + decimal((-n) as nat)
    } else {
        decimal(n as nat)
    }
}

/// The hexadecimal digit of `d`.
pub open spec fn hex_digit(d: int) -> char {
    if d < 10 {
        (48 + d) as char
    } else {
        (87 + d) as char
    }
}

/// The hexadecimal spelling of `n`, in small letters and without leading
/// zeros.
pub open spec fn hexadecimal(n: nat) -> Text
    decreases n,
{
    if n < 16 {
        seq![hex_digit(n as int)]
    } else {
        hexadecimal(n / 16).push(hex_digit((n % 16) as int))
    }
}

/// Two numbers that are spelled alike in hexadecimal are one.
pub proof fn lemma_hexadecimal_tells_apart(a: nat, b: nat)
    requires
        hexadecimal(a) == hexadecimal(b),
    ensures
        a == b,
    decreases a,
{
    lemma_hexadecimal_len(a);
    lemma_hexadecimal_len(b);
    assert(hexadecimal(a).last() == hex_digit((a % 16) as int));
    assert(hexadecimal(b).last() == hex_digit((b % 16) as int));
    if a >= 16 && b >= 16 {
        assert(hexadecimal(a).drop_last() =~= hexadecimal(a / 16));
        assert(hexadecimal(b).drop_last() =~= hexadecimal(b / 16));
        lemma_hexadecimal_tells_apart(a / 16, b / 16);
    }
}

/// A spelling has at least one digit, and only a number below sixteen has
/// no more.
proof fn lemma_hexadecimal_len(n: nat)
    ensures
        hexadecimal(n).len() >= 1,
        hexadecimal(n).len() == 1 <==> n < 16,
    decreases n,
{
    if n >= 16 {
        lemma_hexadecimal_len(n / 16);
    }
}

/// Whether `c` is an ASCII decimal digit.
pub open spec fn is_digit(c: char) -> bool {
    '0' <= c <= '9'
}

/// The number `c` stands for, and zero for anything but a digit.
pub open spec fn digit_value(c: char) -> nat {
    if is_digit(c) {
        (c as int - 48) as nat
    } else {
        0
    }
}

/// The number a run of digits spells.
pub open spec fn digits_value(s: Text) -> nat
    decreases s.len(),
{
    if s.len() == 0 {
        0
    } else {
        digits_value(s.drop_last()) * 10 + digit_value(s.last())
    }
}

/// Whether every character is a decimal digit.
pub open spec fn all_digits(s: Text) -> bool {
    forall|i: int| 0 <= i < s.len() ==> is_digit(#[trigger] s[i])
}

/// `s` without the plus sign a number may begin with.
pub open spec fn without_plus(s: Text) -> Text {
    if s.len() > 0 && s[0] == '+' {
        s.skip(1)
    } else {
        s
    }
}

/// Reading an unsigned number of at most `max`: one or more digits after
/// an optional plus sign.
pub open spec fn read_number(s: Text, max: nat) -> Option<nat> {
    let body = without_plus(s);
    if body.len() > 0 && all_digits(body) && digits_value(body) <= max {
        Some(digits_value(body))
    } else {
        None
    }
}

/// A longer run of digits never spells a smaller number.
proof fn lemma_digits_value_grows(s: Text, at: int)
    requires
        0 <= at <= s.len(),
    ensures
        digits_value(s.take(at)) <= digits_value(s),
    decreases s.len(),
{
    if at == s.len() {
        assert(s.take(at) =~= s);
    } else {
        let shorter = s.drop_last();
        lemma_digits_value_grows(shorter, at);
        assert(shorter.take(at) =~= s.take(at));
    }
}

// ---------------------------------------------------------------------
// Case, spaces, lines
// ---------------------------------------------------------------------

/// `c` with an ASCII capital letter made small.
pub open spec fn lower_char(c: char) -> char {
    if 'A' <= c <= 'Z' {
        (c as int + 32) as char
    } else {
        c
    }
}

/// `s` with its ASCII capital letters made small.
pub open spec fn lower(s: Text) -> Text {
    Seq::new(s.len(), |i: int| lower_char(s[i]))
}

/// The characters Unicode calls white space.
pub open spec fn is_space(c: char) -> bool {
    let n = c as int;
    ||| 0x9 <= n <= 0xD
    ||| n == 0x20
    ||| n == 0x85
    ||| n == 0xA0
    ||| n == 0x1680
    ||| 0x2000 <= n <= 0x200A
    ||| n == 0x2028
    ||| n == 0x2029
    ||| n == 0x202F
    ||| n == 0x205F
    ||| n == 0x3000
}

/// `s` without its leading white space.
pub open spec fn trim_start(s: Text) -> Text
    decreases s.len(),
{
    if s.len() > 0 && is_space(s[0]) {
        trim_start(s.drop_first())
    } else {
        s
    }
}

/// `s` without its trailing white space.
pub open spec fn trim_end(s: Text) -> Text
    decreases s.len(),
{
    if s.len() > 0 && is_space(s.last()) {
        trim_end(s.drop_last())
    } else {
        s
    }
}

/// `s` without white space at either end.
pub open spec fn trimmed(s: Text) -> Text {
    trim_end(trim_start(s))
}

/// One line without its line feed: a carriage return before the line
/// feed belongs to the line ending.
pub open spec fn line_body(line: Text) -> Text {
    if line.len() > 0 && line.last() == '\r' {
        line.drop_last()
    } else {
        line
    }
}

/// The lines of `s`, without their line endings. A final line needs no
/// line feed, and a carriage return at its end is its own.
pub open spec fn lines_of(s: Text) -> Seq<Text>
    decreases s.len(),
{
    if s.len() == 0 {
        Seq::empty()
    } else {
        let at = first_of(s, '\n');
        if at < 0 || at >= s.len() {
            seq![s]
        } else {
            seq![line_body(s.take(at))] + lines_of(s.skip(at + 1))
        }
    }
}

// ---------------------------------------------------------------------
// Joining
// ---------------------------------------------------------------------

/// `parts` in order, with `sep` between neighbours.
pub open spec fn joined(parts: Seq<Text>, sep: Text) -> Text
    decreases parts.len(),
{
    if parts.len() == 0 {
        Seq::empty()
    } else if parts.len() == 1 {
        parts[0]
    } else {
        joined(parts.drop_last(), sep) + sep + parts.last()
    }
}

// ---------------------------------------------------------------------
// Executable counterparts
// ---------------------------------------------------------------------

/// `String::push`: appends one character.
#[verifier::external_body]
pub(crate) fn push_char(s: &mut String, c: char)
    ensures
        final(s)@ == old(s)@.push(c),
{
    s.push(c)
}

/// The `Debug` rendering of a string: quoted, with the escapes std
/// chooses.
pub uninterp spec fn debug_text(s: Seq<char>) -> Seq<char>;

/// `format!("{:?}")` of a `str`: its `Debug` rendering, which is named
/// and not described.
#[verifier::external_body]
pub(crate) fn debug(s: &str) -> (r: String)
    ensures
        r@ == debug_text(s@),
{
    format!("{:?}", s)
}

/// The `Debug` rendering of a list of strings.
pub open spec fn debug_list_text(list: Seq<Text>) -> Text {
    "["@ + joined(Seq::new(list.len(), |i: int| debug_text(list[i])), ", "@) + "]"@
}

/// The `Debug` rendering of a list of strings.
pub fn debug_list(list: &Vec<String>) -> (r: String)
    ensures
        r@ == debug_list_text(texts(list@)),
{
    let mut parts: Vec<String> = Vec::new();
    let mut i: usize = 0;
    while i < list.len()
        invariant
            i <= list@.len(),
            parts@.len() == i,
            forall|j: int| 0 <= j < i ==> (#[trigger] parts@[j])@ == debug_text(list@[j]@),
        decreases list@.len() - i,
    {
        parts.push(debug(list[i].as_str()));
        i = i + 1;
    }
    assert(texts(parts@) =~= Seq::new(
        texts(list@).len(),
        |j: int| debug_text(texts(list@)[j]),
    ));
    let mut out = "[".to_owned();
    out.append(join(&parts, ", ").as_str());
    out.append("]");
    out
}

/// The characters of `s`.
pub fn chars_of(s: &str) -> (r: Vec<char>)
    ensures
        r@ == s@,
{
    let mut out: Vec<char> = Vec::new();
    for c in it: s.chars()
        invariant
            out@ == it.seq().take(it.index()),
    {
        out.push(c);
    }
    assert(out@ == s@);
    out
}

/// The text of the characters from `from` up to `to`.
pub fn text_of(cs: &Vec<char>, from: usize, to: usize) -> (r: String)
    requires
        from <= to <= cs@.len(),
    ensures
        r@ == cs@.subrange(from as int, to as int),
{
    let mut out = String::new();
    let mut i: usize = from;
    while i < to
        invariant
            from <= i <= to <= cs@.len(),
            out@ == cs@.subrange(from as int, i as int),
        decreases to - i,
    {
        push_char(&mut out, cs[i]);
        assert(cs@.subrange(from as int, i as int).push(cs@[i as int]) =~= cs@.subrange(
            from as int,
            i + 1,
        ));
        i = i + 1;
    }
    out
}

/// Whether two texts are the same.
pub fn same(a: &str, b: &str) -> (r: bool)
    ensures
        r == (a@ == b@),
{
    a.to_owned() == b.to_owned()
}

/// Whether `s` begins with `prefix`.
pub fn starts_with(s: &str, prefix: &str) -> (r: bool)
    ensures
        r == prefix@.is_prefix_of(s@),
{
    let cs = chars_of(s);
    let ps = chars_of(prefix);
    if ps.len() > cs.len() {
        return false;
    }
    let mut i: usize = 0;
    while i < ps.len()
        invariant
            i <= ps@.len() <= cs@.len(),
            ps@ == prefix@,
            cs@ == s@,
            forall|j: int| 0 <= j < i ==> ps@[j] == cs@[j],
        decreases ps@.len() - i,
    {
        if ps[i] != cs[i] {
            assert(prefix@[i as int] != s@.subrange(0, prefix@.len() as int)[i as int]);
            return false;
        }
        i = i + 1;
    }
    assert(prefix@ =~= s@.subrange(0, prefix@.len() as int));
    true
}

/// What follows `prefix` in `s`, when `s` begins with it.
pub fn strip_prefix(s: &str, prefix: &str) -> (r: Option<String>)
    ensures
        prefix@.is_prefix_of(s@) ==> r is Some && r->0@ == s@.skip(prefix@.len() as int),
        !prefix@.is_prefix_of(s@) ==> r is None,
{
    if starts_with(s, prefix) {
        let cs = chars_of(s);
        let ps = chars_of(prefix);
        let rest = text_of(&cs, ps.len(), cs.len());
        assert(rest@ =~= s@.skip(prefix@.len() as int));
        Some(rest)
    } else {
        None
    }
}

/// Whether `part` stands somewhere in `s`.
pub fn contains(s: &str, part: &str) -> (r: bool)
    ensures
        r == holds(s@, part@),
{
    let cs = chars_of(s);
    let ps = chars_of(part);
    if ps.len() > cs.len() {
        return false;
    }
    let last = cs.len() - ps.len();
    let mut at: usize = 0;
    loop
        invariant
            cs@ == s@,
            ps@ == part@,
            ps@.len() <= cs@.len(),
            last == cs@.len() - ps@.len(),
            cs@.len() <= usize::MAX,
            at <= last,
            forall|k: int| 0 <= k < at ==> !#[trigger] stands_at(s@, part@, k),
        decreases last - at,
    {
        let mut i: usize = 0;
        while i < ps.len() && ps[i] == cs[at + i]
            invariant
                cs@ == s@,
                ps@ == part@,
                at + ps@.len() <= cs@.len() <= usize::MAX,
                i <= ps@.len(),
                forall|j: int| 0 <= j < i ==> ps@[j] == cs@[at + j],
            decreases ps@.len() - i,
        {
            i = i + 1;
        }
        if i == ps.len() {
            assert(s@.subrange(at as int, at + part@.len()) =~= part@);
            assert(stands_at(s@, part@, at as int));
            return true;
        }
        assert(!stands_at(s@, part@, at as int)) by {
            assert(s@.subrange(at as int, at + part@.len())[i as int] != part@[i as int]);
        }
        if at == last {
            return false;
        }
        at = at + 1;
    }
}

/// Whether `s` holds the character `c`.
pub fn contains_char(s: &str, c: char) -> (r: bool)
    ensures
        r == s@.contains(c),
{
    let cs = chars_of(s);
    find_from(&cs, 0, c) < cs.len()
}

/// The first `c` at or after `from`, or the length when there is none.
pub fn find_from(cs: &Vec<char>, from: usize, c: char) -> (r: usize)
    requires
        from <= cs@.len(),
    ensures
        from <= r <= cs@.len(),
        r == from + first_of(cs@.skip(from as int), c),
        r < cs@.len() <==> cs@.skip(from as int).contains(c),
        from == 0 ==> r == first_of(cs@, c) && (r < cs@.len() <==> cs@.contains(c)),
{
    let mut i: usize = from;
    while i < cs.len() && cs[i] != c
        invariant
            from <= i <= cs@.len(),
            forall|j: int| from <= j < i ==> cs@[j] != c,
        decreases cs@.len() - i,
    {
        i = i + 1;
    }
    proof {
        let rest = cs@.skip(from as int);
        assert forall|j: int| 0 <= j < i - from implies rest[j] != c by {
            assert(rest[j] == cs@[from + j]);
        }
        lemma_first_of_is(rest, c, i - from);
        lemma_first_of(rest, c);
        if from == 0 {
            assert(rest =~= cs@);
        }
    }
    i
}

/// The two sides of the first `c`, when there is one.
pub fn split_once(s: &str, c: char) -> (r: Option<(String, String)>)
    ensures
        r is Some <==> split_at_first(s@, c) is Some,
        r matches Some(pair) ==> split_at_first(s@, c) == Some((pair.0@, pair.1@)),
{
    let cs = chars_of(s);
    let at = find_from(&cs, 0, c);
    if at < cs.len() {
        let left = text_of(&cs, 0, at);
        let right = text_of(&cs, at + 1, cs.len());
        assert(left@ =~= s@.take(first_of(s@, c)));
        assert(right@ =~= s@.skip(first_of(s@, c) + 1));
        Some((left, right))
    } else {
        None
    }
}

/// Appends the decimal spelling of `n`.
pub fn push_decimal(out: &mut String, n: u64)
    ensures
        final(out)@ == old(out)@ + decimal(n as nat),
    decreases n,
{
    if n < 10 {
        push_char(out, (48u8 + n as u8) as char);
        assert(out@ =~= old(out)@ + decimal(n as nat));
    } else {
        push_decimal(out, n / 10);
        push_char(out, (48u8 + (n % 10) as u8) as char);
        assert(out@ =~= old(out)@ + decimal(n as nat));
    }
}

/// Appends the hexadecimal spelling of `n`.
pub fn push_hexadecimal(out: &mut String, n: u128)
    ensures
        final(out)@ == old(out)@ + hexadecimal(n as nat),
    decreases n,
{
    if n >= 16 {
        push_hexadecimal(out, n / 16);
    }
    let d = (n % 16) as u8;
    let c = if d < 10 {
        (48u8 + d) as char
    } else {
        (87u8 + d) as char
    };
    push_char(out, c);
    assert(out@ =~= old(out)@ + hexadecimal(n as nat));
}

/// The decimal spelling of `n`.
pub fn number(n: u64) -> (r: String)
    ensures
        r@ == decimal(n as nat),
{
    let mut out = String::new();
    push_decimal(&mut out, n);
    assert(out@ =~= decimal(n as nat));
    out
}

/// The decimal spelling of the signed `n`.
pub fn signed_number(n: i64) -> (r: String)
    ensures
        r@ == signed_decimal(n as int),
{
    if n < 0 {
        let mut out = String::new();
        push_char(&mut out, '-');
        // The one magnitude that has no positive counterpart.
        let magnitude: u64 = if n == i64::MIN {
            9223372036854775808
        } else {
            (-n) as u64
        };
        push_decimal(&mut out, magnitude);
        assert(out@ =~= signed_decimal(n as int));
        out
    } else {
        number(n as u64)
    }
}

/// Reads an unsigned number of at most `max`.
pub fn parse_number(s: &str, max: u64) -> (r: Option<u64>)
    ensures
        match r {
            Some(n) => read_number(s@, max as nat) == Some(n as nat),
            None => read_number(s@, max as nat) is None,
        },
{
    let cs = chars_of(s);
    let start: usize = if cs.len() > 0 && cs[0] == '+' {
        1
    } else {
        0
    };
    let ghost body = cs@.skip(start as int);
    assert(body == without_plus(s@)) by {
        if start == 0 {
            assert(body =~= s@);
        }
    }
    if start == cs.len() {
        return None;
    }
    let mut value: u64 = 0;
    let mut i: usize = start;
    while i < cs.len()
        invariant
            start <= i <= cs@.len(),
            body == cs@.skip(start as int),
            value <= max,
            value == digits_value(body.take(i - start)),
            forall|j: int| 0 <= j < i - start ==> is_digit(#[trigger] body[j]),
            body == without_plus(s@),
        decreases cs@.len() - i,
    {
        let c = cs[i];
        assert(body[i - start] == c);
        if !('0' <= c && c <= '9') {
            assert(!is_digit(body[i - start]));
            return None;
        }
        let d: u64 = (c as u8 - 48u8) as u64;
        let ghost upto = body.take(i + 1 - start);
        assert(upto.drop_last() =~= body.take(i - start));
        assert(digits_value(upto) == value * 10 + d);
        proof {
            lemma_digits_value_grows(body, i + 1 - start);
        }
        if value > max / 10 || (value == max / 10 && d > max % 10) {
            assert(value * 10 + d > max);
            return None;
        }
        assert(value * 10 + d <= max);
        value = value * 10 + d;
        i = i + 1;
    }
    assert(body.take(i - start) =~= body);
    Some(value)
}

/// `s` with its ASCII capital letters made small.
pub fn to_lower(s: &str) -> (r: String)
    ensures
        r@ == lower(s@),
{
    let mut out = String::new();
    for c in it: s.chars()
        invariant
            it.seq() == s@,
            out@ == lower(s@).take(it.index()),
    {
        let small = if 'A' <= c && c <= 'Z' {
            ((c as u8) + 32) as char
        } else {
            c
        };
        push_char(&mut out, small);
        assert(out@ =~= lower(s@).take(it.index() + 1));
    }
    assert(out@ =~= lower(s@));
    out
}

/// Whether `c` is white space.
fn space(c: char) -> (r: bool)
    ensures
        r == is_space(c),
{
    let n = c as u32;
    (0x9 <= n && n <= 0xD) || n == 0x20 || n == 0x85 || n == 0xA0 || n == 0x1680 || (0x2000 <= n
        && n <= 0x200A) || n == 0x2028 || n == 0x2029 || n == 0x202F || n == 0x205F || n == 0x3000
}

/// Leading white space reaches exactly as far as `trim_start` cuts.
proof fn lemma_trim_start(s: Text, at: int)
    requires
        0 <= at <= s.len(),
        forall|j: int| 0 <= j < at ==> is_space(s[j]),
        at < s.len() ==> !is_space(s[at]),
    ensures
        trim_start(s) == s.skip(at),
    decreases at,
{
    if at == 0 {
        assert(s.skip(0) =~= s);
    } else {
        let rest = s.drop_first();
        assert forall|j: int| 0 <= j < at - 1 implies is_space(rest[j]) by {
            assert(rest[j] == s[j + 1]);
        }
        lemma_trim_start(rest, at - 1);
        assert(rest.skip(at - 1) =~= s.skip(at));
    }
}

/// Trailing white space reaches exactly as far as `trim_end` cuts.
proof fn lemma_trim_end(s: Text, at: int)
    requires
        0 <= at <= s.len(),
        forall|j: int| at <= j < s.len() ==> is_space(s[j]),
        at > 0 ==> !is_space(s[at - 1]),
    ensures
        trim_end(s) == s.take(at),
    decreases s.len() - at,
{
    if at == s.len() {
        assert(s.take(at) =~= s);
    } else {
        let rest = s.drop_last();
        lemma_trim_end(rest, at);
        assert(rest.take(at) =~= s.take(at));
    }
}

/// `s` without white space at either end.
pub fn trim(s: &str) -> (r: String)
    ensures
        r@ == trimmed(s@),
{
    let cs = chars_of(s);
    let mut from: usize = 0;
    while from < cs.len() && space(cs[from])
        invariant
            from <= cs@.len(),
            forall|j: int| 0 <= j < from ==> is_space(cs@[j]),
        decreases cs@.len() - from,
    {
        from = from + 1;
    }
    let mut to: usize = cs.len();
    while to > from && space(cs[to - 1])
        invariant
            from <= to <= cs@.len(),
            forall|j: int| to <= j < cs@.len() ==> is_space(cs@[j]),
        decreases to,
    {
        to = to - 1;
    }
    proof {
        lemma_trim_start(cs@, from as int);
        let rest = cs@.skip(from as int);
        assert forall|j: int| to - from <= j < rest.len() implies is_space(rest[j]) by {
            assert(rest[j] == cs@[from + j]);
        }
        if to > from {
            assert(rest[to - from - 1] == cs@[to - 1]);
        }
        lemma_trim_end(rest, to - from);
        assert(rest.take(to - from) =~= cs@.subrange(from as int, to as int));
    }
    text_of(&cs, from, to)
}

/// The lines of `s`.
pub fn lines(s: &str) -> (r: Vec<String>)
    ensures
        texts(r@) == lines_of(s@),
{
    let cs = chars_of(s);
    let mut out: Vec<String> = Vec::new();
    let mut from: usize = 0;
    assert(cs@.skip(0) =~= cs@);
    assert(texts(out@) + lines_of(cs@) =~= lines_of(cs@));
    while from < cs.len()
        invariant
            from <= cs@.len(),
            texts(out@) + lines_of(cs@.skip(from as int)) == lines_of(cs@),
        decreases cs@.len() - from,
    {
        let ghost rest = cs@.skip(from as int);
        let ghost before = texts(out@);
        let at = find_from(&cs, from, '\n');
        if at < cs.len() {
            let end: usize = if at > from && cs[at - 1] == '\r' {
                at - 1
            } else {
                at
            };
            out.push(text_of(&cs, from, end));
            proof {
                let line = rest.take(at - from);
                assert(line =~= cs@.subrange(from as int, at as int));
                assert(out@.last()@ =~= line_body(line));
                assert(rest.skip(at - from + 1) =~= cs@.skip(at + 1));
                assert(texts(out@) =~= before.push(line_body(line)));
                assert(texts(out@) + lines_of(cs@.skip(at + 1)) =~= before + lines_of(rest));
            }
            from = at + 1;
        } else {
            out.push(text_of(&cs, from, cs.len()));
            proof {
                assert(out@.last()@ =~= rest);
                assert(cs@.skip(cs@.len() as int) =~= Seq::<char>::empty());
                assert(texts(out@) + lines_of(cs@.skip(cs@.len() as int)) =~= before + lines_of(
                    rest,
                ));
            }
            from = cs.len();
        }
    }
    assert(cs@.skip(from as int) =~= Seq::<char>::empty());
    assert(texts(out@) + lines_of(cs@.skip(from as int)) =~= texts(out@));
    assert(cs@ == s@);
    out
}

/// `parts` in order, with `sep` between neighbours.
pub fn join(parts: &Vec<String>, sep: &str) -> (r: String)
    ensures
        r@ == joined(texts(parts@), sep@),
{
    let mut out = String::new();
    let mut i: usize = 0;
    while i < parts.len()
        invariant
            i <= parts@.len(),
            out@ == joined(texts(parts@).take(i as int), sep@),
        decreases parts@.len() - i,
    {
        if i > 0 {
            out.append(sep);
        }
        out.append(parts[i].as_str());
        proof {
            let upto = texts(parts@).take(i + 1);
            assert(upto.drop_last() =~= texts(parts@).take(i as int));
            if i == 0 {
                assert(out@ =~= upto[0]);
            }
        }
        i = i + 1;
    }
    assert(texts(parts@).take(i as int) =~= texts(parts@));
    out
}

/// How many bytes a text is long, as UTF-8.
pub open spec fn byte_count(s: Text) -> u64 {
    (vstd::utf8::encode_utf8(s).len() as usize) as u64
}

/// How many bytes a text is long, as UTF-8.
pub fn byte_len(s: &str) -> (r: u64)
    ensures
        r == byte_count(s@),
{
    s.len() as u64
}

/// A copy of a list of strings.
pub fn copy_list(list: &Vec<String>) -> (r: Vec<String>)
    ensures
        texts(r@) == texts(list@),
{
    let mut out: Vec<String> = Vec::new();
    append_list(&mut out, list);
    assert(texts(out@) =~= texts(list@));
    out
}

/// A list of the strings of `parts`.
pub fn list_of<const N: usize>(parts: [&str; N]) -> (r: Vec<String>)
    ensures
        r@.len() == N,
        forall|i: int| 0 <= i < N ==> (#[trigger] r@[i])@ == parts@[i]@,
{
    let mut out: Vec<String> = Vec::new();
    let mut i: usize = 0;
    while i < N
        invariant
            i <= N,
            out@.len() == i,
            forall|j: int| 0 <= j < i ==> (#[trigger] out@[j])@ == parts@[j]@,
        decreases N - i,
    {
        out.push(parts[i].to_owned());
        i = i + 1;
    }
    out
}

/// Appends a copy of every string of `list`.
pub fn append_list(out: &mut Vec<String>, list: &Vec<String>)
    ensures
        texts(final(out)@) == texts(old(out)@) + texts(list@),
{
    let mut i: usize = 0;
    while i < list.len()
        invariant
            i <= list@.len(),
            texts(out@) == texts(old(out)@) + texts(list@).take(i as int),
        decreases list@.len() - i,
    {
        let ghost before = texts(out@);
        out.push(list[i].clone());
        assert(texts(out@) =~= before.push(list@[i as int]@));
        assert(texts(out@) =~= texts(old(out)@) + texts(list@).take(i + 1));
        i = i + 1;
    }
    assert(texts(list@).take(i as int) =~= texts(list@));
}

/// Whether two lists hold the same strings in the same order.
pub fn same_list(a: &Vec<String>, b: &Vec<String>) -> (r: bool)
    ensures
        r == (texts(a@) == texts(b@)),
{
    if a.len() != b.len() {
        assert(texts(a@).len() != texts(b@).len());
        return false;
    }
    let mut i: usize = 0;
    while i < a.len()
        invariant
            i <= a@.len() == b@.len(),
            forall|j: int| 0 <= j < i ==> a@[j]@ == b@[j]@,
        decreases a@.len() - i,
    {
        if a[i] != b[i] {
            assert(texts(a@)[i as int] != texts(b@)[i as int]);
            return false;
        }
        i = i + 1;
    }
    assert(texts(a@) =~= texts(b@));
    true
}

/// Whether `list` holds `text`.
pub fn list_contains(list: &Vec<String>, text: &str) -> (r: bool)
    ensures
        r == texts(list@).contains(text@),
{
    let mut i: usize = 0;
    while i < list.len()
        invariant
            i <= list@.len(),
            forall|j: int| 0 <= j < i ==> texts(list@)[j] != text@,
        decreases list@.len() - i,
    {
        if same(list[i].as_str(), text) {
            assert(texts(list@)[i as int] == text@);
            return true;
        }
        i = i + 1;
    }
    false
}

// ---------------------------------------------------------------------
// Laws
// ---------------------------------------------------------------------

/// A number is spelled with decimal digits only, at least one of them,
/// and the spelling stands for the number.
proof fn lemma_decimal_digits(n: nat)
    ensures
        decimal(n).len() > 0,
        all_digits(decimal(n)),
        digits_value(decimal(n)) == n,
    decreases n,
{
    if n < 10 {
        let s = decimal(n);
        assert(s.drop_last() =~= Seq::<char>::empty());
        assert(digits_value(s.drop_last()) == 0);
        assert(s.last() == digit(n as int));
        assert(is_digit(digit(n as int)));
        assert(digit_value(digit(n as int)) == n);
    } else {
        lemma_decimal_digits(n / 10);
        let s = decimal(n);
        let d = (n % 10) as int;
        assert(s.drop_last() =~= decimal(n / 10));
        assert(s.last() == digit(d));
        assert(is_digit(digit(d)));
        assert(digit_value(digit(d)) == d);
        assert forall|i: int| 0 <= i < s.len() implies is_digit(#[trigger] s[i]) by {
            if i < s.len() - 1 {
                assert(s[i] == decimal(n / 10)[i]);
            }
        }
    }
}

/// A number that was spelled out is read back, a plus sign before it or
/// not, and is refused exactly where it is over the limit. Its spelling
/// has no other characters than the ten digits, and no zero leads it.
pub proof fn law_a_spelled_number_is_read_back(n: nat, max: nat)
    ensures
        n <= max ==> read_number(decimal(n), max) == Some(n) && read_number(
            seq!['+'] + decimal(n),
            max,
        ) == Some(n),
        n > max ==> read_number(decimal(n), max) is None,
        forall|i: int|
            0 <= i < decimal(n).len() ==> '0' <= #[trigger] decimal(n)[i] && decimal(n)[i] <= '9',
        n > 0 ==> decimal(n)[0] != '0',
        decimal(0) == seq!['0'],
{
    lemma_decimal_digits(n);
    lemma_no_zero_leads(n);
    let s = decimal(n);
    assert(is_digit(s[0]));
    assert(without_plus(s) == s);
    assert((seq!['+'] + s).skip(1) =~= s);
    assert forall|i: int| 0 <= i < s.len() implies '0' <= #[trigger] s[i] && s[i] <= '9' by {
        assert(is_digit(s[i]));
    }
    assert(digit(0) == '0');
}

/// No zero leads the spelling of a number but of zero.
proof fn lemma_no_zero_leads(n: nat)
    ensures
        n > 0 ==> decimal(n)[0] != '0',
    decreases n,
{
    if n >= 10 {
        lemma_no_zero_leads(n / 10);
        lemma_decimal_digits(n / 10);
        assert(decimal(n)[0] == decimal(n / 10)[0]);
    } else if n > 0 {
        assert(digit(n as int) as int == 48 + n);
    }
}

/// Nothing but digits is a number: one other character, wherever it
/// stands, makes a text none, and so does a text without any.
pub proof fn law_nothing_but_digits_is_a_number(s: Text, i: int, max: nat)
    ensures
        s.len() == 0 ==> read_number(s, max) is None,
        0 < i < s.len() && !('0' <= s[i] && s[i] <= '9') ==> read_number(s, max) is None,
        s.len() > 0 && s[0] != '+' && !('0' <= s[0] && s[0] <= '9') ==> read_number(s, max) is None,
        s == seq!['+'] ==> read_number(s, max) is None,
        read_number(s, max) matches Some(n) ==> n <= max,
{
    if 0 < i < s.len() && !('0' <= s[i] && s[i] <= '9') {
        let body = without_plus(s);
        if s[0] == '+' {
            assert(body[i - 1] == s[i]);
            assert(!is_digit(body[i - 1]));
        } else {
            assert(!is_digit(body[i]));
        }
    }
    if s.len() > 0 && s[0] != '+' && !('0' <= s[0] && s[0] <= '9') {
        assert(!is_digit(without_plus(s)[0]));
    }
}

/// A negative number is spelled with a minus sign before its digits.
pub proof fn law_a_negative_number_has_a_sign(n: int)
    ensures
        n >= 0 ==> signed_decimal(n) == decimal(n as nat),
        n < 0 ==> signed_decimal(n).len() > 1 && signed_decimal(n)[0] == '-' && signed_decimal(
            n,
        ).skip(1) == decimal((-n) as nat),
{
    if n < 0 {
        lemma_decimal_digits((-n) as nat);
        assert(signed_decimal(n).skip(1) =~= decimal((-n) as nat));
    }
}

/// A hexadecimal digit is one of `0` to `9` and `a` to `f`, and a number
/// ends in the digit of what is left when it is divided by sixteen.
pub proof fn law_a_hexadecimal_digit_is_a_digit_or_a_small_letter(d: int, n: nat)
    requires
        0 <= d < 16,
    ensures
        d < 10 ==> hex_digit(d) as int == '0' as int + d,
        d >= 10 ==> hex_digit(d) as int == 'a' as int + (d - 10),
        hexadecimal(n).len() > 0,
        n % 16 == d ==> hexadecimal(n).last() == hex_digit(d),
        n >= 16 ==> hexadecimal(n).drop_last() == hexadecimal(n / 16),
        n < 16 ==> hexadecimal(n).len() == 1,
{
    if n >= 16 {
        assert(hexadecimal(n).drop_last() =~= hexadecimal(n / 16));
    }
}

/// A text in small letters has no ASCII capital, each capital has become
/// its small letter, and every other character is as it was; making small
/// once more changes nothing.
pub proof fn law_capital_letters_become_small(s: Text, i: int)
    requires
        0 <= i < s.len(),
    ensures
        lower(s).len() == s.len(),
        'A' <= s[i] && s[i] <= 'Z' ==> lower(s)[i] as int == s[i] as int + ('a' as int
            - 'A' as int),
        !('A' <= s[i] && s[i] <= 'Z') ==> lower(s)[i] == s[i],
        lower(lower(s)) == lower(s),
{
    assert forall|k: int| 0 <= k < s.len() implies lower(lower(s))[k] == lower(s)[k] by {
        let c = lower(s)[k];
        assert(lower_char(c) == c);
    }
    assert(lower(lower(s)) =~= lower(s));
}

/// Blanks, tabs and line ends are white space; digits, letters and
/// punctuation marks are not.
pub proof fn law_blanks_and_line_ends_are_space(c: char)
    ensures
        c == ' ' || c == '\t' || c == '\n' || c == '\r' ==> is_space(c),
        '!' <= c && c <= '~' ==> !is_space(c),
{
}

/// White space around a text is taken off at both ends, and nothing else
/// is: what is left is what stood between.
pub proof fn law_space_is_taken_off_both_ends(before: Text, middle: Text, after: Text)
    requires
        forall|i: int| 0 <= i < before.len() ==> is_space(#[trigger] before[i]),
        forall|i: int| 0 <= i < after.len() ==> is_space(#[trigger] after[i]),
        middle.len() > 0,
        !is_space(middle[0]),
        !is_space(middle.last()),
    ensures
        trimmed(before + middle + after) == middle,
{
    lemma_lead_taken_off(before, middle + after);
    assert(before + middle + after =~= before + (middle + after));
    lemma_end_taken_off(middle, after);
}

proof fn lemma_lead_taken_off(before: Text, rest: Text)
    requires
        forall|i: int| 0 <= i < before.len() ==> is_space(#[trigger] before[i]),
        rest.len() > 0,
        !is_space(rest[0]),
    ensures
        trim_start(before + rest) == rest,
    decreases before.len(),
{
    let whole = before + rest;
    if before.len() == 0 {
        assert(whole =~= rest);
    } else {
        assert(whole[0] == before[0]);
        assert(whole.drop_first() =~= before.drop_first() + rest);
        assert forall|i: int| 0 <= i < before.drop_first().len() implies is_space(
            #[trigger] before.drop_first()[i],
        ) by {
            assert(before.drop_first()[i] == before[i + 1]);
        }
        lemma_lead_taken_off(before.drop_first(), rest);
    }
}

proof fn lemma_end_taken_off(rest: Text, after: Text)
    requires
        forall|i: int| 0 <= i < after.len() ==> is_space(#[trigger] after[i]),
        rest.len() > 0,
        !is_space(rest.last()),
    ensures
        trim_end(rest + after) == rest,
    decreases after.len(),
{
    let whole = rest + after;
    if after.len() == 0 {
        assert(whole =~= rest);
    } else {
        assert(whole.last() == after[after.len() - 1]);
        assert(whole.drop_last() =~= rest + after.drop_last());
        assert forall|i: int| 0 <= i < after.drop_last().len() implies is_space(
            #[trigger] after.drop_last()[i],
        ) by {
            assert(after.drop_last()[i] == after[i]);
        }
        lemma_end_taken_off(rest, after.drop_last());
    }
}

/// A line ends at its line feed, with the carriage return before it where
/// there is one; the last line needs none, and a text without characters
/// has no lines.
pub proof fn law_a_line_ends_at_its_line_feed(line: Text, rest: Text)
    requires
        !line.contains('\n'),
    ensures
        lines_of(line + seq!['\n'] + rest) == seq![
            if line.len() > 0 && line.last() == '\r' {
                line.drop_last()
            } else {
                line
            },
        ] + lines_of(rest),
        line.len() > 0 ==> lines_of(line) == seq![line],
        lines_of(Seq::empty()).len() == 0,
{
    let whole = line + seq!['\n'] + rest;
    lemma_split_at_mark(line, '\n', rest);
    lemma_first_of(whole, '\n');
    lemma_first_of(line, '\n');
    assert(whole.contains('\n'));
    let at = first_of(whole, '\n');
    assert(whole.take(at) == line);
    assert(whole.skip(at + 1) == rest);
}

/// Two lists put one behind the other are joined with one more separator
/// between them; a list of one is joined to that one, and none to nothing.
pub proof fn law_a_separator_stands_between_neighbours(
    first: Seq<Text>,
    second: Seq<Text>,
    one: Text,
    sep: Text,
)
    ensures
        first.len() > 0 && second.len() > 0 ==> joined(first + second, sep) == joined(first, sep)
            + sep + joined(second, sep),
        joined(seq![one], sep) == one,
        joined(Seq::empty(), sep).len() == 0,
    decreases second.len(),
{
    if first.len() > 0 && second.len() > 0 {
        let all = first + second;
        assert(all.last() == second.last());
        if second.len() == 1 {
            assert(all.drop_last() =~= first);
            assert(joined(all, sep) =~= joined(first, sep) + sep + joined(second, sep));
        } else {
            assert(all.drop_last() =~= first + second.drop_last());
            law_a_separator_stands_between_neighbours(first, second.drop_last(), one, sep);
            assert(joined(all, sep) =~= joined(first, sep) + sep + joined(second, sep));
        }
    }
}

/// A list reads as its entries, each quoted, in square brackets and with
/// commas between: a list of none as the brackets alone, and each further
/// entry stands behind a comma before the closing bracket.
pub proof fn law_a_list_reads_in_brackets(list: Seq<Text>, entry: Text)
    ensures
        debug_list_text(Seq::empty()) == "["@ + "]"@,
        debug_list_text(seq![entry]) == "["@ + debug_text(entry) + "]"@,
        list.len() > 0 ==> debug_list_text(list.push(entry)) == debug_list_text(list).drop_last()
            + ", "@ + debug_text(entry) + "]"@,
{
    reveal_strlit("]");
    let none = Seq::<Text>::empty();
    assert(Seq::new(none.len(), |i: int| debug_text(none[i])) =~= Seq::<Text>::empty());
    assert("["@ + Seq::<char>::empty() =~= "["@);
    let one = seq![entry];
    assert(Seq::new(one.len(), |i: int| debug_text(one[i])) =~= seq![debug_text(entry)]);
    if list.len() > 0 {
        let longer = list.push(entry);
        let quoted = Seq::new(list.len(), |i: int| debug_text(list[i]));
        let all = Seq::new(longer.len(), |i: int| debug_text(longer[i]));
        assert(all.drop_last() =~= quoted);
        assert(all.last() == debug_text(entry));
        assert(joined(all, ", "@) == joined(quoted, ", "@) + ", "@ + debug_text(entry));
        assert(debug_list_text(list).drop_last() =~= "["@ + joined(quoted, ", "@));
        assert(debug_list_text(longer) =~= debug_list_text(list).drop_last() + ", "@ + debug_text(
            entry,
        ) + "]"@);
    }
}

/// The two sides of the first mark are what stood around it, and put
/// together again they are the text.
pub proof fn law_a_text_is_cut_at_its_first_mark(before: Text, c: char, after: Text)
    ensures
        !before.contains(c) ==> split_at_first(before + seq![c] + after, c) == Some(
            (before, after),
        ),
        !before.contains(c) ==> split_at_first(before, c) is None,
        match split_at_first(after, c) {
            Some((first, rest)) => after == first + seq![c] + rest && !first.contains(c),
            None => !after.contains(c),
        },
{
    lemma_split_puts_together(after, c);
    if !before.contains(c) {
        lemma_split_at_mark(before, c, after);
    }
}

/// White space is what Unicode calls so, and nothing else.
pub proof fn law_white_space_is_what_unicode_calls_so(c: char)
    ensures
        is_space(c) <==> seq![
            0x9int,
            0xA,
            0xB,
            0xC,
            0xD,
            0x20,
            0x85,
            0xA0,
            0x1680,
            0x2000,
            0x2001,
            0x2002,
            0x2003,
            0x2004,
            0x2005,
            0x2006,
            0x2007,
            0x2008,
            0x2009,
            0x200A,
            0x2028,
            0x2029,
            0x202F,
            0x205F,
            0x3000,
        ].contains(c as int),
{
    let all = seq![
        0x9int,
        0xA,
        0xB,
        0xC,
        0xD,
        0x20,
        0x85,
        0xA0,
        0x1680,
        0x2000,
        0x2001,
        0x2002,
        0x2003,
        0x2004,
        0x2005,
        0x2006,
        0x2007,
        0x2008,
        0x2009,
        0x200A,
        0x2028,
        0x2029,
        0x202F,
        0x205F,
        0x3000,
    ];
    let n = c as int;
    assert(all[0] == 0x9 && all[1] == 0xA && all[2] == 0xB && all[3] == 0xC && all[4] == 0xD);
    assert(all[5] == 0x20 && all[6] == 0x85 && all[7] == 0xA0 && all[8] == 0x1680);
    assert(all[9] == 0x2000 && all[10] == 0x2001 && all[11] == 0x2002 && all[12] == 0x2003);
    assert(all[13] == 0x2004 && all[14] == 0x2005 && all[15] == 0x2006 && all[16] == 0x2007);
    assert(all[17] == 0x2008 && all[18] == 0x2009 && all[19] == 0x200A && all[20] == 0x2028);
    assert(all[21] == 0x2029 && all[22] == 0x202F && all[23] == 0x205F && all[24] == 0x3000);
    if all.contains(n) {
        let i = all.index_of(n);
        assert(all[i] == n);
    }
}

/// The length of a text is counted in the bytes of its UTF-8 form.
pub proof fn law_a_length_is_counted_in_bytes(s: Text)
    requires
        vstd::utf8::encode_utf8(s).len() <= usize::MAX,
    ensures
        byte_count(s) == vstd::utf8::encode_utf8(s).len(),
{
}

} // verus!
