//! A small map keyed by name, kept in the order of its names.

use crate::text;
use crate::text::{chars_of, Text};
use vstd::prelude::*;

verus! {

/// Whether `a` comes before `b`, character by character.
pub open spec fn precedes(a: Text, b: Text) -> bool
    decreases b.len(),
{
    if b.len() == 0 {
        false
    } else if a.len() == 0 {
        true
    } else if a[0] == b[0] {
        precedes(a.drop_first(), b.drop_first())
    } else {
        a[0] < b[0]
    }
}

/// No name comes before itself.
proof fn lemma_irreflexive(a: Text)
    ensures
        !precedes(a, a),
    decreases a.len(),
{
    if a.len() > 0 {
        lemma_irreflexive(a.drop_first());
    }
}

/// What comes before the earlier comes before the later.
proof fn lemma_transitive(a: Text, b: Text, c: Text)
    requires
        precedes(a, b),
        precedes(b, c),
    ensures
        precedes(a, c),
    decreases c.len(),
{
    if a.len() > 0 && a[0] == b[0] && b[0] == c[0] {
        lemma_transitive(a.drop_first(), b.drop_first(), c.drop_first());
    }
}

/// Of two different names one comes first.
proof fn lemma_total(a: Text, b: Text)
    ensures
        a == b || precedes(a, b) || precedes(b, a),
    decreases b.len(),
{
    if a.len() == 0 || b.len() == 0 {
        if a.len() == 0 && b.len() == 0 {
            assert(a =~= b);
        }
    } else if a[0] == b[0] {
        lemma_total(a.drop_first(), b.drop_first());
        if a.drop_first() == b.drop_first() {
            assert(a =~= seq![a[0]] + a.drop_first());
            assert(b =~= seq![b[0]] + b.drop_first());
        }
    }
}

/// A shared beginning does not decide which of two texts comes first.
proof fn lemma_shared_prefix(a: Text, b: Text, at: int)
    requires
        0 <= at <= a.len(),
        at <= b.len(),
        forall|j: int| 0 <= j < at ==> a[j] == b[j],
    ensures
        precedes(a, b) == precedes(a.skip(at), b.skip(at)),
    decreases at,
{
    if at == 0 {
        assert(a.skip(0) =~= a);
        assert(b.skip(0) =~= b);
    } else {
        let c = a.drop_first();
        let d = b.drop_first();
        assert forall|j: int| 0 <= j < at - 1 implies c[j] == d[j] by {
            assert(c[j] == a[j + 1]);
            assert(d[j] == b[j + 1]);
        }
        lemma_shared_prefix(c, d, at - 1);
        assert(c.skip(at - 1) =~= a.skip(at));
        assert(d.skip(at - 1) =~= b.skip(at));
    }
}

/// Whether `a` comes before `b`.
pub fn before(a: &str, b: &str) -> (r: bool)
    ensures
        r == precedes(a@, b@),
{
    let x = chars_of(a);
    let y = chars_of(b);
    let mut i: usize = 0;
    while i < x.len() && i < y.len() && x[i] == y[i]
        invariant
            i <= x@.len(),
            i <= y@.len(),
            forall|j: int| 0 <= j < i ==> x@[j] == y@[j],
        decreases x@.len() - i,
    {
        i = i + 1;
    }
    proof {
        lemma_shared_prefix(x@, y@, i as int);
    }
    if i == y.len() {
        false
    } else if i == x.len() {
        true
    } else {
        x[i] < y[i]
    }
}

/// Values by name, in the order of their names.
#[derive(Debug, PartialEq, Eq)]
pub struct NameMap<V> {
    /// The entries, each name once, in the order of the names.
    pub entries: Vec<(String, V)>,
}

/// The names of a list of entries.
pub open spec fn names_of<V>(entries: Seq<(String, V)>) -> Seq<Text> {
    Seq::new(entries.len(), |i: int| entries[i].0@)
}

/// Whether every name comes before all later ones.
pub open spec fn in_order(names: Seq<Text>) -> bool {
    forall|i: int, j: int|
        0 <= i < j < names.len() ==> precedes(#[trigger] names[i], #[trigger] names[j])
}

/// Whether `name` stands at position `at` among `entries`.
pub open spec fn named_at<V>(entries: Seq<(String, V)>, name: Text, at: int) -> bool {
    0 <= at < entries.len() && entries[at].0@ == name
}

impl<V> NameMap<V> {
    /// The names, in their order.
    pub open spec fn names(&self) -> Seq<Text> {
        names_of(self.entries@)
    }

    /// Each name stands once, and the names stand in their order.
    pub open spec fn wf(&self) -> bool {
        in_order(self.names())
    }

    /// The value of each name.
    pub open spec fn as_map(&self) -> Map<Text, V> {
        Map::new(
            |name: Text| self.names().contains(name),
            |name: Text|
                self.entries@[choose|at: int| named_at(self.entries@, name, at)].1,
        )
    }

    /// A name stands at one position only.
    proof fn lemma_one_place(&self, i: int, j: int)
        requires
            self.wf(),
            0 <= i < self.entries@.len(),
            0 <= j < self.entries@.len(),
            self.entries@[i].0@ == self.entries@[j].0@,
        ensures
            i == j,
    {
        lemma_irreflexive(self.entries@[i].0@);
        if i < j {
            assert(precedes(self.names()[i], self.names()[j]));
        }
        if j < i {
            assert(precedes(self.names()[j], self.names()[i]));
        }
    }

    /// The value of a name is the one that stands beside it.
    pub proof fn lemma_value_at(&self, at: int)
        requires
            self.wf(),
            0 <= at < self.entries@.len(),
        ensures
            self.as_map().contains_pair(self.entries@[at].0@, self.entries@[at].1),
    {
        let name = self.entries@[at].0@;
        assert(self.names()[at] == name);
        assert(named_at(self.entries@, name, at));
        let chosen = choose|i: int| named_at(self.entries@, name, i);
        self.lemma_one_place(at, chosen);
    }

    /// A map that names nothing.
    pub fn new() -> (r: Self)
        ensures
            r.wf(),
            r.entries@.len() == 0,
            r.as_map() == Map::<Text, V>::empty(),
    {
        let r = NameMap { entries: Vec::new() };
        assert(r.as_map() =~= Map::<Text, V>::empty());
        r
    }

    /// Gives `name` the value `value`, in place of any earlier one.
    pub fn insert(&mut self, name: String, value: V)
        requires
            old(self).wf(),
        ensures
            final(self).wf(),
            final(self).as_map() == old(self).as_map().insert(name@, value),
    {
        let ghost before_names = self.names();
        let mut at: usize = 0;
        while at < self.entries.len() && before(self.entries[at].0.as_str(), name.as_str())
            invariant
                at <= self.entries@.len(),
                self == old(self),
                forall|j: int| 0 <= j < at ==> precedes(self.names()[j], name@),
            decreases self.entries@.len() - at,
        {
            assert(precedes(self.names()[at as int], name@));
            at = at + 1;
        }
        if at < self.entries.len() && self.entries[at].0.as_str().to_owned() == name {
            self.entries.set(at, (name, value));
            proof {
                assert(self.names() =~= before_names);
                self.lemma_replaced(*old(self), at as int, name@, value);
            }
        } else {
            let ghost key = name@;
            self.entries.insert(at, (name, value));
            proof {
                self.lemma_inserted(*old(self), at as int, key, value);
            }
        }
    }

    /// Replacing the value beside a name replaces it in the map.
    proof fn lemma_replaced(self, was: Self, at: int, name: Text, value: V)
        requires
            was.wf(),
            0 <= at < was.entries@.len(),
            was.entries@[at].0@ == name,
            self.entries@.len() == was.entries@.len(),
            self.names() == was.names(),
            self.entries@[at].1 == value,
            forall|i: int|
                0 <= i < was.entries@.len() && i != at ==> self.entries@[i] == was.entries@[i],
        ensures
            self.wf(),
            self.as_map() == was.as_map().insert(name, value),
    {
        let now = self.as_map();
        let then = was.as_map().insert(name, value);
        assert(self.names()[at] == name);
        assert forall|key: Text| now.contains_key(key) <==> then.contains_key(key) by {}
        assert forall|key: Text| now.contains_key(key) implies now[key] == then[key] by {
            let i = choose|i: int| 0 <= i < self.names().len() && self.names()[i] == key;
            self.lemma_value_at(i);
            was.lemma_value_at(i);
            assert(was.names()[i] == key);
            if i == at {
                assert(key == name);
            } else if key == name {
                was.lemma_one_place(i, at);
            }
        }
        assert(now =~= then);
    }

    /// Inserting an entry between the names before it and those after it
    /// keeps the order and adds the name to the map.
    proof fn lemma_inserted(self, was: Self, at: int, name: Text, value: V)
        requires
            was.wf(),
            0 <= at <= was.entries@.len(),
            forall|j: int| 0 <= j < at ==> precedes(was.names()[j], name),
            at < was.entries@.len() ==> was.names()[at] != name && !precedes(
                was.names()[at],
                name,
            ),
            self.entries@.len() == was.entries@.len() + 1,
            self.entries@[at].0@ == name,
            self.entries@[at].1 == value,
            forall|i: int| 0 <= i < at ==> self.entries@[i] == was.entries@[i],
            forall|i: int| at < i <= was.entries@.len() ==> self.entries@[i] == was.entries@[i - 1],
        ensures
            self.wf(),
            self.as_map() == was.as_map().insert(name, value),
    {
        if at < was.entries@.len() {
            lemma_total(was.names()[at], name);
        }
        assert forall|i: int, j: int| 0 <= i < j < self.names().len() implies precedes(
            #[trigger] self.names()[i],
            #[trigger] self.names()[j],
        ) by {
            if i < at && j == at {
                assert(self.names()[i] == was.names()[i]);
            } else if i < at && j > at {
                assert(self.names()[i] == was.names()[i]);
                assert(self.names()[j] == was.names()[j - 1]);
                assert(precedes(was.names()[i], was.names()[j - 1]));
            } else if i < at {
                assert(self.names()[i] == was.names()[i]);
                assert(self.names()[j] == was.names()[j]);
            } else if i == at {
                assert(self.names()[j] == was.names()[j - 1]);
                if j - 1 > at {
                    assert(precedes(was.names()[at], was.names()[j - 1]));
                    lemma_transitive(name, was.names()[at], was.names()[j - 1]);
                }
            } else {
                assert(self.names()[i] == was.names()[i - 1]);
                assert(self.names()[j] == was.names()[j - 1]);
                assert(precedes(was.names()[i - 1], was.names()[j - 1]));
            }
        }
        let now = self.as_map();
        let then = was.as_map().insert(name, value);
        self.lemma_value_at(at);
        assert forall|key: Text| #[trigger] now.contains_key(key) implies then.contains_key(key)
            && now[key] == then[key] by {
            let i = choose|i: int| 0 <= i < self.names().len() && self.names()[i] == key;
            self.lemma_value_at(i);
            if i < at {
                assert(was.names()[i] == key);
                was.lemma_value_at(i);
            } else if i > at {
                assert(was.names()[i - 1] == key);
                was.lemma_value_at(i - 1);
            }
            if key == name {
                self.lemma_one_place(i, at);
            }
        }
        assert forall|key: Text| #[trigger] then.contains_key(key) implies now.contains_key(
            key,
        ) by {
            if key == name {
                assert(self.names()[at] == key);
            } else {
                let i = choose|i: int| 0 <= i < was.names().len() && was.names()[i] == key;
                if i < at {
                    assert(self.names()[i] == key);
                } else {
                    assert(self.names()[i + 1] == key);
                }
            }
        }
        assert(now.dom() =~= then.dom());
        assert(now =~= then);
    }

    /// The value of `name`, when the map names it.
    pub fn get(&self, name: &str) -> (r: Option<&V>)
        requires
            self.wf(),
        ensures
            match r {
                Some(value) => self.as_map().contains_pair(name@, *value),
                None => !self.as_map().contains_key(name@),
            },
    {
        let mut i: usize = 0;
        while i < self.entries.len()
            invariant
                i <= self.entries@.len(),
                self.wf(),
                forall|j: int| 0 <= j < i ==> self.names()[j] != name@,
            decreases self.entries@.len() - i,
        {
            if text::same(self.entries[i].0.as_str(), name) {
                proof {
                    self.lemma_value_at(i as int);
                }
                return Some(&self.entries[i].1);
            }
            assert(self.names()[i as int] != name@);
            i = i + 1;
        }
        None
    }

    /// Whether the map names nothing.
    pub fn is_empty(&self) -> (r: bool)
        ensures
            r == (self.names().len() == 0),
    {
        self.entries.len() == 0
    }

    /// The names, in their order.
    pub fn keys(&self) -> (r: Vec<String>)
        ensures
            text::texts(r@) == self.names(),
    {
        let mut out: Vec<String> = Vec::new();
        let mut i: usize = 0;
        while i < self.entries.len()
            invariant
                i <= self.entries@.len(),
                text::texts(out@) == self.names().take(i as int),
            decreases self.entries@.len() - i,
        {
            let ghost sofar = text::texts(out@);
            out.push(self.entries[i].0.clone());
            assert(text::texts(out@) =~= sofar.push(self.names()[i as int]));
            assert(text::texts(out@) =~= self.names().take(i + 1));
            i = i + 1;
        }
        assert(text::texts(out@) =~= self.names());
        out
    }
}

impl<V> Default for NameMap<V> {
    /// A map that names nothing.
    fn default() -> (r: Self)
        ensures
            r.wf(),
            r.entries@.len() == 0,
    {
        NameMap::new()
    }
}

/// Environment variables or request headers by name, resolved.
pub type EnvMap = NameMap<String>;

/// Names stand in the order of their characters: the first place where two
/// names differ decides, and a name comes before every longer one that
/// begins with it.
pub proof fn law_the_first_difference_decides(a: Text, b: Text, at: int)
    requires
        0 <= at <= a.len(),
        at < b.len(),
        forall|j: int| 0 <= j < at ==> a[j] == b[j],
    ensures
        at == a.len() ==> precedes(a, b) && !precedes(b, a),
        at < a.len() && a[at] < b[at] ==> precedes(a, b) && !precedes(b, a),
        at < a.len() && b[at] < a[at] ==> precedes(b, a) && !precedes(a, b),
        !precedes(a, a),
{
    lemma_shared_prefix(a, b, at);
    lemma_shared_prefix(b, a, at);
    lemma_irreflexive(a);
    let x = a.skip(at);
    let y = b.skip(at);
    assert(y[0] == b[at]);
    if at < a.len() {
        assert(x[0] == a[at]);
    }
}

/// The names of a map rise: each comes before every later one, so none
/// stands twice.
pub proof fn law_names_rise<V>(map: NameMap<V>, i: int, j: int)
    requires
        map.wf(),
        0 <= i < j < map.entries@.len(),
    ensures
        precedes(map.entries@[i].0@, map.entries@[j].0@),
        map.entries@[i].0@ != map.entries@[j].0@,
{
    assert(precedes(map.names()[i], map.names()[j]));
    lemma_irreflexive(map.entries@[i].0@);
}

} // verus!
