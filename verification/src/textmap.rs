//! A small map from text to text that keeps the order of insertion.

use vstd::prelude::*;
use crate::text::same;

verus! {

/// The value that the first entry with key `k` holds.
pub open spec fn lookup(entries: Seq<(String, String)>, k: Seq<char>) -> Option<Seq<char>>
    decreases entries.len(),
{
    if entries.len() == 0 {
        None
    } else if entries[0].0@ == k {
        Some(entries[0].1@)
    } else {
        lookup(entries.skip(1), k)
    }
}

/// The map that a list of entries stands for.
pub open spec fn map_of(entries: Seq<(String, String)>) -> Map<Seq<char>, Seq<char>> {
    Map::new(
        |k: Seq<char>| lookup(entries, k) is Some,
        |k: Seq<char>| lookup(entries, k)->0,
    )
}

/// Whether no two entries have the same key.
pub open spec fn distinct_keys(entries: Seq<(String, String)>) -> bool {
    forall|i: int, j: int|
        0 <= i < j < entries.len() ==> (#[trigger] entries[i]).0@ != (#[trigger] entries[j]).0@
}

proof fn lemma_lookup(entries: Seq<(String, String)>, k: Seq<char>)
    ensures
        match lookup(entries, k) {
            Some(v) => exists|i: int|
                0 <= i < entries.len() && (#[trigger] entries[i]).0@ == k && entries[i].1@ == v,
            None => forall|i: int| 0 <= i < entries.len() ==> (#[trigger] entries[i]).0@ != k,
        },
    decreases entries.len(),
{
    if entries.len() > 0 && entries[0].0@ != k {
        let rest = entries.skip(1);
        lemma_lookup(rest, k);
        assert forall|i: int| 0 <= i < rest.len() implies rest[i] == entries[i + 1] by {}
        match lookup(rest, k) {
            Some(v) => {
                let i = choose|i: int|
                    0 <= i < rest.len() && (#[trigger] rest[i]).0@ == k && rest[i].1@ == v;
                assert(entries[i + 1].0@ == k && entries[i + 1].1@ == v);
            },
            None => {
                assert forall|i: int| 0 <= i < entries.len() implies (#[trigger] entries[i]).0@
                    != k by {
                    if i > 0 {
                        assert(rest[i - 1] == entries[i]);
                    }
                }
            },
        }
    }
}

/// The first entry with a key decides the lookup.
proof fn lemma_lookup_at(entries: Seq<(String, String)>, k: Seq<char>, i: int)
    requires
        0 <= i < entries.len(),
        entries[i].0@ == k,
        forall|j: int| 0 <= j < i ==> (#[trigger] entries[j]).0@ != k,
    ensures
        lookup(entries, k) == Some(entries[i].1@),
    decreases i,
{
    if i > 0 {
        let rest = entries.skip(1);
        assert forall|j: int| 0 <= j < i - 1 implies (#[trigger] rest[j]).0@ != k by {
            assert(rest[j] == entries[j + 1]);
        }
        assert(rest[i - 1] == entries[i]);
        lemma_lookup_at(rest, k, i - 1);
    }
}

proof fn lemma_lookup_none(entries: Seq<(String, String)>, k: Seq<char>)
    requires
        forall|j: int| 0 <= j < entries.len() ==> (#[trigger] entries[j]).0@ != k,
    ensures
        lookup(entries, k) is None,
{
    lemma_lookup(entries, k);
}

/// A map from text to text.
#[derive(Debug)]
pub struct TextMap {
    entries: Vec<(String, String)>,
}

impl View for TextMap {
    type V = Map<Seq<char>, Seq<char>>;

    closed spec fn view(&self) -> Map<Seq<char>, Seq<char>> {
        map_of(self.entries@)
    }
}

impl TextMap {
    #[verifier::type_invariant]
    closed spec fn keys_differ(self) -> bool {
        distinct_keys(self.entries@)
    }

    /// The entries, each key once, in the order in which the keys came.
    pub closed spec fn listed(&self) -> Seq<(String, String)> {
        self.entries@
    }

    /// The map without entries.
    pub fn new() -> (r: Self)
        ensures
            r@ == Map::<Seq<char>, Seq<char>>::empty(),
    {
        let r = TextMap { entries: Vec::new() };
        assert(r@ =~= Map::<Seq<char>, Seq<char>>::empty());
        r
    }

    fn position(&self, key: &str) -> (r: Option<usize>)
        ensures
            match r {
                Some(i) => i < self.entries@.len() && self.entries@[i as int].0@ == key@
                    && lookup(self.entries@, key@) == Some(self.entries@[i as int].1@) && forall|
                    j: int,
                |
                    0 <= j < i ==> (#[trigger] self.entries@[j]).0@ != key@,
                None => lookup(self.entries@, key@) is None && forall|j: int|
                    0 <= j < self.entries@.len() ==> (#[trigger] self.entries@[j]).0@ != key@,
            },
    {
        let mut i: usize = 0;
        while i < self.entries.len()
            invariant
                i <= self.entries@.len(),
                forall|j: int| 0 <= j < i ==> (#[trigger] self.entries@[j]).0@ != key@,
            decreases self.entries@.len() - i,
        {
            if same(self.entries[i].0.as_str(), key) {
                proof {
                    lemma_lookup_at(self.entries@, key@, i as int);
                }
                return Some(i);
            }
            i = i + 1;
        }
        proof {
            lemma_lookup_none(self.entries@, key@);
        }
        None
    }

    /// The value of `key`.
    pub fn get(&self, key: &str) -> (r: Option<&str>)
        ensures
            match r {
                Some(v) => self@.contains_key(key@) && v@ == self@[key@],
                None => !self@.contains_key(key@),
            },
    {
        match self.position(key) {
            Some(i) => Some(self.entries[i].1.as_str()),
            None => None,
        }
    }

    /// Gives `key` the value `value`, in place of any earlier one.
    pub fn insert(&mut self, key: String, value: String)
        ensures
            final(self)@ == old(self)@.insert(key@, value@),
    {
        proof {
            use_type_invariant(&*self);
        }
        let found = self.position(key.as_str());
        let ghost before = self.entries@;
        let ghost k = key@;
        let ghost v = value@;
        match found {
            Some(i) => {
                let mut entries: Vec<(String, String)> = Vec::new();
                std::mem::swap(&mut entries, &mut self.entries);
                entries.set(i, (key, value));
                proof {
                    assert forall|x: int, y: int| 0 <= x < y < entries@.len() implies (
                    #[trigger] entries@[x]).0@ != (#[trigger] entries@[y]).0@ by {
                        assert(before[x].0@ != before[y].0@);
                        assert(entries@[x].0@ == before[x].0@);
                        assert(entries@[y].0@ == before[y].0@);
                    }
                }
                *self = TextMap { entries };
            },
            None => {
                let mut entries: Vec<(String, String)> = Vec::new();
                std::mem::swap(&mut entries, &mut self.entries);
                entries.push((key, value));
                proof {
                    assert forall|x: int, y: int| 0 <= x < y < entries@.len() implies (
                    #[trigger] entries@[x]).0@ != (#[trigger] entries@[y]).0@ by {
                        if y < before.len() {
                            assert(before[x].0@ != before[y].0@);
                        } else {
                            assert(before[x].0@ != k);
                        }
                    }
                }
                *self = TextMap { entries };
            },
        }
        proof {
            assert forall|q: Seq<char>| lookup(self.entries@, q) == (if q == k {
                Some(v)
            } else {
                lookup(before, q)
            }) by {
                match found {
                    Some(i) => lemma_lookup_set(before, self.entries@, i as int, k, v, q),
                    None => lemma_lookup_push(before, self.entries@, k, v, q),
                }
            }
            assert(self@ =~= old(self)@.insert(k, v));
        }
    }

    /// Takes the entry of `key` out and gives its value.
    pub fn remove(&mut self, key: &str) -> (r: Option<String>)
        ensures
            final(self)@ == old(self)@.remove(key@),
            match r {
                Some(v) => old(self)@.contains_key(key@) && v@ == old(self)@[key@],
                None => !old(self)@.contains_key(key@),
            },
    {
        proof {
            use_type_invariant(&*self);
        }
        let ghost before = self.entries@;
        match self.position(key) {
            Some(i) => {
                let mut entries: Vec<(String, String)> = Vec::new();
                std::mem::swap(&mut entries, &mut self.entries);
                let (_, value) = entries.remove(i);
                proof {
                    assert forall|x: int, y: int| 0 <= x < y < entries@.len() implies (
                    #[trigger] entries@[x]).0@ != (#[trigger] entries@[y]).0@ by {
                        let x0 = if x < i { x } else { x + 1 };
                        let y0 = if y < i { y } else { y + 1 };
                        assert(before[x0].0@ != before[y0].0@);
                    }
                    assert forall|q: Seq<char>| lookup(entries@, q) == (if q == key@ {
                        None
                    } else {
                        lookup(before, q)
                    }) by {
                        lemma_lookup_remove(before, entries@, i as int, key@, q);
                    }
                }
                *self = TextMap { entries };
                assert(self@ =~= old(self)@.remove(key@));
                Some(value)
            },
            None => {
                assert(self@ =~= old(self)@.remove(key@));
                None
            },
        }
    }

    /// The entries, each key once, in the order in which the keys came.
    pub fn entries(&self) -> (r: &Vec<(String, String)>)
        ensures
            r@ == self.listed(),
            self@ == map_of(r@),
            distinct_keys(r@),
    {
        proof {
            use_type_invariant(self);
        }
        &self.entries
    }

    /// A map with the same entries.
    pub fn copy(&self) -> (r: Self)
        ensures
            r@ == self@,
            r.listed() == self.listed(),
    {
        proof {
            use_type_invariant(self);
        }
        let mut entries: Vec<(String, String)> = Vec::new();
        let mut i: usize = 0;
        while i < self.entries.len()
            invariant
                i <= self.entries@.len(),
                entries@ == self.entries@.take(i as int),
            decreases self.entries@.len() - i,
        {
            entries.push((self.entries[i].0.clone(), self.entries[i].1.clone()));
            assert(self.entries@.take(i + 1) =~= self.entries@.take(i as int).push(
                self.entries@[i as int],
            ));
            i = i + 1;
        }
        assert(entries@ =~= self.entries@);
        TextMap { entries }
    }
}

proof fn lemma_lookup_set(
    before: Seq<(String, String)>,
    after: Seq<(String, String)>,
    i: int,
    k: Seq<char>,
    v: Seq<char>,
    q: Seq<char>,
)
    requires
        0 <= i < before.len() == after.len(),
        before[i].0@ == k,
        forall|j: int| 0 <= j < i ==> (#[trigger] before[j]).0@ != k,
        after[i].0@ == k,
        after[i].1@ == v,
        forall|j: int| 0 <= j < after.len() && j != i ==> #[trigger] after[j] == before[j],
    ensures
        lookup(after, q) == (if q == k {
            Some(v)
        } else {
            lookup(before, q)
        }),
    decreases before.len(),
{
    if i == 0 {
        assert(after.skip(1) =~= before.skip(1));
    } else {
        assert(after[0] == before[0]);
        let b = before.skip(1);
        let a = after.skip(1);
        assert forall|j: int| 0 <= j < i - 1 implies (#[trigger] b[j]).0@ != k by {
            assert(b[j] == before[j + 1]);
        }
        assert forall|j: int| 0 <= j < a.len() && j != i - 1 implies #[trigger] a[j] == b[j] by {
            assert(a[j] == after[j + 1]);
        }
        lemma_lookup_set(b, a, i - 1, k, v, q);
    }
}

proof fn lemma_lookup_push(
    before: Seq<(String, String)>,
    after: Seq<(String, String)>,
    k: Seq<char>,
    v: Seq<char>,
    q: Seq<char>,
)
    requires
        after.len() == before.len() + 1,
        forall|j: int| 0 <= j < before.len() ==> #[trigger] after[j] == before[j],
        after.last().0@ == k,
        after.last().1@ == v,
        forall|j: int| 0 <= j < before.len() ==> (#[trigger] before[j]).0@ != k,
    ensures
        lookup(after, q) == (if q == k {
            Some(v)
        } else {
            lookup(before, q)
        }),
    decreases before.len(),
{
    if before.len() == 0 {
        assert(after.skip(1) =~= Seq::<(String, String)>::empty());
    } else {
        assert(after[0] == before[0]);
        let b = before.skip(1);
        let a = after.skip(1);
        assert forall|j: int| 0 <= j < b.len() implies #[trigger] a[j] == b[j] by {
            assert(a[j] == after[j + 1]);
        }
        assert forall|j: int| 0 <= j < b.len() implies (#[trigger] b[j]).0@ != k by {
            assert(b[j] == before[j + 1]);
        }
        assert(a.last() == after.last());
        lemma_lookup_push(b, a, k, v, q);
    }
}

proof fn lemma_lookup_remove(
    before: Seq<(String, String)>,
    after: Seq<(String, String)>,
    i: int,
    k: Seq<char>,
    q: Seq<char>,
)
    requires
        distinct_keys(before),
        0 <= i < before.len(),
        before[i].0@ == k,
        after == before.remove(i),
    ensures
        lookup(after, q) == (if q == k {
            None
        } else {
            lookup(before, q)
        }),
    decreases before.len(),
{
    if i == 0 {
        assert(after =~= before.skip(1));
        if q == k {
            assert forall|j: int| 0 <= j < after.len() implies (#[trigger] after[j]).0@ != q by {
                assert(before[0].0@ != before[j + 1].0@);
            }
            lemma_lookup_none(after, q);
        }
    } else {
        assert(after[0] == before[0]);
        assert(before[0].0@ != before[i].0@);
        let b = before.skip(1);
        let a = after.skip(1);
        assert(a =~= b.remove(i - 1));
        assert forall|x: int, y: int| 0 <= x < y < b.len() implies (#[trigger] b[x]).0@ != (
        #[trigger] b[y]).0@ by {
            assert(before[x + 1].0@ != before[y + 1].0@);
        }
        lemma_lookup_remove(b, a, i - 1, k, q);
    }
}

/// A value is found under its key once it was put there, in place of what was there
/// before, and until it is taken out; no other key is touched.
pub proof fn values_are_found_under_their_key(
    a: &mut TextMap,
    key: String,
    value: String,
    k: &str,
    got: Option<&str>,
    b: &mut TextMap,
    was: Option<String>,
    gone: Option<&str>,
    other: &str,
    before: Option<&str>,
    after: Option<&str>,
    fresh: TextMap,
    none: Option<&str>,
)
    requires
        call_ensures(TextMap::insert, (a, key, value), ()),
        k@ == key@,
        other@ != key@,
        call_ensures(TextMap::get, (final(a), k), got),
        call_ensures(TextMap::get, (old(a), other), before),
        call_ensures(TextMap::get, (final(a), other), after),
        *old(b) == *final(a),
        call_ensures(TextMap::remove, (b, k), was),
        call_ensures(TextMap::get, (final(b), k), gone),
        call_ensures(TextMap::new, (), fresh),
        call_ensures(TextMap::get, (&fresh, k), none),
    ensures
        got matches Some(v) && v@ == value@,
        before is Some <==> after is Some,
        before matches Some(v) ==> (after->0)@ == v@,
        was matches Some(v) && v@ == value@,
        gone is None,
        none is None,
{
}

} // verus!
