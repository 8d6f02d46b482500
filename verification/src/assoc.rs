//! Lists of values with a text as key.

use vstd::prelude::*;
use crate::text::same;

verus! {

/// The value that the first entry with key `k` holds.
pub open spec fn value_of<V>(entries: Seq<(String, V)>, k: Seq<char>) -> Option<V>
    decreases entries.len(),
{
    if entries.len() == 0 {
        None
    } else if entries[0].0@ == k {
        Some(entries[0].1)
    } else {
        value_of(entries.skip(1), k)
    }
}

/// The first entry with key `k`.
pub open spec fn is_first<V>(entries: Seq<(String, V)>, k: Seq<char>, i: int) -> bool {
    &&& 0 <= i < entries.len()
    &&& entries[i].0@ == k
    &&& forall|j: int| 0 <= j < i ==> (#[trigger] entries[j]).0@ != k
}

/// What the first entry with a key holds is the value of that key.
pub proof fn lemma_first<V>(entries: Seq<(String, V)>, k: Seq<char>, i: int)
    requires
        is_first(entries, k, i),
    ensures
        value_of(entries, k) == Some(entries[i].1),
    decreases entries.len(),
{
    if i > 0 {
        assert(entries[0].0@ != k);
        assert forall|j: int| 0 <= j < i - 1 implies (#[trigger] entries.skip(1)[j]).0@ != k by {
            assert(entries.skip(1)[j] == entries[j + 1]);
        }
        lemma_first(entries.skip(1), k, i - 1);
    }
}

/// A key that no entry has holds nothing.
pub proof fn lemma_absent<V>(entries: Seq<(String, V)>, k: Seq<char>)
    requires
        forall|j: int| 0 <= j < entries.len() ==> (#[trigger] entries[j]).0@ != k,
    ensures
        value_of(entries, k) is None,
    decreases entries.len(),
{
    if entries.len() > 0 {
        assert(entries[0].0@ != k);
        assert forall|j: int| 0 <= j < entries.skip(1).len() implies (
        #[trigger] entries.skip(1)[j]).0@ != k by {
            assert(entries.skip(1)[j] == entries[j + 1]);
        }
        lemma_absent(entries.skip(1), k);
    }
}

/// Where the first entry with key `key` stands.
pub fn position<V>(entries: &Vec<(String, V)>, key: &str) -> (r: Option<usize>)
    ensures
        match r {
            Some(i) => is_first(entries@, key@, i as int) && value_of(entries@, key@) == Some(
                entries@[i as int].1,
            ),
            None => value_of(entries@, key@) is None && forall|j: int|
                0 <= j < entries@.len() ==> (#[trigger] entries@[j]).0@ != key@,
        },
{
    let mut i: usize = 0;
    while i < entries.len()
        invariant
            i <= entries@.len(),
            forall|j: int| 0 <= j < i ==> (#[trigger] entries@[j]).0@ != key@,
        decreases entries@.len() - i,
    {
        if same(entries[i].0.as_str(), key) {
            proof {
                lemma_first(entries@, key@, i as int);
            }
            return Some(i);
        }
        i = i + 1;
    }
    proof {
        lemma_absent(entries@, key@);
    }
    None
}

/// Setting the value of one key leaves the others.
proof fn lemma_put<V>(a: Seq<(String, V)>, b: Seq<(String, V)>, key: Seq<char>, at: int)
    requires
        0 <= at < b.len(),
        b[at].0@ == key,
        a.len() == b.len() && is_first(a, key, at) || a.len() == at && b.len() == at + 1 && (forall|
            j: int,
        |
            0 <= j < a.len() ==> (#[trigger] a[j]).0@ != key),
        forall|j: int| 0 <= j < b.len() && j != at ==> #[trigger] b[j] == a[j],
    ensures
        forall|k: Seq<char>| #[trigger]
            value_of(b, k) == if k == key {
                Some(b[at].1)
            } else {
                value_of(a, k)
            },
    decreases b.len(),
{
    assert forall|k: Seq<char>| #[trigger]
        value_of(b, k) == if k == key {
            Some(b[at].1)
        } else {
            value_of(a, k)
        } by {
        if at == 0 {
            if a.len() > 0 {
                assert(a.skip(1) =~= b.skip(1));
            } else {
                assert(b.skip(1).len() == 0);
            }
        } else {
            assert(b[0] == a[0]);
            let a1 = a.skip(1);
            let b1 = b.skip(1);
            assert forall|j: int| 0 <= j < b1.len() && j != at - 1 implies #[trigger] b1[j]
                == a1[j] by {
                assert(b[j + 1] == a[j + 1]);
            }
            assert forall|j: int| 0 <= j < at - 1 implies (#[trigger] a1[j]).0@ != key by {
                assert(a1[j] == a[j + 1]);
            }
            lemma_put(a1, b1, key, at - 1);
            assert(value_of(b1, k) == if k == key {
                Some(b1[at - 1].1)
            } else {
                value_of(a1, k)
            });
        }
    }
}

/// Sets the value of a key.
pub fn put<V>(entries: &mut Vec<(String, V)>, key: String, value: V)
    ensures
        forall|k: Seq<char>| #[trigger]
            value_of(final(entries)@, k) == if k == key@ {
                Some(value)
            } else {
                value_of(old(entries)@, k)
            },
{
    let ghost before = entries@;
    match position(entries, key.as_str()) {
        Some(i) => {
            entries.set(i, (key, value));
            proof {
                lemma_put(before, entries@, key@, i as int);
            }
        },
        None => {
            entries.push((key, value));
            proof {
                lemma_put(before, entries@, key@, before.len() as int);
            }
        },
    }
}

/// The entries whose key is not `key`.
pub open spec fn without<V>(entries: Seq<(String, V)>, key: Seq<char>) -> Seq<(String, V)>
    decreases entries.len(),
{
    if entries.len() == 0 {
        entries
    } else if entries.last().0@ == key {
        without(entries.drop_last(), key)
    } else {
        without(entries.drop_last(), key).push(entries.last())
    }
}

proof fn lemma_value_of_push<V>(entries: Seq<(String, V)>, e: (String, V), k: Seq<char>)
    ensures
        value_of(entries.push(e), k) == match value_of(entries, k) {
            Some(v) => Some(v),
            None => if e.0@ == k {
                Some(e.1)
            } else {
                None
            },
        },
    decreases entries.len(),
{
    let all = entries.push(e);
    if entries.len() == 0 {
        assert(all.skip(1).len() == 0);
    } else {
        assert(all[0] == entries[0]);
        assert(all.skip(1) =~= entries.skip(1).push(e));
        lemma_value_of_push(entries.skip(1), e, k);
    }
}

proof fn lemma_without<V>(entries: Seq<(String, V)>, key: Seq<char>, k: Seq<char>)
    ensures
        value_of(without(entries, key), k) == if k == key {
            None
        } else {
            value_of(entries, k)
        },
    decreases entries.len(),
{
    if entries.len() > 0 {
        let rest = entries.drop_last();
        lemma_without(rest, key, k);
        assert(entries =~= rest.push(entries.last()));
        lemma_value_of_push(rest, entries.last(), k);
        lemma_value_of_push(without(rest, key), entries.last(), k);
    }
}

/// Takes a key out.
pub fn remove<V: Copy>(entries: &mut Vec<(String, V)>, key: &str)
    ensures
        forall|k: Seq<char>| #[trigger]
            value_of(final(entries)@, k) == if k == key@ {
                None
            } else {
                value_of(old(entries)@, k)
            },
{
    let ghost all = entries@;
    let mut kept: Vec<(String, V)> = Vec::new();
    let mut i: usize = 0;
    assert(all.take(0) =~= Seq::<(String, V)>::empty());
    while i < entries.len()
        invariant
            i <= entries@.len(),
            entries@ == all,
            kept@ == without(all.take(i as int), key@),
        decreases entries@.len() - i,
    {
        assert(all.take(i + 1).drop_last() =~= all.take(i as int));
        assert(all.take(i + 1).last() == all[i as int]);
        if !same(entries[i].0.as_str(), key) {
            let value = entries[i].1;
            kept.push((entries[i].0.clone(), value));
        }
        i = i + 1;
    }
    assert(all.take(i as int) =~= all);
    *entries = kept;
    assert forall|k: Seq<char>| #[trigger]
        value_of(entries@, k) == if k == key@ {
            None
        } else {
            value_of(all, k)
        } by {
        lemma_without(all, key@, k);
    }
}

} // verus!
