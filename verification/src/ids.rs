//! Sets of stream numbers.

use vstd::prelude::*;

verus! {

/// A set of numbers.
#[derive(Debug)]
pub struct IdSet {
    ids: Vec<u32>,
}

impl View for IdSet {
    type V = Set<u32>;

    closed spec fn view(&self) -> Set<u32> {
        self.ids@.to_set()
    }
}

impl IdSet {
    #[verifier::type_invariant]
    closed spec fn ids_differ(self) -> bool {
        self.ids@.no_duplicates()
    }

    /// The set without members.
    pub fn new() -> (r: Self)
        ensures
            r@ == Set::<u32>::empty(),
    {
        let r = IdSet { ids: Vec::new() };
        assert(r@ =~= Set::<u32>::empty());
        r
    }

    fn position(&self, id: u32) -> (r: Option<usize>)
        ensures
            match r {
                Some(i) => i < self.ids@.len() && self.ids@[i as int] == id && self@.contains(id),
                None => !self@.contains(id),
            },
    {
        let mut i: usize = 0;
        while i < self.ids.len()
            invariant
                i <= self.ids@.len(),
                forall|k: int| 0 <= k < i ==> self.ids@[k] != id,
            decreases self.ids@.len() - i,
        {
            if self.ids[i] == id {
                assert(self.ids@.contains(self.ids@[i as int]));
                return Some(i);
            }
            i = i + 1;
        }
        None
    }

    /// Whether a number is in the set.
    pub fn contains(&self, id: u32) -> (r: bool)
        ensures
            r == self@.contains(id),
    {
        self.position(id).is_some()
    }

    /// Adds a number.
    pub fn insert(&mut self, id: u32)
        ensures
            final(self)@ == old(self)@.insert(id),
    {
        let ghost before = self@;
        if self.contains(id) {
            assert(self@ =~= before.insert(id));
            return;
        }
        proof {
            use_type_invariant(&*self);
        }
        let mut ids: Vec<u32> = Vec::new();
        std::mem::swap(&mut ids, &mut self.ids);
        let ghost list = ids@;
        ids.push(id);
        proof {
            assert forall|x: u32| ids@.contains(x) <==> list.contains(x) || x == id by {
                if list.contains(x) {
                    let k = choose|k: int| 0 <= k < list.len() && list[k] == x;
                    assert(ids@[k] == x);
                }
                assert(ids@[list.len() as int] == id);
            }
            assert(ids@.to_set() =~= before.insert(id));
            assert(!list.contains(id));
            assert forall|i: int, j: int| 0 <= i < ids@.len() && 0 <= j < ids@.len() && i != j implies ids@[i]
                != ids@[j] by {
                if i < list.len() {
                    assert(list.contains(list[i]));
                }
                if j < list.len() {
                    assert(list.contains(list[j]));
                }
            }
        }
        *self = IdSet { ids };
    }

    /// Takes a number out, if it is in the set.
    pub fn remove(&mut self, id: u32) -> (r: bool)
        ensures
            r == old(self)@.contains(id),
            final(self)@ == old(self)@.remove(id),
    {
        let ghost before = self@;
        match self.position(id) {
            None => {
                assert(self@ =~= before.remove(id));
                false
            },
            Some(at) => {
                proof {
                    use_type_invariant(&*self);
                }
                let mut ids: Vec<u32> = Vec::new();
                std::mem::swap(&mut ids, &mut self.ids);
                let ghost list = ids@;
                ids.remove(at);
                proof {
                    assert(ids@ =~= list.remove(at as int));
                    assert forall|x: u32| ids@.contains(x) <==> list.contains(x) && x != id by {
                        if list.contains(x) && x != id {
                            let k = choose|k: int| 0 <= k < list.len() && list[k] == x;
                            if k < at {
                                assert(ids@[k] == x);
                            } else {
                                assert(ids@[k - 1] == x);
                            }
                        }
                        if ids@.contains(x) {
                            let k = choose|k: int| 0 <= k < ids@.len() && ids@[k] == x;
                            if k < at {
                                assert(list[k] == x);
                            } else {
                                assert(list[k + 1] == x);
                            }
                        }
                    }
                    assert(ids@.to_set() =~= before.remove(id));
                }
                *self = IdSet { ids };
                true
            },
        }
    }

    /// Takes all numbers out.
    pub fn drain(&mut self) -> (r: Vec<u32>)
        ensures
            r@.no_duplicates(),
            r@.to_set() == old(self)@,
            final(self)@ == Set::<u32>::empty(),
    {
        proof {
            use_type_invariant(&*self);
        }
        let mut ids: Vec<u32> = Vec::new();
        std::mem::swap(&mut ids, &mut self.ids);
        *self = IdSet { ids: Vec::new() };
        assert(self@ =~= Set::<u32>::empty());
        ids
    }
}

/// A number is there once it was put in and until it is taken out; no other is
/// touched, and draining gives each once.
pub proof fn numbers_are_there_until_taken_out(
    a: &mut IdSet,
    id: u32,
    other: u32,
    b: &mut IdSet,
    was: bool,
    c: &mut IdSet,
    all: Vec<u32>,
    has: bool,
    fresh: IdSet,
)
    requires
        call_ensures(IdSet::insert, (a, id), ()),
        call_ensures(IdSet::contains, (final(a), id), has),
        call_ensures(IdSet::remove, (b, id), was),
        call_ensures(IdSet::drain, (c,), all),
        call_ensures(IdSet::new, (), fresh),
        other != id,
    ensures
        has,
        final(a)@.contains(other) == old(a)@.contains(other),
        was <==> old(b)@.contains(id),
        !final(b)@.contains(id),
        final(b)@.contains(other) == old(b)@.contains(other),
        all@.contains(id) <==> old(c)@.contains(id),
        all@.no_duplicates(),
        !final(c)@.contains(id),
        !fresh@.contains(id),
{
    assert(all@.to_set().contains(id) <==> all@.contains(id));
}

} // verus!
