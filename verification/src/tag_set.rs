//! A set of names with cheap membership tests, kept as a list in which no
//! name occurs twice.

use vstd::prelude::*;
use crate::text::{str_eq, views};

verus! {

/// A finite set of names. Insertion order is kept internally but carries no
/// meaning: the value of a `TagSet` is the set of names it holds.
#[derive(Debug)]
pub struct TagSet {
    items: Vec<String>,
}

impl View for TagSet {
    type V = Set<Seq<char>>;

    closed spec fn view(&self) -> Set<Seq<char>> {
        views(self.items@).to_set()
    }
}

impl TagSet {
    #[verifier::type_invariant]
    spec fn distinct(&self) -> bool {
        views(self.items@).no_duplicates()
    }

    /// The empty set.
    pub fn new() -> (s: TagSet)
        ensures
            s@ == Set::<Seq<char>>::empty(),
    {
        let s = TagSet { items: Vec::new() };
        assert(views(s.items@).to_set() =~= Set::<Seq<char>>::empty());
        s
    }

    /// Whether `name` is in the set.
    pub fn contains(&self, name: &str) -> (found: bool)
        ensures
            found == self@.contains(name@),
    {
        let mut i: usize = 0;
        while i < self.items.len()
            invariant
                i <= self.items.len(),
                forall|k: int| 0 <= k < i ==> views(self.items@)[k] != name@,
            decreases self.items.len() - i,
        {
            if str_eq(self.items[i].as_str(), name) {
                assert(views(self.items@)[i as int] == name@);
                return true;
            }
            i += 1;
        }
        false
    }

    /// Adds `name` to the set; `true` when it was not there before.
    pub fn insert(&mut self, name: String) -> (added: bool)
        ensures
            final(self)@ == old(self)@.insert(name@),
            added == !old(self)@.contains(name@),
    {
        proof {
            use_type_invariant(&*self);
        }
        if self.contains(name.as_str()) {
            assert(self@.insert(name@) =~= self@);
            false
        } else {
            let ghost before = views(self.items@);
            let mut items: Vec<String> = Vec::new();
            std::mem::swap(&mut self.items, &mut items);
            items.push(name);
            proof {
                let after = views(items@);
                assert(after =~= before.push(name@));
                assert(after.to_set() =~= before.to_set().insert(name@)) by {
                    assert forall|t: Seq<char>| after.to_set().contains(t) implies before.to_set().insert(
                        name@,
                    ).contains(t) by {
                        let k = choose|k: int| 0 <= k < after.len() && after[k] == t;
                        if k < before.len() {
                            assert(before[k] == t);
                        }
                    }
                    assert forall|t: Seq<char>|
                        before.to_set().insert(name@).contains(t) implies after.to_set().contains(
                        t,
                    ) by {
                        if t == name@ {
                            assert(after[before.len() as int] == t);
                        } else {
                            let k = choose|k: int| 0 <= k < before.len() && before[k] == t;
                            assert(after[k] == t);
                        }
                    }
                }
                assert(after.no_duplicates()) by {
                    assert forall|i: int, j: int|
                        0 <= i < after.len() && 0 <= j < after.len() && i != j implies after[i]
                        != after[j] by {
                        if i < before.len() && j < before.len() {
                            assert(before[i] != before[j]);
                        } else if i < before.len() {
                            assert(before.to_set().contains(before[i]));
                        } else {
                            assert(before.to_set().contains(before[j]));
                        }
                    }
                }
            }
            self.items = items;
            true
        }
    }

    /// The number of names in the set.
    pub fn len(&self) -> (n: usize)
        ensures
            self@.finite(),
            n == self@.len(),
    {
        proof {
            use_type_invariant(self);
            views(self.items@).unique_seq_to_set();
        }
        self.items.len()
    }

    /// Whether the set holds no name.
    pub fn is_empty(&self) -> (empty: bool)
        ensures
            empty == (self@ == Set::<Seq<char>>::empty()),
    {
        proof {
            if self.items.len() > 0 {
                assert(views(self.items@)[0] == self.items@[0]@);
                assert(self@.contains(self.items@[0]@));
            } else {
                assert(self@ =~= Set::<Seq<char>>::empty());
            }
        }
        self.items.len() == 0
    }

    /// The names of the set as a list, each exactly once.
    pub fn into_vec(self) -> (names: Vec<String>)
        ensures
            views(names@).no_duplicates(),
            views(names@).to_set() == self@,
    {
        proof {
            use_type_invariant(&self);
        }
        self.items
    }
}

impl Clone for TagSet {
    /// A copy that holds the same names.
    fn clone(&self) -> (copy: TagSet)
        ensures
            copy@ == self@,
    {
        proof {
            use_type_invariant(self);
        }
        let mut items: Vec<String> = Vec::new();
        let mut i: usize = 0;
        while i < self.items.len()
            invariant
                i <= self.items.len(),
                items.len() == i,
                forall|k: int| 0 <= k < i ==> items@[k]@ == self.items@[k]@,
            decreases self.items.len() - i,
        {
            items.push(self.items[i].clone());
            i += 1;
        }
        assert(views(items@) =~= views(self.items@));
        TagSet { items }
    }
}

} // verus!
