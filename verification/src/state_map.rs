//! A small map from string keys to string values, kept as a list of entries
//! in which no key occurs twice.

use vstd::prelude::*;
use crate::text::{lemma_lex_le_total, lemma_lex_le_trans, lex_le, str_eq, str_le};

verus! {

/// An open-ended bag of named string values, such as the current state of a
/// character. The value of a `StateMap` is the finite map from its keys to
/// their values; the order of entries carries no meaning.
#[derive(Debug)]
pub struct StateMap {
    entries: Vec<(String, String)>,
}

/// The map built by storing the entries one after the other, a later entry
/// replacing an earlier one with the same key.
pub open spec fn entries_fold(entries: Seq<(String, String)>) -> Map<Seq<char>, Seq<char>>
    decreases entries.len(),
{
    if entries.len() == 0 {
        Map::empty()
    } else {
        entries_fold(entries.drop_last()).insert(entries.last().0@, entries.last().1@)
    }
}

/// The keys of a list of entries, in order.
pub open spec fn entry_keys(entries: Seq<(String, String)>) -> Seq<Seq<char>> {
    Seq::new(entries.len(), |i: int| entries[i].0@)
}

/// Whether the keys of the entries ascend strictly in the lexical order.
pub open spec fn keys_ascend(entries: Seq<(String, String)>) -> bool {
    forall|i: int, j: int|
        0 <= i < j < entries.len() ==> lex_le(
            (#[trigger] entries[i]).0@,
            (#[trigger] entries[j]).0@,
        ) && entries[i].0@ != entries[j].0@
}

/// Whether `i` is the position of an entry with key `key`.
spec fn holds_key(entries: Seq<(String, String)>, key: Seq<char>, i: int) -> bool {
    0 <= i < entries.len() && entries[i].0@ == key
}

/// The map that a list of entries with distinct keys stands for.
spec fn entries_map(entries: Seq<(String, String)>) -> Map<Seq<char>, Seq<char>> {
    Map::new(
        |key: Seq<char>| exists|i: int| holds_key(entries, key, i),
        |key: Seq<char>| entries[choose|i: int| holds_key(entries, key, i)].1@,
    )
}

/// In a list with distinct keys, the entry at position `i` is the one that
/// the map gives for its key.
proof fn lemma_entry_in_map(entries: Seq<(String, String)>, i: int)
    requires
        entry_keys(entries).no_duplicates(),
        0 <= i < entries.len(),
    ensures
        entries_map(entries).contains_key(entries[i].0@),
        entries_map(entries)[entries[i].0@] == entries[i].1@,
{
    let key = entries[i].0@;
    assert(holds_key(entries, key, i));
    let j = choose|j: int| holds_key(entries, key, j);
    assert(entry_keys(entries)[i] == key);
    assert(entry_keys(entries)[j] == key);
}

/// Replacing the entry of a key, or appending an entry with a new key,
/// changes the map at that key only.
proof fn lemma_entries_map_put(
    before: Seq<(String, String)>,
    after: Seq<(String, String)>,
    at: Option<int>,
    entry: (String, String),
)
    requires
        entry_keys(before).no_duplicates(),
        match at {
            Some(i) => holds_key(before, entry.0@, i) && after == before.update(i, entry),
            None => (forall|i: int| !holds_key(before, entry.0@, i)) && after == before.push(entry),
        },
    ensures
        entry_keys(after).no_duplicates(),
        entries_map(after) == entries_map(before).insert(entry.0@, entry.1@),
{
    let key = entry.0@;
    let target = entries_map(before).insert(key, entry.1@);
    let p = match at {
        Some(i) => i,
        None => before.len() as int,
    };
    assert(holds_key(after, key, p));
    assert forall|a: int, b: int|
        0 <= a < after.len() && 0 <= b < after.len() && a != b implies entry_keys(after)[a]
        != entry_keys(after)[b] by {
        if a != p && b != p {
            assert(entry_keys(before)[a] != entry_keys(before)[b]);
        } else {
            let other = if a == p {
                b
            } else {
                a
            };
            match at {
                Some(i) => {
                    assert(entry_keys(before)[other] != entry_keys(before)[i]);
                },
                None => {
                    assert(!holds_key(before, key, other));
                },
            }
        }
    }
    assert forall|k: Seq<char>| entries_map(after).contains_key(k) implies target.contains_key(
        k,
    ) by {
        let j = choose|j: int| holds_key(after, k, j);
        if k != key {
            assert(holds_key(before, k, j));
        }
    }
    assert forall|k: Seq<char>| target.contains_key(k) implies entries_map(after).contains_key(
        k,
    ) by {
        if k != key {
            let j = choose|j: int| holds_key(before, k, j);
            assert(holds_key(after, k, j));
        }
    }
    assert forall|k: Seq<char>| target.contains_key(k) implies entries_map(after)[k]
        == target[k] by {
        if k == key {
            lemma_entry_in_map(after, p);
        } else {
            let j = choose|j: int| holds_key(before, k, j);
            assert(holds_key(after, k, j));
            lemma_entry_in_map(after, j);
            lemma_entry_in_map(before, j);
        }
    }
    assert(entries_map(after) =~= target);
}

/// Putting an entry with a new key anywhere into a list changes the map at
/// that key only.
proof fn lemma_entries_map_insert(
    before: Seq<(String, String)>,
    at: int,
    entry: (String, String),
)
    requires
        entry_keys(before).no_duplicates(),
        0 <= at <= before.len(),
        forall|i: int| !holds_key(before, entry.0@, i),
    ensures
        entry_keys(before.insert(at, entry)).no_duplicates(),
        entries_map(before.insert(at, entry)) == entries_map(before).insert(entry.0@, entry.1@),
{
    let after = before.insert(at, entry);
    let key = entry.0@;
    let target = entries_map(before).insert(key, entry.1@);
    let from = |j: int| if j < at { j } else { j - 1 };
    let to = |j: int| if j < at { j } else { j + 1 };
    assert(holds_key(after, key, at));
    assert forall|a: int, b: int|
        0 <= a < after.len() && 0 <= b < after.len() && a != b implies entry_keys(after)[a]
        != entry_keys(after)[b] by {
        if a != at && b != at {
            assert(after[a] == before[from(a)] && after[b] == before[from(b)]);
            assert(entry_keys(before)[from(a)] != entry_keys(before)[from(b)]);
        } else if a == at {
            assert(after[b] == before[from(b)]);
            assert(!holds_key(before, key, from(b)));
        } else {
            assert(after[a] == before[from(a)]);
            assert(!holds_key(before, key, from(a)));
        }
    }
    assert forall|k: Seq<char>| entries_map(after).contains_key(k) implies target.contains_key(
        k,
    ) by {
        let j = choose|j: int| holds_key(after, k, j);
        if k != key {
            assert(after[j] == before[from(j)]);
            assert(holds_key(before, k, from(j)));
        }
    }
    assert forall|k: Seq<char>| target.contains_key(k) implies entries_map(after).contains_key(
        k,
    ) by {
        if k != key {
            let j = choose|j: int| holds_key(before, k, j);
            assert(after[to(j)] == before[j]);
            assert(holds_key(after, k, to(j)));
        }
    }
    assert forall|k: Seq<char>| target.contains_key(k) implies entries_map(after)[k]
        == target[k] by {
        if k == key {
            lemma_entry_in_map(after, at);
        } else {
            let j = choose|j: int| holds_key(before, k, j);
            assert(after[to(j)] == before[j]);
            assert(holds_key(after, k, to(j)));
            lemma_entry_in_map(after, to(j));
            lemma_entry_in_map(before, j);
        }
    }
    assert(entries_map(after) =~= target);
}

/// An entry put before the first entry whose key is not smaller keeps the
/// keys in ascending order.
proof fn lemma_insert_keeps_ascent(before: Seq<(String, String)>, at: int, entry: (String, String))
    requires
        keys_ascend(before),
        0 <= at <= before.len(),
        forall|i: int| !holds_key(before, entry.0@, i),
        forall|i: int| 0 <= i < at ==> !lex_le(entry.0@, before[i].0@),
        at < before.len() ==> lex_le(entry.0@, before[at].0@),
    ensures
        keys_ascend(before.insert(at, entry)),
{
    let after = before.insert(at, entry);
    let key = entry.0@;
    assert forall|i: int, j: int| 0 <= i < j < after.len() implies lex_le(
        (#[trigger] after[i]).0@,
        (#[trigger] after[j]).0@,
    ) && after[i].0@ != after[j].0@ by {
        if j < at {
            assert(after[i] == before[i] && after[j] == before[j]);
        } else if j == at {
            assert(after[i] == before[i]);
            lemma_lex_le_total(key, before[i].0@);
            assert(!holds_key(before, key, i));
        } else if i < at {
            assert(after[i] == before[i] && after[j] == before[j - 1]);
        } else if i == at {
            assert(after[j] == before[j - 1]);
            assert(!holds_key(before, key, j - 1));
            if j - 1 > at {
                assert(lex_le(before[at].0@, before[j - 1].0@));
                lemma_lex_le_trans(key, before[at].0@, before[j - 1].0@);
            }
        } else {
            assert(after[i] == before[i - 1] && after[j] == before[j - 1]);
        }
    }
}

/// For entries with distinct keys, storing them one after the other gives
/// the map that the list stands for.
proof fn lemma_fold_is_map(entries: Seq<(String, String)>)
    requires
        entry_keys(entries).no_duplicates(),
    ensures
        entries_fold(entries) == entries_map(entries),
    decreases entries.len(),
{
    if entries.len() == 0 {
        assert(entries_map(entries) =~= Map::<Seq<char>, Seq<char>>::empty());
    } else {
        let init = entries.drop_last();
        let last = entries.last();
        assert forall|a: int, b: int|
            0 <= a < init.len() && 0 <= b < init.len() && a != b implies entry_keys(init)[a]
            != entry_keys(init)[b] by {
            assert(entry_keys(entries)[a] != entry_keys(entries)[b]);
        }
        lemma_fold_is_map(init);
        assert forall|i: int| !holds_key(init, last.0@, i) by {
            if 0 <= i < init.len() {
                assert(entry_keys(entries)[i] != entry_keys(entries)[entries.len() - 1]);
            }
        }
        assert(entries =~= init.push(last));
        lemma_entries_map_put(init, entries, None, last);
    }
}

impl View for StateMap {
    type V = Map<Seq<char>, Seq<char>>;

    closed spec fn view(&self) -> Map<Seq<char>, Seq<char>> {
        entries_map(self.entries@)
    }
}

impl StateMap {
    #[verifier::type_invariant]
    spec fn distinct_keys(&self) -> bool {
        entry_keys(self.entries@).no_duplicates()
    }

    /// The empty map.
    pub fn new() -> (m: StateMap)
        ensures
            m@ == Map::<Seq<char>, Seq<char>>::empty(),
    {
        let m = StateMap { entries: Vec::new() };
        assert(entries_map(m.entries@) =~= Map::<Seq<char>, Seq<char>>::empty());
        m
    }

    fn position(&self, key: &str) -> (at: Option<usize>)
        ensures
            match at {
                Some(i) => holds_key(self.entries@, key@, i as int),
                None => forall|i: int| !holds_key(self.entries@, key@, i),
            },
    {
        let mut i: usize = 0;
        while i < self.entries.len()
            invariant
                i <= self.entries.len(),
                forall|k: int| 0 <= k < i ==> !holds_key(self.entries@, key@, k),
            decreases self.entries.len() - i,
        {
            if str_eq(self.entries[i].0.as_str(), key) {
                return Some(i);
            }
            i += 1;
        }
        None
    }

    /// The value stored under `key`, if there is one.
    pub fn get(&self, key: &str) -> (value: Option<&String>)
        ensures
            match value {
                Some(v) => self@.contains_key(key@) && v@ == self@[key@],
                None => !self@.contains_key(key@),
            },
    {
        proof {
            use_type_invariant(self);
        }
        match self.position(key) {
            Some(i) => {
                proof {
                    lemma_entry_in_map(self.entries@, i as int);
                }
                Some(&self.entries[i].1)
            },
            None => None,
        }
    }

    /// Whether a value is stored under `key`.
    pub fn contains_key(&self, key: &str) -> (found: bool)
        ensures
            found == self@.contains_key(key@),
    {
        self.position(key).is_some()
    }

    /// Stores `value` under `key`, replacing the value that was there.
    pub fn insert(&mut self, key: String, value: String)
        ensures
            final(self)@ == old(self)@.insert(key@, value@),
    {
        proof {
            use_type_invariant(&*self);
        }
        let at = self.position(key.as_str());
        let ghost before = self.entries@;
        let mut entries: Vec<(String, String)> = Vec::new();
        std::mem::swap(&mut self.entries, &mut entries);
        match at {
            Some(i) => {
                entries.set(i, (key, value));
                proof {
                    lemma_entries_map_put(before, entries@, Some(i as int), (key, value));
                }
            },
            None => {
                entries.push((key, value));
                proof {
                    lemma_entries_map_put(before, entries@, None, (key, value));
                }
            },
        }
        self.entries = entries;
    }

    /// The number of keys.
    pub fn len(&self) -> (n: usize)
        ensures
            self@.dom().finite(),
            n == self@.dom().len(),
    {
        proof {
            use_type_invariant(self);
            let keys = entry_keys(self.entries@);
            keys.unique_seq_to_set();
            assert(self@.dom() =~= keys.to_set()) by {
                assert forall|k: Seq<char>| self@.dom().contains(k) implies keys.to_set().contains(
                    k,
                ) by {
                    let j = choose|j: int| holds_key(self.entries@, k, j);
                    assert(keys[j] == k);
                }
                assert forall|k: Seq<char>| keys.to_set().contains(k) implies self@.dom().contains(
                    k,
                ) by {
                    let j = choose|j: int| 0 <= j < keys.len() && keys[j] == k;
                    assert(holds_key(self.entries@, k, j));
                }
            }
        }
        self.entries.len()
    }

    /// The entries, borrowed, as a list of key and value: each key exactly
    /// once, in no particular order.
    pub fn entries(&self) -> (entries: &Vec<(String, String)>)
        ensures
            entry_keys(entries@).no_duplicates(),
            entries_fold(entries@) == self@,
    {
        proof {
            use_type_invariant(self);
            lemma_fold_is_map(self.entries@);
        }
        &self.entries
    }

    /// A copy of the entries in ascending order of their keys.
    pub fn sorted_entries(&self) -> (sorted: Vec<(String, String)>)
        ensures
            keys_ascend(sorted@),
            entries_fold(sorted@) == self@,
    {
        proof {
            use_type_invariant(self);
        }
        let mut sorted: Vec<(String, String)> = Vec::new();
        let mut i: usize = 0;
        proof {
            assert(entries_map(sorted@) =~= entries_map(self.entries@.take(0)));
        }
        while i < self.entries.len()
            invariant
                i <= self.entries.len(),
                entry_keys(self.entries@).no_duplicates(),
                keys_ascend(sorted@),
                entry_keys(sorted@).no_duplicates(),
                entry_keys(self.entries@.take(i as int)).no_duplicates(),
                entries_map(sorted@) == entries_map(self.entries@.take(i as int)),
            decreases self.entries.len() - i,
        {
            let key = self.entries[i].0.clone();
            let value = self.entries[i].1.clone();
            let ghost upto = self.entries@.take(i as int);
            let ghost next = self.entries@.take(i + 1);
            proof {
                assert forall|k: int| !holds_key(upto, key@, k) by {
                    if 0 <= k < i {
                        assert(entry_keys(self.entries@)[k] != entry_keys(self.entries@)[i as int]);
                    }
                }
                assert(next =~= upto.push(self.entries@[i as int]));
                lemma_entries_map_put(upto, next, None, self.entries@[i as int]);
                assert forall|k: int| !holds_key(sorted@, key@, k) by {
                    if holds_key(sorted@, key@, k) {
                        lemma_entry_in_map(sorted@, k);
                        let j = choose|j: int| holds_key(upto, key@, j);
                        assert(holds_key(upto, key@, j));
                    }
                }
            }
            let mut at: usize = 0;
            while at < sorted.len() && !str_le(key.as_str(), sorted[at].0.as_str())
                invariant
                    at <= sorted.len(),
                    forall|k: int| 0 <= k < at ==> !lex_le(key@, sorted@[k].0@),
                decreases sorted.len() - at,
            {
                at += 1;
            }
            proof {
                lemma_entries_map_insert(sorted@, at as int, (key, value));
                lemma_insert_keeps_ascent(sorted@, at as int, (key, value));
            }
            sorted.insert(at, (key, value));
            i += 1;
        }
        proof {
            assert(self.entries@.take(i as int) =~= self.entries@);
            lemma_fold_is_map(sorted@);
        }
        sorted
    }

    /// The entries as a list of key and value: each key exactly once, in no
    /// particular order.
    pub fn into_entries(self) -> (entries: Vec<(String, String)>)
        ensures
            entry_keys(entries@).no_duplicates(),
            entries_fold(entries@) == self@,
    {
        proof {
            use_type_invariant(&self);
            lemma_fold_is_map(self.entries@);
        }
        self.entries
    }

    /// The map built by storing the given entries one after the other, a
    /// later entry replacing an earlier one with the same key.
    pub fn from_entries(entries: Vec<(String, String)>) -> (m: StateMap)
        ensures
            m@ == entries_fold(entries@),
    {
        let mut m = StateMap::new();
        let mut entries = entries;
        let ghost all = entries@;
        let mut rest: Vec<(String, String)> = Vec::new();
        // Take the entries from the back, then store them front to back.
        while entries.len() > 0
            invariant
                all =~= entries@ + rest@.reverse(),
            decreases entries.len(),
        {
            let ghost shorter = entries@.drop_last();
            let ghost moved = entries@.last();
            let ghost longer = rest@.push(moved);
            let entry = entries.pop().unwrap();
            rest.push(entry);
            proof {
                assert(rest@ == longer);
                assert(longer.reverse() =~= seq![moved] + rest@.drop_last().reverse());
                assert(entries@ == shorter);
            }
        }
        proof {
            assert(all =~= rest@.reverse());
            assert(all.take(0) =~= Seq::<(String, String)>::empty());
        }
        let ghost total = rest.len();
        while rest.len() > 0
            invariant
                rest.len() <= total,
                total == all.len(),
                forall|k: int| 0 <= k < rest.len() ==> rest@[k] == all[total - 1 - k],
                m@ == entries_fold(all.take(total - rest.len())),
            decreases rest.len(),
        {
            let ghost done = total - rest.len();
            let (key, value) = rest.pop().unwrap();
            proof {
                assert(all.take(done + 1).drop_last() =~= all.take(done));
                assert(all.take(done + 1).last() == all[done]);
                assert((key, value) == all[done]);
            }
            m.insert(key, value);
        }
        proof {
            assert(all.take(total as int) =~= all);
        }
        m
    }
}

impl Clone for StateMap {
    /// A copy that holds the same values under the same keys.
    fn clone(&self) -> (copy: StateMap)
        ensures
            copy@ == self@,
    {
        let mut entries: Vec<(String, String)> = Vec::new();
        let mut i: usize = 0;
        while i < self.entries.len()
            invariant
                i <= self.entries.len(),
                entries.len() == i,
                forall|k: int|
                    0 <= k < i ==> entries@[k].0@ == self.entries@[k].0@ && entries@[k].1@
                        == self.entries@[k].1@,
            decreases self.entries.len() - i,
        {
            let key = self.entries[i].0.clone();
            let value = self.entries[i].1.clone();
            entries.push((key, value));
            i += 1;
        }
        proof {
            use_type_invariant(self);
            assert(entry_keys(entries@) =~= entry_keys(self.entries@));
            assert(entries_map(entries@) =~= entries_map(self.entries@)) by {
                assert forall|k: Seq<char>|
                    entries_map(entries@).contains_key(k) implies entries_map(
                    self.entries@,
                ).contains_key(k) by {
                    let j = choose|j: int| holds_key(entries@, k, j);
                    assert(holds_key(self.entries@, k, j));
                }
                assert forall|k: Seq<char>|
                    entries_map(self.entries@).contains_key(k) implies entries_map(
                    entries@,
                ).contains_key(k) by {
                    let j = choose|j: int| holds_key(self.entries@, k, j);
                    assert(holds_key(entries@, k, j));
                }
                assert forall|k: Seq<char>|
                    entries_map(entries@).contains_key(k) implies entries_map(entries@)[k]
                    == entries_map(self.entries@)[k] by {
                    let j = choose|j: int| holds_key(entries@, k, j);
                    assert(holds_key(self.entries@, k, j));
                    lemma_entry_in_map(entries@, j);
                    lemma_entry_in_map(self.entries@, j);
                }
            }
        }
        StateMap { entries }
    }
}

} // verus!
