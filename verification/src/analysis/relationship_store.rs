//! The stored relationships of a project: at most one row for each ordered
//! pair of ids.

use vstd::prelude::*;
use vstd::string::*;
use crate::models::Relationship;
use crate::text::{opt_view, str_eq};

verus! {

/// What a relationship row says besides its key.
pub struct RowView {
    pub relation_type: Seq<char>,
    pub strength: int,
    pub since_chapter: Option<Seq<char>>,
    pub notes: Option<Seq<char>>,
}

/// The key of a row: its two ids as stored.
pub open spec fn row_key(row: Relationship) -> (Seq<char>, Seq<char>) {
    (row.from_id@, row.to_id@)
}

/// What a row says besides its key.
pub open spec fn row_view(row: Relationship) -> RowView {
    RowView {
        relation_type: row.relation_type@,
        strength: row.strength as int,
        since_chapter: opt_view(row.since_chapter),
        notes: opt_view(row.notes),
    }
}

/// The keys of a list of rows, in order.
pub open spec fn row_keys(rows: Seq<Relationship>) -> Seq<(Seq<char>, Seq<char>)> {
    Seq::new(rows.len(), |i: int| row_key(rows[i]))
}

/// Whether `i` is the position of the row with key `key`.
pub open spec fn keyed_at(rows: Seq<Relationship>, key: (Seq<char>, Seq<char>), i: int) -> bool {
    0 <= i < rows.len() && row_key(rows[i]) == key
}

/// The table that a list of rows with distinct keys stands for.
pub open spec fn rows_map(rows: Seq<Relationship>) -> Map<(Seq<char>, Seq<char>), RowView> {
    Map::new(
        |key: (Seq<char>, Seq<char>)| exists|i: int| keyed_at(rows, key, i),
        |key: (Seq<char>, Seq<char>)| row_view(rows[choose|i: int| keyed_at(rows, key, i)]),
    )
}

/// The row that a first co-occurrence creates.
pub open spec fn co_occurrence_row(strength: int) -> RowView {
    RowView {
        relation_type: "co-occurrence"@,
        strength,
        since_chapter: None,
        notes: Some("Auto-generated"@),
    }
}

/// The row for `key` once its strength is set to `strength`: the existing
/// row with only its strength replaced, or a new co-occurrence row.
pub open spec fn rescored_row(
    table: Map<(Seq<char>, Seq<char>), RowView>,
    key: (Seq<char>, Seq<char>),
    strength: int,
) -> RowView {
    if table.contains_key(key) {
        RowView {
            relation_type: table[key].relation_type,
            strength,
            since_chapter: table[key].since_chapter,
            notes: table[key].notes,
        }
    } else {
        co_occurrence_row(strength)
    }
}

/// One change to the stored relationships.
#[derive(Clone, Debug)]
pub enum RelationshipChange {
    /// The row with this key was given this strength.
    UpdateStrength { from_id: String, to_id: String, strength: i32 },
    /// This row was added.
    Insert { relationship: Relationship },
}

/// What a `RelationshipChange` says.
pub enum ChangeView {
    UpdateStrength { key: (Seq<char>, Seq<char>), strength: int },
    Insert { key: (Seq<char>, Seq<char>), row: RowView },
}

impl View for RelationshipChange {
    type V = ChangeView;

    open spec fn view(&self) -> ChangeView {
        match *self {
            RelationshipChange::UpdateStrength { from_id, to_id, strength } => {
                ChangeView::UpdateStrength { key: (from_id@, to_id@), strength: strength as int }
            },
            RelationshipChange::Insert { relationship } => ChangeView::Insert {
                key: row_key(relationship),
                row: row_view(relationship),
            },
        }
    }
}

/// The key of the row that a change touches.
pub open spec fn change_key(change: ChangeView) -> (Seq<char>, Seq<char>) {
    match change {
        ChangeView::UpdateStrength { key, strength } => key,
        ChangeView::Insert { key, row } => key,
    }
}

/// The change that sets the strength of `key` in `table`: an update where
/// the table has a row for the key, else the insertion of a co-occurrence
/// row.
pub open spec fn change_for(
    table: Map<(Seq<char>, Seq<char>), RowView>,
    key: (Seq<char>, Seq<char>),
    strength: int,
) -> ChangeView {
    if table.contains_key(key) {
        ChangeView::UpdateStrength { key, strength }
    } else {
        ChangeView::Insert { key, row: co_occurrence_row(strength) }
    }
}

/// In a list with distinct keys, the row at position `i` is the one that the
/// table gives for its key.
pub proof fn lemma_row_in_map(rows: Seq<Relationship>, i: int)
    requires
        row_keys(rows).no_duplicates(),
        0 <= i < rows.len(),
    ensures
        rows_map(rows).contains_key(row_key(rows[i])),
        rows_map(rows)[row_key(rows[i])] == row_view(rows[i]),
{
    let key = row_key(rows[i]);
    assert(keyed_at(rows, key, i));
    let j = choose|j: int| keyed_at(rows, key, j);
    assert(row_keys(rows)[i] == key);
    assert(row_keys(rows)[j] == key);
}

/// Replacing or appending the row for `key` changes the table at `key` only.
proof fn lemma_rows_map_put(
    before: Seq<Relationship>,
    after: Seq<Relationship>,
    at: Option<int>,
    row: Relationship,
)
    requires
        row_keys(before).no_duplicates(),
        match at {
            Some(i) => keyed_at(before, row_key(row), i) && after == before.update(i, row),
            None => (forall|i: int| !keyed_at(before, row_key(row), i)) && after == before.push(
                row,
            ),
        },
    ensures
        row_keys(after).no_duplicates(),
        rows_map(after) == rows_map(before).insert(row_key(row), row_view(row)),
{
    let key = row_key(row);
    let target = rows_map(before).insert(key, row_view(row));
    let p = match at {
        Some(i) => i,
        None => before.len() as int,
    };
    assert(keyed_at(after, key, p));
    assert forall|a: int, b: int|
        0 <= a < after.len() && 0 <= b < after.len() && a != b implies row_keys(after)[a]
        != row_keys(after)[b] by {
        if a != p && b != p {
            assert(row_keys(before)[a] != row_keys(before)[b]);
        } else {
            let other = if a == p {
                b
            } else {
                a
            };
            match at {
                Some(i) => {
                    assert(row_keys(before)[other] != row_keys(before)[i]);
                },
                None => {
                    assert(!keyed_at(before, key, other));
                },
            }
        }
    }
    assert forall|k: (Seq<char>, Seq<char>)| rows_map(after).contains_key(k) implies target.contains_key(
        k,
    ) by {
        let j = choose|j: int| keyed_at(after, k, j);
        if k != key {
            assert(keyed_at(before, k, j));
        }
    }
    assert forall|k: (Seq<char>, Seq<char>)| target.contains_key(k) implies rows_map(
        after,
    ).contains_key(k) by {
        if k != key {
            let j = choose|j: int| keyed_at(before, k, j);
            assert(keyed_at(after, k, j));
        }
    }
    assert forall|k: (Seq<char>, Seq<char>)| target.contains_key(k) implies rows_map(after)[k]
        == target[k] by {
        if k == key {
            lemma_row_in_map(after, p);
        } else {
            let j = choose|j: int| keyed_at(before, k, j);
            assert(keyed_at(after, k, j));
            lemma_row_in_map(after, j);
            lemma_row_in_map(before, j);
        }
    }
    assert(rows_map(after) =~= target);
}

/// The stored relationships, keyed by the ordered pair of ids. The value of
/// a store is the table from keys to rows; the order of rows carries no
/// meaning.
#[derive(Debug)]
pub struct RelationshipStore {
    rows: Vec<Relationship>,
}

impl View for RelationshipStore {
    type V = Map<(Seq<char>, Seq<char>), RowView>;

    closed spec fn view(&self) -> Map<(Seq<char>, Seq<char>), RowView> {
        rows_map(self.rows@)
    }
}

impl RelationshipStore {
    #[verifier::type_invariant]
    spec fn distinct_keys(&self) -> bool {
        row_keys(self.rows@).no_duplicates()
    }

    /// A store without rows.
    pub fn new() -> (store: RelationshipStore)
        ensures
            store@ == Map::<(Seq<char>, Seq<char>), RowView>::empty(),
    {
        let store = RelationshipStore { rows: Vec::new() };
        assert(rows_map(store.rows@) =~= Map::<(Seq<char>, Seq<char>), RowView>::empty());
        store
    }

    fn position(&self, from_id: &str, to_id: &str) -> (at: Option<usize>)
        ensures
            match at {
                Some(i) => keyed_at(self.rows@, (from_id@, to_id@), i as int),
                None => forall|i: int| !keyed_at(self.rows@, (from_id@, to_id@), i),
            },
    {
        let mut i: usize = 0;
        while i < self.rows.len()
            invariant
                i <= self.rows.len(),
                forall|k: int| 0 <= k < i ==> !keyed_at(self.rows@, (from_id@, to_id@), k),
            decreases self.rows.len() - i,
        {
            if str_eq(self.rows[i].from_id.as_str(), from_id) && str_eq(
                self.rows[i].to_id.as_str(),
                to_id,
            ) {
                return Some(i);
            }
            i += 1;
        }
        None
    }

    /// The row stored for the pair `(from_id, to_id)`, if there is one.
    pub fn get(&self, from_id: &str, to_id: &str) -> (row: Option<&Relationship>)
        ensures
            match row {
                Some(r) => {
                    &&& self@.contains_key((from_id@, to_id@))
                    &&& row_key(*r) == (from_id@, to_id@)
                    &&& row_view(*r) == self@[(from_id@, to_id@)]
                },
                None => !self@.contains_key((from_id@, to_id@)),
            },
    {
        proof {
            use_type_invariant(self);
        }
        match self.position(from_id, to_id) {
            Some(i) => {
                proof {
                    lemma_row_in_map(self.rows@, i as int);
                }
                Some(&self.rows[i])
            },
            None => None,
        }
    }

    /// Stores `row` under its key, in place of the row that was there.
    pub fn put(&mut self, row: Relationship)
        ensures
            final(self)@ == old(self)@.insert(row_key(row), row_view(row)),
    {
        proof {
            use_type_invariant(&*self);
        }
        let at = self.position(row.from_id.as_str(), row.to_id.as_str());
        let ghost before = self.rows@;
        let mut rows: Vec<Relationship> = Vec::new();
        std::mem::swap(&mut self.rows, &mut rows);
        match at {
            Some(i) => {
                rows.set(i, row);
                proof {
                    lemma_rows_map_put(before, rows@, Some(i as int), row);
                }
            },
            None => {
                rows.push(row);
                proof {
                    lemma_rows_map_put(before, rows@, None, row);
                }
            },
        }
        self.rows = rows;
    }

    /// Sets the strength of the pair `(first, second)`: the row of that key
    /// keeps everything but its strength; where there is none, a
    /// co-occurrence row is added. Returns the change made.
    pub fn set_strength(&mut self, first: &String, second: &String, strength: i32) -> (change:
        RelationshipChange)
        ensures
            final(self)@ == old(self)@.insert(
                (first@, second@),
                rescored_row(old(self)@, (first@, second@), strength as int),
            ),
            change@ == change_for(old(self)@, (first@, second@), strength as int),
    {
        proof {
            use_type_invariant(&*self);
        }
        let at = self.position(first.as_str(), second.as_str());
        let ghost before = self.rows@;
        let ghost key = (first@, second@);
        let mut rows: Vec<Relationship> = Vec::new();
        std::mem::swap(&mut self.rows, &mut rows);
        let change = match at {
            Some(i) => {
                proof {
                    lemma_row_in_map(before, i as int);
                }
                rows[i].strength = strength;
                proof {
                    lemma_rows_map_put(before, rows@, Some(i as int), rows@[i as int]);
                }
                RelationshipChange::UpdateStrength {
                    from_id: first.clone(),
                    to_id: second.clone(),
                    strength,
                }
            },
            None => {
                let row = Relationship {
                    from_id: first.clone(),
                    to_id: second.clone(),
                    relation_type: "co-occurrence".to_owned(),
                    strength,
                    since_chapter: None,
                    notes: Some("Auto-generated".to_owned()),
                };
                let copy = Relationship {
                    from_id: first.clone(),
                    to_id: second.clone(),
                    relation_type: "co-occurrence".to_owned(),
                    strength,
                    since_chapter: None,
                    notes: Some("Auto-generated".to_owned()),
                };
                rows.push(row);
                proof {
                    lemma_rows_map_put(before, rows@, None, row);
                }
                RelationshipChange::Insert { relationship: copy }
            },
        };
        self.rows = rows;
        change
    }

    /// The number of rows.
    pub fn len(&self) -> (n: usize)
        ensures
            self@.dom().finite(),
            n == self@.dom().len(),
    {
        proof {
            use_type_invariant(self);
            let keys = row_keys(self.rows@);
            keys.unique_seq_to_set();
            assert(self@.dom() =~= keys.to_set()) by {
                assert forall|k: (Seq<char>, Seq<char>)| self@.dom().contains(k) implies keys.to_set().contains(
                    k,
                ) by {
                    let j = choose|j: int| keyed_at(self.rows@, k, j);
                    assert(keys[j] == k);
                }
                assert forall|k: (Seq<char>, Seq<char>)| keys.to_set().contains(k) implies self@.dom().contains(
                    k,
                ) by {
                    let j = choose|j: int| 0 <= j < keys.len() && keys[j] == k;
                    assert(keyed_at(self.rows@, k, j));
                }
            }
        }
        self.rows.len()
    }

    /// The rows, borrowed, as a list: each key exactly once.
    pub fn rows(&self) -> (rows: &Vec<Relationship>)
        ensures
            row_keys(rows@).no_duplicates(),
            rows_map(rows@) == self@,
    {
        proof {
            use_type_invariant(self);
        }
        &self.rows
    }

    /// The rows as a list, each key exactly once.
    pub fn into_rows(self) -> (rows: Vec<Relationship>)
        ensures
            row_keys(rows@).no_duplicates(),
            rows_map(rows@) == self@,
    {
        proof {
            use_type_invariant(&self);
        }
        self.rows
    }
}

} // verus!
