//! Relationship strengths from co-occurrence: two characters that take part
//! in the same scene are related, the more strongly the more often they do.
//!
//! A pair of characters is unordered. Its key lists the two names in lexical
//! order, so that either order of mention leads to the same key.

use vstd::prelude::*;
use vstd::string::*;
use crate::analysis::relationship_store::{
    change_for, change_key, rescored_row, ChangeView, RelationshipChange, RelationshipStore,
    RowView,
};
use crate::text::{lex_le, lemma_lex_le_antisym, lemma_lex_le_total, str_eq, str_le, views};

verus! {

/// The largest number of co-occurrences whose strength still fits the
/// strength field of a relationship.
pub const MAX_PAIR_COUNT: i32 = 214_748_364;

/// The strength that each co-occurrence adds to a relationship.
pub const STRENGTH_PER_SCENE: i32 = 10;

/// The key of the unordered pair of `a` and `b`: the two names in lexical
/// order.
pub open spec fn pair_key(a: Seq<char>, b: Seq<char>) -> (Seq<char>, Seq<char>) {
    if lex_le(a, b) {
        (a, b)
    } else {
        (b, a)
    }
}

/// 1 if the participants at positions `i` and `j` form the pair `key`, else 0.
pub open spec fn hit(
    participants: Seq<Seq<char>>,
    i: int,
    j: int,
    key: (Seq<char>, Seq<char>),
) -> nat {
    if pair_key(participants[i], participants[j]) == key {
        1
    } else {
        0
    }
}

/// How many positions `j` with `i < j < upto` form the pair `key` together
/// with position `i`.
pub open spec fn row_count(
    participants: Seq<Seq<char>>,
    i: int,
    upto: int,
    key: (Seq<char>, Seq<char>),
) -> nat
    decreases upto,
{
    if upto <= i + 1 || upto <= 0 {
        0
    } else {
        row_count(participants, i, upto - 1, key) + hit(participants, i, upto - 1, key)
    }
}

/// How many pairs of positions `i < j` with `i < rows` form the pair `key`.
pub open spec fn scene_count_upto(
    participants: Seq<Seq<char>>,
    rows: int,
    key: (Seq<char>, Seq<char>),
) -> nat
    decreases rows,
{
    if rows <= 0 {
        0
    } else {
        scene_count_upto(participants, rows - 1, key) + row_count(
            participants,
            rows - 1,
            participants.len() as int,
            key,
        )
    }
}

/// How many pairs of positions of one scene's participant list form the
/// pair `key`.
pub open spec fn scene_count(participants: Seq<Seq<char>>, key: (Seq<char>, Seq<char>)) -> nat {
    scene_count_upto(participants, participants.len() as int, key)
}

/// How often the pair `key` co-occurs over all scenes.
pub open spec fn co_occurrence_count(
    scenes: Seq<Seq<Seq<char>>>,
    key: (Seq<char>, Seq<char>),
) -> nat
    decreases scenes.len(),
{
    if scenes.len() == 0 {
        0
    } else {
        co_occurrence_count(scenes.drop_last(), key) + scene_count(scenes.last(), key)
    }
}

/// The participant names of each scene, scene by scene.
pub open spec fn participant_lists(scenes: Seq<Vec<String>>) -> Seq<Seq<Seq<char>>> {
    Seq::new(scenes.len(), |s: int| views(scenes[s]@))
}

/// A pair of characters and the number of times it co-occurs.
#[derive(Clone, Debug)]
pub struct PairCount {
    pub first: String,
    pub second: String,
    pub count: i32,
}

/// The pair that an entry of a tally counts.
pub open spec fn tally_key(entry: PairCount) -> (Seq<char>, Seq<char>) {
    (entry.first@, entry.second@)
}

/// The pairs of a tally, in order.
pub open spec fn tally_keys(tally: Seq<PairCount>) -> Seq<(Seq<char>, Seq<char>)> {
    Seq::new(tally.len(), |i: int| tally_key(tally[i]))
}

/// Whether `i` is the position of the entry for `key`.
pub open spec fn counted_at(tally: Seq<PairCount>, key: (Seq<char>, Seq<char>), i: int) -> bool {
    0 <= i < tally.len() && tally_key(tally[i]) == key
}

/// The count that a tally holds for `key`; 0 where it has no entry.
pub open spec fn tally_count(tally: Seq<PairCount>, key: (Seq<char>, Seq<char>)) -> int {
    if exists|i: int| counted_at(tally, key, i) {
        tally[choose|i: int| counted_at(tally, key, i)].count as int
    } else {
        0
    }
}

/// A tally is well formed when no pair has two entries and every count is
/// at least 1 and at most `MAX_PAIR_COUNT`.
pub open spec fn tally_wf(tally: Seq<PairCount>) -> bool {
    &&& tally_keys(tally).no_duplicates()
    &&& forall|i: int| 0 <= i < tally.len() ==> 1 <= #[trigger] tally[i].count <= MAX_PAIR_COUNT
}

/// In a well-formed tally the entry at position `i` holds the count of its
/// pair.
pub proof fn lemma_tally_count_at(tally: Seq<PairCount>, i: int)
    requires
        tally_keys(tally).no_duplicates(),
        0 <= i < tally.len(),
    ensures
        tally_count(tally, tally_key(tally[i])) == tally[i].count,
{
    let key = tally_key(tally[i]);
    assert(counted_at(tally, key, i));
    let j = choose|j: int| counted_at(tally, key, j);
    assert(tally_keys(tally)[i] == key);
    assert(tally_keys(tally)[j] == key);
}

/// Either order of two names leads to the same key.
pub proof fn lemma_pair_key_symmetric(a: Seq<char>, b: Seq<char>)
    ensures
        pair_key(a, b) == pair_key(b, a),
{
    lemma_lex_le_total(a, b);
    if lex_le(a, b) && lex_le(b, a) {
        lemma_lex_le_antisym(a, b);
    }
}

proof fn lemma_row_count_monotone(
    participants: Seq<Seq<char>>,
    i: int,
    lo: int,
    hi: int,
    key: (Seq<char>, Seq<char>),
)
    requires
        lo <= hi,
    ensures
        row_count(participants, i, lo, key) <= row_count(participants, i, hi, key),
    decreases hi - lo,
{
    if lo < hi {
        lemma_row_count_monotone(participants, i, lo, hi - 1, key);
    }
}

proof fn lemma_scene_count_monotone(
    participants: Seq<Seq<char>>,
    lo: int,
    hi: int,
    key: (Seq<char>, Seq<char>),
)
    requires
        lo <= hi,
    ensures
        scene_count_upto(participants, lo, key) <= scene_count_upto(participants, hi, key),
    decreases hi - lo,
{
    if lo < hi {
        lemma_scene_count_monotone(participants, lo, hi - 1, key);
    }
}

proof fn lemma_count_monotone(scenes: Seq<Seq<Seq<char>>>, n: int, key: (Seq<char>, Seq<char>))
    requires
        0 <= n <= scenes.len(),
    ensures
        co_occurrence_count(scenes.take(n), key) <= co_occurrence_count(scenes, key),
    decreases scenes.len() - n,
{
    if n < scenes.len() {
        lemma_count_monotone(scenes, n + 1, key);
        assert(scenes.take(n + 1).drop_last() =~= scenes.take(n));
    } else {
        assert(scenes.take(n) =~= scenes);
    }
}

/// The two names in lexical order.
pub fn ordered_pair<'a>(a: &'a String, b: &'a String) -> (pair: (&'a String, &'a String))
    ensures
        (pair.0@, pair.1@) == pair_key(a@, b@),
{
    if str_le(a.as_str(), b.as_str()) {
        (a, b)
    } else {
        (b, a)
    }
}

/// The position of the entry of `tally` for the pair of `first` and
/// `second`, as given.
fn find_pair(tally: &Vec<PairCount>, first: &str, second: &str) -> (at: Option<usize>)
    ensures
        match at {
            Some(i) => counted_at(tally@, (first@, second@), i as int),
            None => forall|i: int| !counted_at(tally@, (first@, second@), i),
        },
{
    let mut i: usize = 0;
    while i < tally.len()
        invariant
            i <= tally.len(),
            forall|k: int| 0 <= k < i ==> !counted_at(tally@, (first@, second@), k),
        decreases tally.len() - i,
    {
        if str_eq(tally[i].first.as_str(), first) && str_eq(tally[i].second.as_str(), second) {
            return Some(i);
        }
        i += 1;
    }
    None
}

/// Counts one more co-occurrence of the pair `(first, second)`. Returns
/// `false`, and leaves the tally as it is, when the count of that pair has
/// reached `MAX_PAIR_COUNT`.
fn count_pair(tally: &mut Vec<PairCount>, first: &String, second: &String) -> (counted: bool)
    requires
        tally_wf(old(tally)@),
    ensures
        tally_wf(final(tally)@),
        counted == (tally_count(old(tally)@, (first@, second@)) < MAX_PAIR_COUNT),
        counted ==> forall|key: (Seq<char>, Seq<char>)|
            tally_count(final(tally)@, key) == tally_count(old(tally)@, key) + if key == (
                first@,
                second@,
            ) {
                1int
            } else {
                0int
            },
        !counted ==> final(tally)@ == old(tally)@,
{
    let ghost before = tally@;
    let ghost target = (first@, second@);
    match find_pair(tally, first.as_str(), second.as_str()) {
        Some(k) => {
            proof {
                lemma_tally_count_at(before, k as int);
            }
            if tally[k].count >= MAX_PAIR_COUNT {
                return false;
            }
            tally[k].count = tally[k].count + 1;
            proof {
                let after = tally@;
                assert(tally_keys(after) =~= tally_keys(before));
                assert forall|key: (Seq<char>, Seq<char>)|
                    tally_count(after, key) == tally_count(before, key) + if key == target {
                        1int
                    } else {
                        0int
                    } by {
                    assert forall|i: int| counted_at(after, key, i) == counted_at(before, key, i) by {
                        if 0 <= i < after.len() {
                            assert(tally_keys(after)[i] == tally_keys(before)[i]);
                        }
                    }
                    if exists|i: int| counted_at(before, key, i) {
                        let i = choose|i: int| counted_at(before, key, i);
                        lemma_tally_count_at(before, i);
                        lemma_tally_count_at(after, i);
                        if key == target {
                            assert(tally_keys(before)[i] == tally_keys(before)[k as int]);
                        } else {
                            assert(i != k);
                        }
                    }
                }
            }
            true
        },
        None => {
            tally.push(PairCount { first: first.clone(), second: second.clone(), count: 1 });
            proof {
                let after = tally@;
                let last = before.len() as int;
                assert(counted_at(after, target, last));
                assert(tally_keys(after).no_duplicates()) by {
                    assert forall|i: int, j: int|
                        0 <= i < after.len() && 0 <= j < after.len() && i != j implies tally_keys(
                        after,
                    )[i] != tally_keys(after)[j] by {
                        if i < last && j < last {
                            assert(tally_keys(before)[i] != tally_keys(before)[j]);
                        } else if i < last {
                            assert(!counted_at(before, target, i));
                        } else {
                            assert(!counted_at(before, target, j));
                        }
                    }
                }
                assert forall|key: (Seq<char>, Seq<char>)|
                    tally_count(after, key) == tally_count(before, key) + if key == target {
                        1int
                    } else {
                        0int
                    } by {
                    if key == target {
                        lemma_tally_count_at(after, last);
                    } else if exists|i: int| counted_at(before, key, i) {
                        let i = choose|i: int| counted_at(before, key, i);
                        assert(counted_at(after, key, i));
                        lemma_tally_count_at(before, i);
                        lemma_tally_count_at(after, i);
                    } else {
                        assert forall|i: int| !counted_at(after, key, i) by {
                            if 0 <= i < last {
                                assert(!counted_at(before, key, i));
                            }
                        }
                    }
                }
            }
            true
        },
    }
}

/// How often each pair of participants co-occurs over the given scenes, one
/// entry for each pair that co-occurs at all. A scene with fewer than two
/// participants adds nothing. The result is `None` exactly when some pair
/// co-occurs more than `MAX_PAIR_COUNT` times.
pub fn co_occurrences(scenes: &Vec<Vec<String>>) -> (result: Option<Vec<PairCount>>)
    ensures
        match result {
            Some(tally) => {
                &&& tally_wf(tally@)
                &&& forall|key: (Seq<char>, Seq<char>)|
                    tally_count(tally@, key) == co_occurrence_count(
                        participant_lists(scenes@),
                        key,
                    )
            },
            None => exists|key: (Seq<char>, Seq<char>)|
                co_occurrence_count(participant_lists(scenes@), key) > MAX_PAIR_COUNT,
        },
{
    let ghost lists = participant_lists(scenes@);
    let mut tally: Vec<PairCount> = Vec::new();
    let mut s: usize = 0;
    proof {
        assert(lists.take(0) =~= Seq::<Seq<Seq<char>>>::empty());
    }
    while s < scenes.len()
        invariant
            s <= scenes.len(),
            lists == participant_lists(scenes@),
            tally_wf(tally@),
            forall|key: (Seq<char>, Seq<char>)|
                tally_count(tally@, key) == co_occurrence_count(lists.take(s as int), key),
        decreases scenes.len() - s,
    {
        let participants = &scenes[s];
        let ghost names = lists[s as int];
        let ghost done = lists.take(s as int);
        proof {
            assert(lists.take(s + 1).drop_last() =~= done);
            assert(lists.take(s + 1).last() == names);
        }
        let mut i: usize = 0;
        while i < participants.len()
            invariant
                i <= participants.len(),
                s < scenes.len(),
                lists == participant_lists(scenes@),
                names == views(participants@),
                names == lists[s as int],
                done == lists.take(s as int),
                tally_wf(tally@),
                forall|key: (Seq<char>, Seq<char>)|
                    tally_count(tally@, key) == co_occurrence_count(done, key) + scene_count_upto(
                        names,
                        i as int,
                        key,
                    ),
            decreases participants.len() - i,
        {
            let mut j: usize = i + 1;
            while j < participants.len()
                invariant
                    i < participants.len(),
                    i + 1 <= j <= participants.len(),
                    s < scenes.len(),
                    lists == participant_lists(scenes@),
                    names == views(participants@),
                    names == lists[s as int],
                    done == lists.take(s as int),
                    tally_wf(tally@),
                    forall|key: (Seq<char>, Seq<char>)|
                        tally_count(tally@, key) == co_occurrence_count(done, key)
                            + scene_count_upto(names, i as int, key) + row_count(
                            names,
                            i as int,
                            j as int,
                            key,
                        ),
                decreases participants.len() - j,
            {
                let pair = ordered_pair(&participants[i], &participants[j]);
                let ghost key = (pair.0@, pair.1@);
                proof {
                    assert(key == pair_key(names[i as int], names[j as int]));
                    assert(hit(names, i as int, j as int, key) == 1);
                }
                let ghost held = tally_count(tally@, key);
                if !count_pair(&mut tally, pair.0, pair.1) {
                    proof {
                        let len = names.len() as int;
                        assert(held >= MAX_PAIR_COUNT);
                        assert(held == co_occurrence_count(done, key) + scene_count_upto(
                            names,
                            i as int,
                            key,
                        ) + row_count(names, i as int, j as int, key));
                        assert(row_count(names, i as int, j + 1, key) == row_count(
                            names,
                            i as int,
                            j as int,
                            key,
                        ) + 1);
                        lemma_row_count_monotone(names, i as int, j + 1, len, key);
                        assert(scene_count_upto(names, i + 1, key) == scene_count_upto(
                            names,
                            i as int,
                            key,
                        ) + row_count(names, i as int, len, key));
                        lemma_scene_count_monotone(names, i + 1, len, key);
                        assert(lists.take(s + 1).drop_last() =~= done);
                        assert(lists.take(s + 1).last() == names);
                        assert(co_occurrence_count(lists.take(s + 1), key) == co_occurrence_count(
                            done,
                            key,
                        ) + scene_count(names, key));
                        lemma_count_monotone(lists, s + 1, key);
                        assert(co_occurrence_count(lists, key) > MAX_PAIR_COUNT);
                    }
                    return None;
                }
                j += 1;
            }
            i += 1;
        }
        s += 1;
    }
    proof {
        assert(lists.take(s as int) =~= lists);
    }
    Some(tally)
}

/// The table after a recalculation over `scenes`: every pair that co-occurs
/// has a row whose strength is `STRENGTH_PER_SCENE` times its count, an
/// existing row keeping its other fields; every other row is as it was.
pub open spec fn recalculated(
    table: Map<(Seq<char>, Seq<char>), RowView>,
    scenes: Seq<Seq<Seq<char>>>,
) -> Map<(Seq<char>, Seq<char>), RowView> {
    Map::new(
        |key: (Seq<char>, Seq<char>)| table.contains_key(key) || co_occurrence_count(scenes, key) > 0,
        |key: (Seq<char>, Seq<char>)|
            if co_occurrence_count(scenes, key) > 0 {
                rescored_row(table, key, STRENGTH_PER_SCENE * co_occurrence_count(scenes, key))
            } else {
                table[key]
            },
    )
}

/// The table after the strengths of a tally have been applied to it.
pub open spec fn rescored_by(
    table: Map<(Seq<char>, Seq<char>), RowView>,
    tally: Seq<PairCount>,
) -> Map<(Seq<char>, Seq<char>), RowView> {
    Map::new(
        |key: (Seq<char>, Seq<char>)| table.contains_key(key) || tally_count(tally, key) > 0,
        |key: (Seq<char>, Seq<char>)|
            if tally_count(tally, key) > 0 {
                rescored_row(table, key, STRENGTH_PER_SCENE * tally_count(tally, key))
            } else {
                table[key]
            },
    )
}

/// The keys of the rows that a list of changes touches, in order.
pub open spec fn change_keys(changes: Seq<RelationshipChange>) -> Seq<(Seq<char>, Seq<char>)> {
    Seq::new(changes.len(), |i: int| change_key(changes[i]@))
}

/// The counts of a tally cut after `n` entries: those of the first `n`
/// entries, and 0 for every other pair.
proof fn lemma_tally_prefix(tally: Seq<PairCount>, n: int)
    requires
        tally_wf(tally),
        0 <= n < tally.len(),
    ensures
        tally_wf(tally.take(n)),
        tally_wf(tally.take(n + 1)),
        tally_count(tally.take(n), tally_key(tally[n])) == 0,
        forall|key: (Seq<char>, Seq<char>)|
            tally_count(tally.take(n + 1), key) == if key == tally_key(tally[n]) {
                tally[n].count as int
            } else {
                tally_count(tally.take(n), key)
            },
{
    let short = tally.take(n);
    let long = tally.take(n + 1);
    let target = tally_key(tally[n]);
    assert forall|i: int, j: int| 0 <= i < long.len() && 0 <= j < long.len() && i != j implies tally_keys(
        long,
    )[i] != tally_keys(long)[j] by {
        assert(tally_keys(tally)[i] != tally_keys(tally)[j]);
    }
    assert forall|i: int, j: int|
        0 <= i < short.len() && 0 <= j < short.len() && i != j implies tally_keys(short)[i]
        != tally_keys(short)[j] by {
        assert(tally_keys(tally)[i] != tally_keys(tally)[j]);
    }
    assert forall|i: int| 0 <= i < long.len() implies 1 <= #[trigger] long[i].count
        <= MAX_PAIR_COUNT by {
        assert(long[i] == tally[i]);
    }
    assert forall|i: int| 0 <= i < short.len() implies 1 <= #[trigger] short[i].count
        <= MAX_PAIR_COUNT by {
        assert(short[i] == tally[i]);
    }
    assert forall|i: int| !counted_at(short, target, i) by {
        if 0 <= i < short.len() {
            assert(tally_keys(tally)[i] != tally_keys(tally)[n]);
        }
    }
    assert forall|key: (Seq<char>, Seq<char>)|
        tally_count(long, key) == if key == target {
            tally[n].count as int
        } else {
            tally_count(short, key)
        } by {
        if key == target {
            lemma_tally_count_at(long, n);
        } else if exists|i: int| counted_at(short, key, i) {
            let i = choose|i: int| counted_at(short, key, i);
            assert(counted_at(long, key, i));
            lemma_tally_count_at(short, i);
            lemma_tally_count_at(long, i);
        } else {
            assert forall|i: int| !counted_at(long, key, i) by {
                if 0 <= i < n {
                    assert(!counted_at(short, key, i));
                }
            }
        }
    }
}

/// Recomputes the co-occurrence strengths from all scenes and stores them.
///
/// `scenes` holds the participant names of every scene. For each pair that
/// co-occurs, the row under the pair's key gets the strength
/// `STRENGTH_PER_SCENE` times the number of co-occurrences; a row that exists
/// keeps its other fields, a missing one is created. Rows of pairs that do
/// not co-occur stay as they are. The changes made are returned, one for
/// each pair that co-occurs.
///
/// Fails, leaving the store as it was, exactly when the strength of some
/// pair would not fit a row.
pub fn recalculate_relationships(scenes: &Vec<Vec<String>>, store: &mut RelationshipStore) -> (result:
    Result<Vec<RelationshipChange>, String>)
    ensures
        match result {
            Ok(changes) => {
                let lists = participant_lists(scenes@);
                &&& forall|key: (Seq<char>, Seq<char>)|
                    co_occurrence_count(lists, key) <= MAX_PAIR_COUNT
                &&& final(store)@ == recalculated(old(store)@, lists)
                &&& change_keys(changes@).no_duplicates()
                &&& forall|i: int|
                    0 <= i < changes.len() ==> {
                        let key = change_key(#[trigger] changes[i]@);
                        &&& co_occurrence_count(lists, key) > 0
                        &&& changes[i]@ == change_for(
                            old(store)@,
                            key,
                            STRENGTH_PER_SCENE * co_occurrence_count(lists, key),
                        )
                    }
                &&& forall|key: (Seq<char>, Seq<char>)|
                    co_occurrence_count(lists, key) > 0 ==> exists|i: int|
                        0 <= i < changes.len() && change_key(changes[i]@) == key
            },
            Err(reason) => {
                &&& exists|key: (Seq<char>, Seq<char>)|
                    co_occurrence_count(participant_lists(scenes@), key) > MAX_PAIR_COUNT
                &&& final(store)@ == old(store)@
                &&& reason@ == "Relationship strength out of range"@
            },
        },
{
    let ghost lists = participant_lists(scenes@);
    let ghost table = store@;
    let tally = match co_occurrences(scenes) {
        Some(tally) => tally,
        None => {
            return Err("Relationship strength out of range".to_owned());
        },
    };
    proof {
        assert forall|key: (Seq<char>, Seq<char>)| co_occurrence_count(lists, key)
            <= MAX_PAIR_COUNT by {
            if exists|i: int| counted_at(tally@, key, i) {
                let i = choose|i: int| counted_at(tally@, key, i);
                lemma_tally_count_at(tally@, i);
            }
            assert(tally_count(tally@, key) == co_occurrence_count(lists, key));
        }
        assert(tally@.take(0) =~= Seq::<PairCount>::empty());
        assert forall|key: (Seq<char>, Seq<char>)| tally_count(tally@.take(0), key) == 0 by {
            assert forall|i: int| !counted_at(tally@.take(0), key, i) by {}
        }
        assert(rescored_by(table, tally@.take(0)) =~= table);
    }
    let mut changes: Vec<RelationshipChange> = Vec::new();
    let mut t: usize = 0;
    while t < tally.len()
        invariant
            t <= tally.len(),
            tally_wf(tally@),
            changes.len() == t,
            store@ == rescored_by(table, tally@.take(t as int)),
            forall|i: int|
                0 <= i < t ==> {
                    &&& change_key(#[trigger] changes[i]@) == tally_key(tally@[i])
                    &&& changes[i]@ == change_for(
                        table,
                        tally_key(tally@[i]),
                        STRENGTH_PER_SCENE * tally@[i].count,
                    )
                },
        decreases tally.len() - t,
    {
        let entry = &tally[t];
        let ghost key = tally_key(*entry);
        let ghost current = store@;
        proof {
            lemma_tally_prefix(tally@, t as int);
            assert(current.contains_key(key) == table.contains_key(key));
            assert(table.contains_key(key) ==> current[key] == table[key]);
        }
        let strength = entry.count * STRENGTH_PER_SCENE;
        let change = store.set_strength(&entry.first, &entry.second, strength);
        proof {
            let next = rescored_by(table, tally@.take(t + 1));
            assert(rescored_row(current, key, strength as int) == rescored_row(
                table,
                key,
                strength as int,
            ));
            assert(store@ =~= next) by {
                assert forall|k: (Seq<char>, Seq<char>)| store@.contains_key(k) implies next.contains_key(
                    k,
                ) by {
                    if k != key {
                        assert(current.contains_key(k));
                    }
                }
                assert forall|k: (Seq<char>, Seq<char>)| next.contains_key(k) implies store@.contains_key(
                    k,
                ) by {
                    if k != key {
                        assert(current.contains_key(k));
                    }
                }
                assert forall|k: (Seq<char>, Seq<char>)| next.contains_key(k) implies store@[k]
                    == next[k] by {
                    if k != key {
                        assert(current.contains_key(k));
                        assert(store@[k] == current[k]);
                    }
                }
            }
            assert(change@ == change_for(table, key, strength as int));
        }
        changes.push(change);
        t += 1;
    }
    proof {
        assert(tally@.take(t as int) =~= tally@);
        assert(store@ =~= recalculated(table, lists)) by {
            assert forall|k: (Seq<char>, Seq<char>)|
                tally_count(tally@, k) == co_occurrence_count(lists, k) by {}
        }
        assert forall|i: int, j: int|
            0 <= i < changes.len() && 0 <= j < changes.len() && i != j implies change_keys(
            changes@,
        )[i] != change_keys(changes@)[j] by {
            assert(tally_keys(tally@)[i] != tally_keys(tally@)[j]);
        }
        assert forall|i: int| 0 <= i < changes.len() implies {
            let key = change_key(#[trigger] changes[i]@);
            &&& co_occurrence_count(lists, key) > 0
            &&& changes[i]@ == change_for(
                table,
                key,
                STRENGTH_PER_SCENE * co_occurrence_count(lists, key),
            )
        } by {
            lemma_tally_count_at(tally@, i);
            assert(tally_count(tally@, tally_key(tally@[i])) == co_occurrence_count(
                lists,
                tally_key(tally@[i]),
            ));
        }
        assert forall|key: (Seq<char>, Seq<char>)| co_occurrence_count(lists, key) > 0 implies exists|
            i: int,
        |
            0 <= i < changes.len() && change_key(changes[i]@) == key by {
            assert(tally_count(tally@, key) == co_occurrence_count(lists, key));
            let i = choose|i: int| counted_at(tally@, key, i);
            assert(change_key(changes[i]@) == key);
        }
    }
    Ok(changes)
}

} // verus!
