//! Laws of the co-occurrence strengths: the order of mention does not
//! matter, strength grows by a fixed step with every shared scene, and a
//! recalculation repeated on the same scenes changes nothing.

use vstd::prelude::*;
use crate::analysis::relationship_store::{rescored_row, RowView};
use crate::analysis::relationships::{
    co_occurrence_count, hit, lemma_pair_key_symmetric, pair_key, recalculated, row_count,
    scene_count, scene_count_upto, STRENGTH_PER_SCENE,
};

verus! {

/// Whether positions `i` and `j` hold the names `a` and `b`, in either order.
pub open spec fn holds_pair(
    participants: Seq<Seq<char>>,
    i: int,
    j: int,
    a: Seq<char>,
    b: Seq<char>,
) -> bool {
    (participants[i] == a && participants[j] == b) || (participants[i] == b && participants[j]
        == a)
}

/// The number of scenes in which both `a` and `b` take part.
pub open spec fn scenes_with_both(scenes: Seq<Seq<Seq<char>>>, a: Seq<char>, b: Seq<char>) -> nat
    decreases scenes.len(),
{
    if scenes.len() == 0 {
        0
    } else {
        scenes_with_both(scenes.drop_last(), a, b) + if scenes.last().contains(a)
            && scenes.last().contains(b) {
            1nat
        } else {
            0nat
        }
    }
}

/// Two pairs of names have the same key exactly when they hold the same two
/// names, in either order.
pub proof fn lemma_same_key(u: Seq<char>, v: Seq<char>, a: Seq<char>, b: Seq<char>)
    ensures
        pair_key(u, v) == pair_key(a, b) <==> (u == a && v == b) || (u == b && v == a),
{
    lemma_pair_key_symmetric(a, b);
    lemma_pair_key_symmetric(u, v);
}

/// The co-occurrence count of a list of scenes is the sum of the counts of
/// its parts.
pub proof fn lemma_count_concat(
    front: Seq<Seq<Seq<char>>>,
    back: Seq<Seq<Seq<char>>>,
    key: (Seq<char>, Seq<char>),
)
    ensures
        co_occurrence_count(front + back, key) == co_occurrence_count(front, key)
            + co_occurrence_count(back, key),
    decreases back.len(),
{
    if back.len() == 0 {
        assert(front + back =~= front);
    } else {
        lemma_count_concat(front, back.drop_last(), key);
        assert((front + back).drop_last() =~= front + back.drop_last());
        assert((front + back).last() == back.last());
    }
}

/// A scene with exactly two participants counts once for their pair and for
/// no other.
pub proof fn lemma_count_of_two(a: Seq<char>, b: Seq<char>, key: (Seq<char>, Seq<char>))
    ensures
        scene_count(seq![a, b], key) == if pair_key(a, b) == key {
            1nat
        } else {
            0nat
        },
{
    let p = seq![a, b];
    assert(row_count(p, 1, 2, key) == 0);
    assert(row_count(p, 0, 1, key) == 0);
    assert(row_count(p, 0, 2, key) == row_count(p, 0, 1, key) + hit(p, 0, 1, key));
    assert(scene_count_upto(p, 0, key) == 0);
    assert(scene_count_upto(p, 1, key) == scene_count_upto(p, 0, key) + row_count(p, 0, 2, key));
    assert(scene_count_upto(p, 2, key) == scene_count_upto(p, 1, key) + row_count(p, 1, 2, key));
}

/// Symmetry: a scene that lists two participants as `a, b` and one that
/// lists them as `b, a` lead to the same key, the same counts and the same
/// stored strengths, whatever other scenes there are.
pub proof fn lemma_recalculation_symmetric(
    table: Map<(Seq<char>, Seq<char>), RowView>,
    earlier: Seq<Seq<Seq<char>>>,
    later: Seq<Seq<Seq<char>>>,
    a: Seq<char>,
    b: Seq<char>,
)
    ensures
        pair_key(a, b) == pair_key(b, a),
        forall|key: (Seq<char>, Seq<char>)|
            co_occurrence_count(earlier + seq![seq![a, b]] + later, key) == co_occurrence_count(
                earlier + seq![seq![b, a]] + later,
                key,
            ),
        recalculated(table, earlier + seq![seq![a, b]] + later) == recalculated(
            table,
            earlier + seq![seq![b, a]] + later,
        ),
{
    lemma_pair_key_symmetric(a, b);
    let one = earlier + seq![seq![a, b]] + later;
    let other = earlier + seq![seq![b, a]] + later;
    assert forall|key: (Seq<char>, Seq<char>)|
        co_occurrence_count(one, key) == co_occurrence_count(other, key) by {
        lemma_count_concat(earlier + seq![seq![a, b]], later, key);
        lemma_count_concat(earlier + seq![seq![b, a]], later, key);
        lemma_count_concat(earlier, seq![seq![a, b]], key);
        lemma_count_concat(earlier, seq![seq![b, a]], key);
        lemma_count_of_two(a, b, key);
        lemma_count_of_two(b, a, key);
        let ab = seq![seq![a, b]];
        let ba = seq![seq![b, a]];
        assert(ab.drop_last() =~= Seq::<Seq<Seq<char>>>::empty());
        assert(ba.drop_last() =~= Seq::<Seq<Seq<char>>>::empty());
        assert(co_occurrence_count(ab.drop_last(), key) == 0);
        assert(co_occurrence_count(ba.drop_last(), key) == 0);
        assert(ab.last() == seq![a, b]);
        assert(ba.last() == seq![b, a]);
    }
    assert(recalculated(table, one) =~= recalculated(table, other));
}

proof fn lemma_row_count_distinct(
    p: Seq<Seq<char>>,
    i: int,
    upto: int,
    a: Seq<char>,
    b: Seq<char>,
)
    requires
        p.no_duplicates(),
        a != b,
        0 <= i < p.len(),
        upto <= p.len(),
    ensures
        row_count(p, i, upto, pair_key(a, b)) == if exists|j: int|
            i < j < upto && holds_pair(p, i, j, a, b) {
            1nat
        } else {
            0nat
        },
    decreases upto,
{
    let key = pair_key(a, b);
    if upto > i + 1 && upto > 0 {
        let last = upto - 1;
        lemma_row_count_distinct(p, i, last, a, b);
        lemma_same_key(p[i], p[last], a, b);
        if holds_pair(p, i, last, a, b) {
            assert forall|j: int| i < j < last implies !holds_pair(p, i, j, a, b) by {
                assert(p[j] != p[last]);
            }
            assert(i < last < upto && holds_pair(p, i, last, a, b));
        } else {
            assert forall|j: int| i < j < upto && holds_pair(p, i, j, a, b) implies i < j
                < last by {}
        }
    }
}

proof fn lemma_scene_count_distinct(p: Seq<Seq<char>>, rows: int, a: Seq<char>, b: Seq<char>)
    requires
        p.no_duplicates(),
        a != b,
        0 <= rows <= p.len(),
    ensures
        scene_count_upto(p, rows, pair_key(a, b)) == if exists|i: int, j: int|
            0 <= i < rows && i < j < p.len() && holds_pair(p, i, j, a, b) {
            1nat
        } else {
            0nat
        },
    decreases rows,
{
    if rows > 0 {
        let len = p.len() as int;
        let r = rows - 1;
        lemma_scene_count_distinct(p, r, a, b);
        lemma_row_count_distinct(p, r, len, a, b);
        if exists|j: int| r < j < len && holds_pair(p, r, j, a, b) {
            let j = choose|j: int| r < j < len && holds_pair(p, r, j, a, b);
            assert forall|i2: int, j2: int| 0 <= i2 < r && i2 < j2 < len implies !holds_pair(
                p,
                i2,
                j2,
                a,
                b,
            ) by {
                assert(p[i2] != p[r]);
                assert(p[i2] != p[j]);
            }
            assert(0 <= r < rows && r < j < len && holds_pair(p, r, j, a, b));
        } else {
            if exists|i: int, j: int| 0 <= i < rows && i < j < len && holds_pair(p, i, j, a, b) {
                let (i, j) = choose|i: int, j: int|
                    0 <= i < rows && i < j < len && holds_pair(p, i, j, a, b);
                assert(i < r);
            }
        }
    }
}

/// In a scene that lists nobody twice, two different names form exactly one
/// pair when both take part, and none otherwise.
pub proof fn lemma_scene_count_of_set(p: Seq<Seq<char>>, a: Seq<char>, b: Seq<char>)
    requires
        p.no_duplicates(),
        a != b,
    ensures
        scene_count(p, pair_key(a, b)) == if p.contains(a) && p.contains(b) {
            1nat
        } else {
            0nat
        },
{
    let len = p.len() as int;
    lemma_scene_count_distinct(p, len, a, b);
    if p.contains(a) && p.contains(b) {
        let ia = choose|i: int| 0 <= i < p.len() && p[i] == a;
        let ib = choose|i: int| 0 <= i < p.len() && p[i] == b;
        if ia < ib {
            assert(0 <= ia < len && ia < ib < len && holds_pair(p, ia, ib, a, b));
        } else {
            assert(0 <= ib < len && ib < ia < len && holds_pair(p, ib, ia, a, b));
        }
    } else {
        if exists|i: int, j: int| 0 <= i < len && i < j < len && holds_pair(p, i, j, a, b) {
            let (i, j) = choose|i: int, j: int|
                0 <= i < len && i < j < len && holds_pair(p, i, j, a, b);
            assert(p.contains(p[i]));
            assert(p.contains(p[j]));
        }
    }
}

/// Linearity: where no scene lists a participant twice, the number of
/// co-occurrences of two different characters is the number of scenes in
/// which both take part, and the strength a recalculation stores for them is
/// `STRENGTH_PER_SCENE` times that number.
pub proof fn lemma_strength_linear(
    table: Map<(Seq<char>, Seq<char>), RowView>,
    scenes: Seq<Seq<Seq<char>>>,
    a: Seq<char>,
    b: Seq<char>,
)
    requires
        a != b,
        forall|s: int| 0 <= s < scenes.len() ==> (#[trigger] scenes[s]).no_duplicates(),
    ensures
        co_occurrence_count(scenes, pair_key(a, b)) == scenes_with_both(scenes, a, b),
        scenes_with_both(scenes, a, b) > 0 ==> {
            &&& recalculated(table, scenes).contains_key(pair_key(a, b))
            &&& recalculated(table, scenes)[pair_key(a, b)].strength == STRENGTH_PER_SCENE
                * scenes_with_both(scenes, a, b)
        },
    decreases scenes.len(),
{
    if scenes.len() > 0 {
        let rest = scenes.drop_last();
        assert forall|s: int| 0 <= s < rest.len() implies (#[trigger] rest[s]).no_duplicates() by {
            assert(rest[s] == scenes[s]);
        }
        lemma_strength_linear(table, rest, a, b);
        assert(scenes.last() == scenes[scenes.len() - 1]);
        lemma_scene_count_of_set(scenes.last(), a, b);
    }
}

/// Idempotence: recalculating again over the same scenes leaves the table
/// as the first recalculation made it.
pub proof fn lemma_recalculation_idempotent(
    table: Map<(Seq<char>, Seq<char>), RowView>,
    scenes: Seq<Seq<Seq<char>>>,
)
    ensures
        recalculated(recalculated(table, scenes), scenes) == recalculated(table, scenes),
{
    let once = recalculated(table, scenes);
    let twice = recalculated(once, scenes);
    assert forall|key: (Seq<char>, Seq<char>)| once.contains_key(key) implies twice[key]
        == once[key] by {
        if co_occurrence_count(scenes, key) > 0 {
            let strength = STRENGTH_PER_SCENE * co_occurrence_count(scenes, key);
            assert(once[key] == rescored_row(table, key, strength));
            assert(twice[key] == rescored_row(once, key, strength));
        }
    }
    assert(twice =~= once);
}

/// Without scenes, or with scenes of fewer than two participants each, a
/// recalculation changes nothing.
pub proof fn lemma_no_pairs_no_change(
    table: Map<(Seq<char>, Seq<char>), RowView>,
    scenes: Seq<Seq<Seq<char>>>,
)
    requires
        forall|s: int| 0 <= s < scenes.len() ==> (#[trigger] scenes[s]).len() < 2,
    ensures
        forall|key: (Seq<char>, Seq<char>)| co_occurrence_count(scenes, key) == 0,
        recalculated(table, scenes) == table,
    decreases scenes.len(),
{
    if scenes.len() > 0 {
        let rest = scenes.drop_last();
        assert forall|s: int| 0 <= s < rest.len() implies (#[trigger] rest[s]).len() < 2 by {
            assert(rest[s] == scenes[s]);
        }
        lemma_no_pairs_no_change(table, rest);
        let p = scenes.last();
        assert(p == scenes[scenes.len() - 1]);
        assert forall|key: (Seq<char>, Seq<char>)| co_occurrence_count(scenes, key) == 0 by {
            assert(co_occurrence_count(rest, key) == 0);
            if p.len() == 1 {
                assert(row_count(p, 0, 1, key) == 0);
                assert(scene_count_upto(p, 0, key) == 0);
                assert(scene_count_upto(p, 1, key) == scene_count_upto(p, 0, key) + row_count(
                    p,
                    0,
                    1,
                    key,
                ));
            }
        }
    }
    assert(recalculated(table, scenes) =~= table);
}

} // verus!
