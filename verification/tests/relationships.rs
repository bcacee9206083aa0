use story_analysis::analysis::relationship_store::{RelationshipChange, RelationshipStore};
use story_analysis::analysis::relationships::{
    co_occurrences, ordered_pair, recalculate_relationships, MAX_PAIR_COUNT, STRENGTH_PER_SCENE,
};
use story_analysis::models::Relationship;

fn scenes(lists: &[&[&str]]) -> Vec<Vec<String>> {
    lists.iter().map(|l| l.iter().map(|p| p.to_string()).collect()).collect()
}

fn strength(store: &RelationshipStore, a: &str, b: &str) -> Option<i32> {
    store.get(a, b).map(|r| r.strength)
}

#[test]
fn two_shared_scenes_give_strength_twenty() {
    let mut store = RelationshipStore::new();
    let result = recalculate_relationships(&scenes(&[&["Alice", "Bob"], &["Alice", "Bob"]]), &mut store);
    assert!(result.is_ok());
    assert_eq!(store.len(), 1);
    let row = store.get("Alice", "Bob").unwrap();
    assert_eq!(row.from_id, "Alice");
    assert_eq!(row.to_id, "Bob");
    assert_eq!(row.strength, 20);
    assert_eq!(row.relation_type, "co-occurrence");
    assert_eq!(row.since_chapter, None);
    assert_eq!(row.notes, Some("Auto-generated".to_string()));
    assert!(store.get("Bob", "Alice").is_none());
}

#[test]
fn order_of_mention_does_not_matter() {
    let mut one = RelationshipStore::new();
    let mut other = RelationshipStore::new();
    recalculate_relationships(&scenes(&[&["Alice", "Bob"]]), &mut one).unwrap();
    recalculate_relationships(&scenes(&[&["Bob", "Alice"]]), &mut other).unwrap();
    assert_eq!(strength(&one, "Alice", "Bob"), Some(10));
    assert_eq!(strength(&other, "Alice", "Bob"), Some(10));
    assert_eq!(one.len(), 1);
    assert_eq!(other.len(), 1);
    let mut mixed = RelationshipStore::new();
    recalculate_relationships(&scenes(&[&["Bob", "Alice"], &["Alice", "Bob"], &["Bob", "Alice"]]), &mut mixed)
        .unwrap();
    assert_eq!(mixed.len(), 1);
    assert_eq!(strength(&mixed, "Alice", "Bob"), Some(30));
}

#[test]
fn strength_is_ten_for_each_shared_scene() {
    for n in 0..7usize {
        let mut lists: Vec<Vec<String>> = Vec::new();
        for _ in 0..n {
            lists.push(vec!["Ann".to_string(), "Ben".to_string()]);
        }
        lists.push(vec!["Ann".to_string()]);
        lists.push(vec!["Ben".to_string(), "Cyd".to_string()]);
        let mut store = RelationshipStore::new();
        recalculate_relationships(&lists, &mut store).unwrap();
        let expected = if n == 0 { None } else { Some(10 * n as i32) };
        assert_eq!(strength(&store, "Ann", "Ben"), expected);
        assert_eq!(strength(&store, "Ben", "Cyd"), Some(10));
    }
    assert_eq!(STRENGTH_PER_SCENE, 10);
}

#[test]
fn recalculation_is_idempotent() {
    let lists = scenes(&[&["Ann", "Ben", "Cyd"], &["Cyd", "Ann"], &["Dee"]]);
    let mut store = RelationshipStore::new();
    recalculate_relationships(&lists, &mut store).unwrap();
    let first: Vec<(String, String, i32)> =
        store.rows().iter().map(|r| (r.from_id.clone(), r.to_id.clone(), r.strength)).collect();
    recalculate_relationships(&lists, &mut store).unwrap();
    let second: Vec<(String, String, i32)> =
        store.rows().iter().map(|r| (r.from_id.clone(), r.to_id.clone(), r.strength)).collect();
    assert_eq!(first, second);
    assert_eq!(strength(&store, "Ann", "Cyd"), Some(20));
    assert_eq!(strength(&store, "Ann", "Ben"), Some(10));
    assert_eq!(strength(&store, "Ben", "Cyd"), Some(10));
    assert_eq!(store.len(), 3);
}

#[test]
fn no_scenes_change_nothing() {
    let mut store = RelationshipStore::new();
    let changes = recalculate_relationships(&Vec::new(), &mut store).unwrap();
    assert!(changes.is_empty());
    assert_eq!(store.len(), 0);
}

#[test]
fn scenes_with_fewer_than_two_participants_add_nothing() {
    let mut store = RelationshipStore::new();
    let changes = recalculate_relationships(&scenes(&[&[], &["Ann"], &["Ben"]]), &mut store).unwrap();
    assert!(changes.is_empty());
    assert_eq!(store.len(), 0);
}

#[test]
fn existing_row_keeps_all_but_its_strength() {
    let mut store = RelationshipStore::new();
    store.put(Relationship {
        from_id: "Ann".to_string(),
        to_id: "Ben".to_string(),
        relation_type: "rival".to_string(),
        strength: -40,
        since_chapter: Some("ch3".to_string()),
        notes: Some("met at the duel".to_string()),
    });
    store.put(Relationship {
        from_id: "Zed".to_string(),
        to_id: "Ann".to_string(),
        relation_type: "ally".to_string(),
        strength: 55,
        since_chapter: None,
        notes: None,
    });
    let changes = recalculate_relationships(&scenes(&[&["Ben", "Ann"], &["Ann", "Zed"]]), &mut store).unwrap();
    let row = store.get("Ann", "Ben").unwrap();
    assert_eq!(row.strength, 10);
    assert_eq!(row.relation_type, "rival");
    assert_eq!(row.since_chapter, Some("ch3".to_string()));
    assert_eq!(row.notes, Some("met at the duel".to_string()));
    // The stored row (Zed, Ann) has another key than the pair (Ann, Zed).
    assert_eq!(strength(&store, "Zed", "Ann"), Some(55));
    assert_eq!(strength(&store, "Ann", "Zed"), Some(10));
    assert_eq!(store.len(), 3);
    assert_eq!(changes.len(), 2);
    let mut updates = 0;
    let mut inserts = 0;
    for change in &changes {
        match change {
            RelationshipChange::UpdateStrength { from_id, to_id, strength } => {
                assert_eq!((from_id.as_str(), to_id.as_str(), *strength), ("Ann", "Ben", 10));
                updates += 1;
            }
            RelationshipChange::Insert { relationship } => {
                assert_eq!(relationship.from_id, "Ann");
                assert_eq!(relationship.to_id, "Zed");
                assert_eq!(relationship.strength, 10);
                assert_eq!(relationship.relation_type, "co-occurrence");
                assert_eq!(relationship.notes, Some("Auto-generated".to_string()));
                assert_eq!(relationship.since_chapter, None);
                inserts += 1;
            }
        }
    }
    assert_eq!((updates, inserts), (1, 1));
}

#[test]
fn three_participants_form_three_pairs() {
    let tally = co_occurrences(&scenes(&[&["Cyd", "Ann", "Ben"]])).unwrap();
    let mut pairs: Vec<(String, String, i32)> =
        tally.into_iter().map(|t| (t.first, t.second, t.count)).collect();
    pairs.sort();
    assert_eq!(
        pairs,
        vec![
            ("Ann".to_string(), "Ben".to_string(), 1),
            ("Ann".to_string(), "Cyd".to_string(), 1),
            ("Ben".to_string(), "Cyd".to_string(), 1),
        ]
    );
}

#[test]
fn a_participant_listed_twice_counts_for_each_position() {
    let tally = co_occurrences(&scenes(&[&["Ann", "Ben", "Ann"]])).unwrap();
    let mut pairs: Vec<(String, String, i32)> =
        tally.into_iter().map(|t| (t.first, t.second, t.count)).collect();
    pairs.sort();
    assert_eq!(
        pairs,
        vec![("Ann".to_string(), "Ann".to_string(), 1), ("Ann".to_string(), "Ben".to_string(), 2)]
    );
}

#[test]
fn pair_keys_are_in_lexical_order() {
    let cases = [("Bob", "Alice"), ("alice", "Bob"), ("Ann", "Anna"), ("\u{e9}", "z"), ("a", "a"), ("", "x")];
    for (a, b) in cases {
        let (a, b) = (a.to_string(), b.to_string());
        let pair = ordered_pair(&a, &b);
        let mut sorted = vec![a.clone(), b.clone()];
        sorted.sort();
        assert_eq!((pair.0.clone(), pair.1.clone()), (sorted[0].clone(), sorted[1].clone()));
        let back = ordered_pair(&b, &a);
        assert_eq!((back.0.clone(), back.1.clone()), (sorted[0].clone(), sorted[1].clone()));
    }
}

#[test]
fn strength_limit_is_the_largest_that_fits() {
    assert_eq!(MAX_PAIR_COUNT, i32::MAX / 10);
    assert!((MAX_PAIR_COUNT as i64 + 1) * 10 > i32::MAX as i64);
}

#[test]
fn store_put_replaces_the_row_of_a_key() {
    let mut store = RelationshipStore::new();
    let row = |strength: i32| Relationship {
        from_id: "a".to_string(),
        to_id: "b".to_string(),
        relation_type: "ally".to_string(),
        strength,
        since_chapter: None,
        notes: None,
    };
    store.put(row(1));
    store.put(row(2));
    assert_eq!(store.len(), 1);
    assert_eq!(strength(&store, "a", "b"), Some(2));
    let change = store.set_strength(&"a".to_string(), &"b".to_string(), 70);
    assert!(matches!(change, RelationshipChange::UpdateStrength { .. }));
    assert_eq!(strength(&store, "a", "b"), Some(70));
    assert_eq!(store.get("a", "b").unwrap().relation_type, "ally");
    let change = store.set_strength(&"b".to_string(), &"c".to_string(), 30);
    assert!(matches!(change, RelationshipChange::Insert { .. }));
    let rows = store.into_rows();
    assert_eq!(rows.len(), 2);
}

#[test]
fn too_many_co_occurrences_are_refused() {
    // 20725 mentions of one name form 20725 * 20724 / 2 pairs of that name
    // with itself, more than the largest count whose strength fits.
    let n = 20725usize;
    assert!(n * (n - 1) / 2 > MAX_PAIR_COUNT as usize);
    assert!((n - 1) * (n - 2) / 2 <= MAX_PAIR_COUNT as usize);
    let crowd = vec![vec!["A".to_string(); n]];
    let mut store = RelationshipStore::new();
    store.put(Relationship {
        from_id: "A".to_string(),
        to_id: "A".to_string(),
        relation_type: "self".to_string(),
        strength: 1,
        since_chapter: None,
        notes: None,
    });
    let result = recalculate_relationships(&crowd, &mut store);
    assert_eq!(result.err(), Some("Relationship strength out of range".to_string()));
    assert_eq!(strength(&store, "A", "A"), Some(1));
}
