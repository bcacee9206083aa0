use story_analysis::state_map::StateMap;
use story_analysis::text::{copy_opt, str_eq, str_le};

#[test]
fn string_equality_is_exact() {
    assert!(str_eq("", ""));
    assert!(str_eq("status", "status"));
    assert!(!str_eq("status", "Status"));
    assert!(!str_eq("status", "status "));
    assert!(!str_eq("a", ""));
    assert!(str_eq("caf\u{e9}", "caf\u{e9}"));
    assert!(!str_eq("cafe\u{301}", "caf\u{e9}"));
}

#[test]
fn lexical_order_is_that_of_the_bytes() {
    let words = ["", "a", "A", "Alice", "Bob", "alice", "ab", "abc", "b", "Z", "z", "\u{e9}", "\u{4e2d}", "a\u{e9}", "~", "0", "10", "9", "\u{1f600}", "\u{ffff}"];
    for a in words {
        for b in words {
            assert_eq!(str_le(a, b), a <= b, "{:?} <= {:?}", a, b);
        }
    }
}

#[test]
fn copy_of_an_optional_string_is_equal() {
    assert_eq!(copy_opt(&None), None);
    assert_eq!(copy_opt(&Some("x".to_string())), Some("x".to_string()));
    assert_eq!(copy_opt(&Some(String::new())), Some(String::new()));
}

#[test]
fn state_map_keeps_one_value_for_each_key() {
    let mut map = StateMap::new();
    assert_eq!(map.len(), 0);
    assert_eq!(map.get("status"), None);
    map.insert("status".to_string(), "alive".to_string());
    map.insert("location".to_string(), "Forest".to_string());
    map.insert("status".to_string(), "dead".to_string());
    assert_eq!(map.len(), 2);
    assert_eq!(map.get("status"), Some(&"dead".to_string()));
    assert_eq!(map.get("location"), Some(&"Forest".to_string()));
    assert!(map.contains_key("status"));
    assert!(!map.contains_key("Status"));
    let copy = map.clone();
    assert_eq!(copy.get("status"), Some(&"dead".to_string()));
    assert_eq!(copy.len(), 2);
    assert_eq!(map.entries().len(), 2);
    let mut entries = map.into_entries();
    entries.sort();
    assert_eq!(
        entries,
        vec![("location".to_string(), "Forest".to_string()), ("status".to_string(), "dead".to_string())]
    );
}

#[test]
fn state_map_from_entries_lets_the_last_entry_win() {
    let map = StateMap::from_entries(vec![
        ("a".to_string(), "1".to_string()),
        ("b".to_string(), "2".to_string()),
        ("a".to_string(), "3".to_string()),
        ("c".to_string(), "4".to_string()),
        ("b".to_string(), "5".to_string()),
    ]);
    assert_eq!(map.len(), 3);
    assert_eq!(map.get("a"), Some(&"3".to_string()));
    assert_eq!(map.get("b"), Some(&"5".to_string()));
    assert_eq!(map.get("c"), Some(&"4".to_string()));
    assert_eq!(StateMap::from_entries(Vec::new()).len(), 0);
}
