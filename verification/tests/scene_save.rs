use std::collections::hash_map::DefaultHasher;
use std::hash::{Hash, Hasher};
use story_analysis::digits::{hex_string, padded_decimal_string};
use story_analysis::models::Scene;
use story_analysis::scene_save::{chapter_file, content_fingerprint, refresh_scene, save_scene};

fn scene(order: i32) -> Scene {
    Scene {
        id: "s1".to_string(),
        title: "Scene".to_string(),
        order,
        summary: Some("sum".to_string()),
        pov: Some("Ann".to_string()),
        time_marker: None,
        location_ids: vec!["Old".to_string()],
        participants: vec!["Gone".to_string(), "Ann".to_string()],
        extracted_facts: vec!["f1".to_string()],
    }
}

fn sorted(mut v: Vec<String>) -> Vec<String> {
    v.sort();
    v
}

#[test]
fn saving_replaces_participants_and_locations() {
    let after = refresh_scene(scene(1), "@Ann meets @Ben at #Harbor. @Ann leaves #Harbor.");
    assert_eq!(sorted(after.participants.clone()), vec!["Ann".to_string(), "Ben".to_string()]);
    assert_eq!(after.location_ids, vec!["Harbor".to_string()]);
    assert_eq!(after.id, "s1");
    assert_eq!(after.title, "Scene");
    assert_eq!(after.order, 1);
    assert_eq!(after.summary, Some("sum".to_string()));
    assert_eq!(after.pov, Some("Ann".to_string()));
    assert_eq!(after.time_marker, None);
    assert_eq!(after.extracted_facts, vec!["f1".to_string()]);
}

#[test]
fn saving_text_without_tags_leaves_no_participants() {
    let save = save_scene(scene(4), "Plain prose, no tags at all.");
    assert!(save.scene.participants.is_empty());
    assert!(save.scene.location_ids.is_empty());
    assert_eq!(save.file_name, "chapter-004.md");
    let empty = save_scene(scene(4), "");
    assert!(empty.scene.participants.is_empty());
    assert!(empty.scene.location_ids.is_empty());
    assert_eq!(empty.edit.range_end, 0);
}

#[test]
fn saved_edit_covers_the_whole_text() {
    let content = "@Zo\u{eb} at #caf\u{e9}";
    let save = save_scene(scene(12), content);
    assert_eq!(save.file_name, "chapter-012.md");
    assert_eq!(save.edit.file_path, "chapter-012.md");
    assert_eq!(save.edit.range_start, 0);
    assert_eq!(save.edit.range_end, content.len());
    assert_eq!(save.edit.author_action, "save");
    assert!(!save.edit.ai_involved);
    assert_eq!(save.edit.suggestion_id, None);
    assert_eq!(save.edit.diff_hash, content_fingerprint(content));
    assert_eq!(save.edit.id.len(), 36);
    assert!(chrono::DateTime::parse_from_rfc3339(&save.edit.timestamp).is_ok());
    assert_eq!(save.scene.participants, vec!["Zo".to_string()]);
    assert_eq!(save.scene.location_ids, vec!["caf".to_string()]);
}

#[test]
fn chapter_files_are_numbered_with_three_digits() {
    assert_eq!(chapter_file(0), "chapter-000.md");
    assert_eq!(chapter_file(1), "chapter-001.md");
    assert_eq!(chapter_file(42), "chapter-042.md");
    assert_eq!(chapter_file(999), "chapter-999.md");
    assert_eq!(chapter_file(1000), "chapter-1000.md");
    assert_eq!(chapter_file(-1), "chapter--01.md");
    assert_eq!(chapter_file(-12), "chapter--12.md");
    assert_eq!(chapter_file(-123), "chapter--123.md");
    for order in [i32::MIN, -1000, -99, -10, -9, 7, 10, 99, 100, 12345, i32::MAX] {
        assert_eq!(chapter_file(order), format!("chapter-{:03}.md", order));
    }
}

#[test]
fn padded_decimal_follows_the_width() {
    assert_eq!(padded_decimal_string(5, 0), "5");
    assert_eq!(padded_decimal_string(5, 1), "5");
    assert_eq!(padded_decimal_string(5, 4), "0005");
    assert_eq!(padded_decimal_string(-5, 0), "-5");
    assert_eq!(padded_decimal_string(-5, 1), "-5");
    assert_eq!(padded_decimal_string(-5, 4), "-005");
    assert_eq!(padded_decimal_string(0, 2), "00");
    for value in [i32::MIN, -77, 0, 3, 1234, i32::MAX] {
        assert_eq!(padded_decimal_string(value, 6), format!("{:06}", value));
        assert_eq!(padded_decimal_string(value, 12), format!("{:012}", value));
    }
}

#[test]
fn hex_has_no_leading_zeros() {
    assert_eq!(hex_string(0), "0");
    assert_eq!(hex_string(9), "9");
    assert_eq!(hex_string(10), "a");
    assert_eq!(hex_string(255), "ff");
    assert_eq!(hex_string(256), "100");
    assert_eq!(hex_string(0xdead_beef), "deadbeef");
    assert_eq!(hex_string(u64::MAX), "ffffffffffffffff");
    for value in [1u64, 15, 16, 17, 4095, 4096, 0x0123_4567_89ab_cdef, u64::MAX - 1] {
        assert_eq!(hex_string(value), format!("{:x}", value));
    }
}

#[test]
fn fingerprint_is_the_hex_digest_of_the_text() {
    for content in ["", "a", "Hello @Alice, meet me at #ThePark.", "caf\u{e9} \u{2014} \u{4e2d}\u{6587}", "line\nline\n"] {
        let mut hasher = DefaultHasher::new();
        content.to_string().hash(&mut hasher);
        assert_eq!(content_fingerprint(content), format!("{:x}", hasher.finish()), "{:?}", content);
    }
}

#[test]
fn same_text_has_the_same_fingerprint() {
    let a = content_fingerprint("The same words.");
    let b = content_fingerprint("The same words.");
    let c = content_fingerprint("The same words!");
    assert_eq!(a, b);
    assert_ne!(a, c);
}
