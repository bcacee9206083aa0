use story_analysis::analysis::extraction::{analyze_text, collect_tagged, extract_entities, token_char};
use story_analysis::tag_set::TagSet;

fn sorted(set: &TagSet) -> Vec<String> {
    let mut names = set.clone().into_vec();
    names.sort();
    names
}

fn by_pattern(pattern: &str, text: &str) -> Vec<String> {
    let re = regex::Regex::new(pattern).unwrap();
    let mut names: Vec<String> = Vec::new();
    for cap in re.captures_iter(text) {
        if let Some(m) = cap.get(1) {
            let name = m.as_str().to_string();
            if !names.contains(&name) {
                names.push(name);
            }
        }
    }
    names.sort();
    names
}

#[test]
fn repeated_tags_are_reported_once() {
    let entities = extract_entities("@Alice @Alice #Park");
    assert_eq!(sorted(&entities.characters), vec!["Alice".to_string()]);
    assert_eq!(sorted(&entities.locations), vec!["Park".to_string()]);
    assert_eq!(entities.characters.len(), 1);
    assert_eq!(entities.locations.len(), 1);
}

#[test]
fn empty_text_mentions_nobody() {
    let entities = extract_entities("");
    assert!(entities.characters.is_empty());
    assert!(entities.locations.is_empty());
    assert_eq!(entities.characters.len(), 0);
}

#[test]
fn text_without_tags_mentions_nobody() {
    let entities = extract_entities("Nothing to see here, not even an e-mail address.");
    assert!(entities.characters.is_empty());
    assert!(entities.locations.is_empty());
}

#[test]
fn a_lone_sigil_is_no_tag() {
    let entities = extract_entities("@ # @! #? trailing @");
    assert!(entities.characters.is_empty());
    assert!(entities.locations.is_empty());
}

#[test]
fn names_are_case_sensitive() {
    let entities = extract_entities("@alice meets @Alice and @ALICE");
    assert_eq!(
        sorted(&entities.characters),
        vec!["ALICE".to_string(), "Alice".to_string(), "alice".to_string()]
    );
}

#[test]
fn token_is_the_longest_run() {
    let entities = extract_entities("@al_ice9! then @Bob's and #The_Park2.");
    assert_eq!(sorted(&entities.characters), vec!["Bob".to_string(), "al_ice9".to_string()]);
    assert_eq!(sorted(&entities.locations), vec!["The_Park2".to_string()]);
}

#[test]
fn tags_may_touch_each_other() {
    let entities = extract_entities("@@Alice@Bob#Park#Zoo x@y");
    assert_eq!(
        sorted(&entities.characters),
        vec!["Alice".to_string(), "Bob".to_string(), "y".to_string()]
    );
    assert_eq!(sorted(&entities.locations), vec!["Park".to_string(), "Zoo".to_string()]);
}

#[test]
fn tag_at_the_end_of_the_text_is_found() {
    let entities = extract_entities("ends with @Zed");
    assert!(entities.characters.contains("Zed"));
    assert_eq!(entities.characters.len(), 1);
}

#[test]
fn letters_outside_ascii_end_a_token() {
    let entities = extract_entities("@Zo\u{eb} and @\u{c5}sa meet at #caf\u{e9} \u{2014} @\u{4e2d}");
    assert_eq!(sorted(&entities.characters), vec!["Zo".to_string()]);
    assert_eq!(sorted(&entities.locations), vec!["caf".to_string()]);
}

#[test]
fn extraction_is_repeatable() {
    let text = "@Ann walks with @Ben to #Harbor, where @Ann waits.";
    let first = extract_entities(text);
    let second = extract_entities(text);
    assert_eq!(sorted(&first.characters), sorted(&second.characters));
    assert_eq!(sorted(&first.locations), sorted(&second.locations));
}

#[test]
fn extraction_agrees_with_the_tag_patterns() {
    let texts = [
        "",
        "Hello @Alice, meet me at #ThePark.",
        "@Alice @Alice #Park",
        "@@Alice@Bob#Park#Zoo x@y",
        "@ # @! #? trailing @",
        "mail me: someone@example.com #1 #_ @_ @9lives",
        "@a#b@c#d",
        "@Zo\u{eb} and @\u{c5}sa meet at #caf\u{e9}",
        "line one @Ann\nline two #Bay\ttab @Ben\r\n",
        "#",
        "@",
        "@x",
        "###tag @@@name",
        "@name#place@name#place",
    ];
    for text in texts {
        let entities = extract_entities(text);
        assert_eq!(sorted(&entities.characters), by_pattern(r"@([A-Za-z0-9_]+)", text), "characters of {:?}", text);
        assert_eq!(sorted(&entities.locations), by_pattern(r"#([A-Za-z0-9_]+)", text), "locations of {:?}", text);
    }
}

#[test]
fn collect_tagged_takes_any_sigil_outside_tokens() {
    let found = collect_tagged("see $cash and $gold, not @Ann", '$');
    assert_eq!(sorted(&found), vec!["cash".to_string(), "gold".to_string()]);
}

#[test]
fn token_characters_are_ascii_letters_digits_and_underscore() {
    for c in ['a', 'z', 'A', 'Z', '0', '9', '_', 'm', 'Q', '5'] {
        assert!(token_char(c), "{:?}", c);
    }
    for c in ['@', '#', ' ', '-', '.', '`', '{', '[', '/', ':', '\u{e9}', '\n'] {
        assert!(!token_char(c), "{:?}", c);
    }
}

#[test]
fn analyze_text_reports_what_extraction_finds() {
    let result = analyze_text("@Alice goes to #Park and #Zoo".to_string());
    assert_eq!(sorted(&result.characters), vec!["Alice".to_string()]);
    assert_eq!(sorted(&result.locations), vec!["Park".to_string(), "Zoo".to_string()]);
}

#[test]
fn tag_set_holds_each_name_once() {
    let mut set = TagSet::new();
    assert!(set.is_empty());
    assert!(set.insert("Ann".to_string()));
    assert!(set.insert("Ben".to_string()));
    assert!(!set.insert("Ann".to_string()));
    assert_eq!(set.len(), 2);
    assert!(set.contains("Ann"));
    assert!(set.contains("Ben"));
    assert!(!set.contains("ann"));
    assert!(!set.is_empty());
    let copy = set.clone();
    assert_eq!(copy.len(), 2);
    assert_eq!(set.into_vec(), vec!["Ann".to_string(), "Ben".to_string()]);
}
