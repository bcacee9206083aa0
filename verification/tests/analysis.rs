use story_analysis::analysis::continuity::check_local_continuity;
use story_analysis::analysis::extraction::extract_entities;
use story_analysis::models::{Character, Scene};
use story_analysis::state_map::StateMap;

#[test]
fn test_extraction() {
    let text = "Hello @Alice, meet me at #ThePark.";
    let entities = extract_entities(text);
    assert!(entities.characters.contains("Alice"));
    assert!(entities.locations.contains("ThePark"));
}

#[test]
fn test_continuity_dead_character() {
    let mut state = StateMap::new();
    state.insert("status".to_string(), "dead".to_string());

    let character = Character {
        id: "1".to_string(),
        name: "Bob".to_string(),
        aliases: vec![],
        traits: vec![],
        voice_notes: None,
        goals: None,
        secrets: None,
        current_state: state,
        first_appearance: None,
        last_seen: None,
    };

    let scene = Scene {
        id: "s1".to_string(),
        title: "Scene 1".to_string(),
        order: 1,
        summary: None,
        pov: None,
        time_marker: None,
        location_ids: vec![],
        participants: vec!["Bob".to_string()],
        extracted_facts: vec![],
    };

    let issues = check_local_continuity(&scene, &[character]);
    assert!(!issues.is_empty());
    assert_eq!(issues[0].severity, "error");
}
