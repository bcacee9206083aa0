use story_analysis::analysis::continuity::{
    apply_rule, character_is_dead, check_dead_participants, check_local_continuity, check_rules,
    find_character, ContinuityRule,
};
use story_analysis::models::{Character, Scene};
use story_analysis::state_map::StateMap;

fn character(id: &str, name: &str, status: Option<&str>) -> Character {
    let mut state = StateMap::new();
    if let Some(status) = status {
        state.insert("status".to_string(), status.to_string());
    }
    Character {
        id: id.to_string(),
        name: name.to_string(),
        aliases: vec![],
        traits: vec![],
        voice_notes: None,
        goals: None,
        secrets: None,
        current_state: state,
        first_appearance: None,
        last_seen: None,
    }
}

fn scene(participants: &[&str]) -> Scene {
    Scene {
        id: "s1".to_string(),
        title: "Scene 1".to_string(),
        order: 1,
        summary: None,
        pov: None,
        time_marker: None,
        location_ids: vec![],
        participants: participants.iter().map(|p| p.to_string()).collect(),
        extracted_facts: vec![],
    }
}

#[test]
fn dead_participant_raises_one_error() {
    let roster = [character("1", "Bob", Some("dead"))];
    let issues = check_local_continuity(&scene(&["Bob"]), &roster);
    assert_eq!(issues.len(), 1);
    assert_eq!(issues[0].severity, "error");
    assert_eq!(issues[0].message, "Character Bob is dead but appears in this scene.");
    assert_eq!(issues[0].entity_id, Some("1".to_string()));
}

#[test]
fn living_participant_raises_nothing() {
    let roster = [character("1", "Bob", Some("injured")), character("2", "Ann", None)];
    let issues = check_local_continuity(&scene(&["Bob", "Ann"]), &roster);
    assert!(issues.is_empty());
}

#[test]
fn unknown_participant_is_passed_over() {
    let roster = [character("1", "Bob", Some("dead"))];
    let issues = check_local_continuity(&scene(&["Bobby", "bob", "Alice"]), &roster);
    assert!(issues.is_empty());
}

#[test]
fn issues_follow_the_order_of_participants() {
    let roster = [
        character("1", "Ann", Some("dead")),
        character("2", "Ben", Some("alive")),
        character("3", "Cyd", Some("dead")),
    ];
    let issues = check_local_continuity(&scene(&["Cyd", "Ben", "Nobody", "Ann"]), &roster);
    assert_eq!(issues.len(), 2);
    assert_eq!(issues[0].entity_id, Some("3".to_string()));
    assert_eq!(issues[0].message, "Character Cyd is dead but appears in this scene.");
    assert_eq!(issues[1].entity_id, Some("1".to_string()));
    assert_eq!(issues[1].severity, "error");
}

#[test]
fn participant_listed_twice_raises_two_issues() {
    let roster = [character("1", "Bob", Some("dead"))];
    let issues = check_local_continuity(&scene(&["Bob", "Bob"]), &roster);
    assert_eq!(issues.len(), 2);
}

#[test]
fn name_resolves_to_the_first_character_of_that_name() {
    let roster = [character("1", "Bob", Some("alive")), character("2", "Bob", Some("dead"))];
    assert!(check_local_continuity(&scene(&["Bob"]), &roster).is_empty());
    let other = [character("2", "Bob", Some("dead")), character("1", "Bob", Some("alive"))];
    let issues = check_local_continuity(&scene(&["Bob"]), &other);
    assert_eq!(issues.len(), 1);
    assert_eq!(issues[0].entity_id, Some("2".to_string()));
}

#[test]
fn status_must_be_exactly_dead() {
    for status in ["Dead", "dead ", "DEAD", "", "deceased"] {
        let roster = [character("1", "Bob", Some(status))];
        assert!(check_local_continuity(&scene(&["Bob"]), &roster).is_empty(), "{:?}", status);
        assert!(!character_is_dead(&roster[0]));
    }
    assert!(character_is_dead(&character("1", "Bob", Some("dead"))));
    assert!(!character_is_dead(&character("1", "Bob", None)));
}

#[test]
fn other_state_keys_do_not_matter() {
    let mut bob = character("1", "Bob", None);
    bob.current_state.insert("location".to_string(), "dead".to_string());
    bob.current_state.insert("mood".to_string(), "dead".to_string());
    assert!(check_local_continuity(&scene(&["Bob"]), &[bob]).is_empty());
}

#[test]
fn empty_scene_or_roster_raises_nothing() {
    let roster = [character("1", "Bob", Some("dead"))];
    assert!(check_local_continuity(&scene(&[]), &roster).is_empty());
    assert!(check_local_continuity(&scene(&["Bob"]), &[]).is_empty());
}

#[test]
fn the_rule_alone_gives_the_local_result() {
    let roster = [character("1", "Bob", Some("dead")), character("2", "Ann", Some("dead"))];
    let s = scene(&["Ann", "Bob"]);
    let rule = check_dead_participants(&s, &roster);
    let all = check_local_continuity(&s, &roster);
    assert_eq!(rule.len(), all.len());
    for i in 0..rule.len() {
        assert_eq!(rule[i].message, all[i].message);
        assert_eq!(rule[i].entity_id, all[i].entity_id);
    }
}

#[test]
fn find_character_matches_the_whole_name() {
    let roster = [character("1", "Bob", None), character("2", "Bobby", None)];
    assert_eq!(find_character(&roster, "Bobby").map(|c| c.id.clone()), Some("2".to_string()));
    assert_eq!(find_character(&roster, "Bob").map(|c| c.id.clone()), Some("1".to_string()));
    assert!(find_character(&roster, "Bo").is_none());
    assert!(find_character(&roster, "").is_none());
}

#[test]
fn rules_are_applied_one_after_the_other() {
    let roster = [character("1", "Ann", Some("dead")), character("2", "Ben", Some("dead"))];
    let s = scene(&["Ben", "Ann"]);
    assert!(check_rules(&[], &s, &roster).is_empty());
    let once = check_rules(&[ContinuityRule::DeadParticipants], &s, &roster);
    let twice = check_rules(&[ContinuityRule::DeadParticipants, ContinuityRule::DeadParticipants], &s, &roster);
    let ids = |issues: &Vec<story_analysis::analysis::continuity::ContinuityIssue>| -> Vec<Option<String>> {
        issues.iter().map(|i| i.entity_id.clone()).collect()
    };
    assert_eq!(ids(&once), vec![Some("2".to_string()), Some("1".to_string())]);
    assert_eq!(
        ids(&twice),
        vec![Some("2".to_string()), Some("1".to_string()), Some("2".to_string()), Some("1".to_string())]
    );
    assert_eq!(ids(&apply_rule(ContinuityRule::DeadParticipants, &s, &roster)), ids(&once));
    assert_eq!(ids(&check_local_continuity(&s, &roster)), ids(&once));
}
