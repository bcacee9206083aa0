use story_analysis::ai::{select_gateway, AiGateway, AiProvider, MockAiProvider, OpenAiProvider};
use story_analysis::analysis::continuity::ContinuityIssue;
use story_analysis::analysis::review::{check_continuity, combine_review, ContinuityResult};
use story_analysis::ai::AiResponse;
use story_analysis::models::{Character, Scene};
use story_analysis::settings_model::AppSettings;
use story_analysis::state_map::StateMap;

fn settings(provider: &str) -> AppSettings {
    AppSettings { ai_provider: provider.to_string(), ai_base_url: None, ai_api_key: None, ai_model: None }
}

fn bob(status: &str) -> Character {
    let mut state = StateMap::new();
    state.insert("status".to_string(), status.to_string());
    Character {
        id: "1".to_string(),
        name: "Bob".to_string(),
        aliases: vec![],
        traits: vec![],
        voice_notes: None,
        goals: None,
        secrets: None,
        current_state: state,
        first_appearance: None,
        last_seen: None,
    }
}

fn scene(summary: Option<&str>) -> Scene {
    Scene {
        id: "s1".to_string(),
        title: "Scene 1".to_string(),
        order: 1,
        summary: summary.map(|s| s.to_string()),
        pov: None,
        time_marker: None,
        location_ids: vec![],
        participants: vec!["Bob".to_string()],
        extracted_facts: vec![],
    }
}

#[test]
fn dead_character_in_a_scene_is_reported_end_to_end() {
    let result = check_continuity(&scene(None), &[bob("dead")], Some(&AppSettings::default())).unwrap();
    assert_eq!(result.local_issues.len(), 1);
    assert_eq!(result.local_issues[0].severity, "error");
    assert_eq!(result.local_issues[0].entity_id, Some("1".to_string()));
    assert!(result.ai_issues.is_empty());
}

#[test]
fn default_settings_switch_review_off() {
    let s = AppSettings::default();
    assert_eq!(s.ai_provider, "none");
    assert_eq!(s.ai_base_url, None);
    assert_eq!(s.ai_api_key, None);
    assert_eq!(s.ai_model, None);
    assert!(matches!(select_gateway(Some(&s)), AiGateway::Disabled));
}

#[test]
fn unknown_or_empty_provider_falls_back_to_the_local_heuristic() {
    for name in ["", "mock", "None", "NONE", "openai ", "OpenAI", "local", " none"] {
        assert!(matches!(select_gateway(Some(&settings(name))), AiGateway::LocalHeuristic(_)), "{:?}", name);
        let result = check_continuity(&scene(Some("x")), &[bob("alive")], Some(&settings(name))).unwrap();
        assert!(result.local_issues.is_empty());
        assert_eq!(result.ai_issues, vec!["Mock issue: Character voice seems inconsistent.".to_string()]);
    }
}

#[test]
fn remote_identifiers_select_the_remote_model_with_defaults() {
    for name in ["openai", "ollama"] {
        match select_gateway(Some(&settings(name))) {
            AiGateway::RemoteModel(p) => {
                assert_eq!(p.api_key, "");
                assert_eq!(p.base_url, "https://api.openai.com/v1");
                assert_eq!(p.model, "gpt-3.5-turbo");
            }
            _ => panic!("expected the remote model for {:?}", name),
        }
    }
}

#[test]
fn remote_model_takes_its_details_from_the_settings() {
    let s = AppSettings {
        ai_provider: "ollama".to_string(),
        ai_base_url: Some("http://localhost:11434/v1".to_string()),
        ai_api_key: Some("SECRET-REDACTED".to_string()),
        ai_model: Some("llama3".to_string()),
    };
    match select_gateway(Some(&s)) {
        AiGateway::RemoteModel(p) => {
            assert_eq!(p.api_key, "SECRET-REDACTED");
            assert_eq!(p.base_url, "http://localhost:11434/v1");
            assert_eq!(p.model, "llama3");
        }
        _ => panic!("expected the remote model"),
    }
    let result = check_continuity(&scene(Some("A short one")), &[bob("dead")], Some(&s)).unwrap();
    assert_eq!(result.ai_issues, vec!["AI (llama3) suggests checking: A short one".to_string()]);
    assert_eq!(result.local_issues.len(), 1);
}

#[test]
fn remote_answer_quotes_the_first_twenty_characters() {
    let provider = OpenAiProvider {
        api_key: String::new(),
        base_url: String::new(),
        model: "m".to_string(),
    };
    let cases = [
        ("", ""),
        ("exactly twenty chars", "exactly twenty chars"),
        ("this one is longer than twenty characters", "this one is longer t"),
        ("\u{e9}\u{e9}\u{e9}\u{e9}\u{e9}\u{e9}\u{e9}\u{e9}\u{e9}\u{e9}\u{e9}\u{e9}\u{e9}\u{e9}\u{e9}\u{e9}\u{e9}\u{e9}\u{e9}\u{e9}\u{e9}\u{e9}", "\u{e9}\u{e9}\u{e9}\u{e9}\u{e9}\u{e9}\u{e9}\u{e9}\u{e9}\u{e9}\u{e9}\u{e9}\u{e9}\u{e9}\u{e9}\u{e9}\u{e9}\u{e9}\u{e9}\u{e9}"),
    ];
    for (context, excerpt) in cases {
        let response = provider.review_continuity(context).unwrap();
        assert_eq!(response.issues, vec![format!("AI (m) suggests checking: {}", excerpt)]);
    }
}

#[test]
fn local_heuristic_answers_the_same_whatever_the_context() {
    let a = MockAiProvider.review_continuity("one").unwrap();
    let b = MockAiProvider.review_continuity("").unwrap();
    assert_eq!(a.issues, vec!["Mock issue: Character voice seems inconsistent.".to_string()]);
    assert_eq!(a.issues, b.issues);
}

#[test]
fn missing_summary_is_reviewed_as_empty_text() {
    let result = check_continuity(&scene(None), &[], Some(&settings("openai"))).unwrap();
    assert_eq!(result.ai_issues, vec!["AI (gpt-3.5-turbo) suggests checking: ".to_string()]);
    assert!(result.local_issues.is_empty());
}

#[test]
fn disabled_gateway_reports_nothing() {
    let response = AiGateway::Disabled.review("anything").unwrap();
    assert!(response.issues.is_empty());
}

#[test]
fn failed_review_fails_the_whole_check() {
    let local = vec![ContinuityIssue {
        severity: "error".to_string(),
        message: "m".to_string(),
        entity_id: None,
    }];
    let failed: Result<ContinuityResult, String> = combine_review(local, Err("provider unreachable".to_string()));
    assert_eq!(failed.err(), Some("provider unreachable".to_string()));
}

#[test]
fn successful_review_is_merged_with_the_local_issues() {
    let local = vec![ContinuityIssue {
        severity: "error".to_string(),
        message: "m".to_string(),
        entity_id: Some("7".to_string()),
    }];
    let merged = combine_review(local, Ok(AiResponse { issues: vec!["a".to_string(), "b".to_string()] })).unwrap();
    assert_eq!(merged.local_issues.len(), 1);
    assert_eq!(merged.local_issues[0].entity_id, Some("7".to_string()));
    assert_eq!(merged.ai_issues, vec!["a".to_string(), "b".to_string()]);
}

struct Unreachable;

impl AiProvider for Unreachable {
    fn review_continuity(&self, _context: &str) -> Result<AiResponse, String> {
        Err("provider unreachable".to_string())
    }
}

struct Echo;

impl AiProvider for Echo {
    fn review_continuity(&self, context: &str) -> Result<AiResponse, String> {
        Ok(AiResponse { issues: vec![context.to_string()] })
    }
}

#[test]
fn a_failing_provider_fails_the_check_with_its_reason() {
    let outcome = story_analysis::analysis::review::check_continuity_with(&scene(Some("x")), &[bob("dead")], &Unreachable);
    assert_eq!(outcome.err(), Some("provider unreachable".to_string()));
}

#[test]
fn a_supplied_provider_is_asked_about_the_summary() {
    let outcome =
        story_analysis::analysis::review::check_continuity_with(&scene(Some("the summary")), &[bob("dead")], &Echo)
            .unwrap();
    assert_eq!(outcome.ai_issues, vec!["the summary".to_string()]);
    assert_eq!(outcome.local_issues.len(), 1);
    let outcome =
        story_analysis::analysis::review::check_continuity_with(&scene(None), &[bob("alive")], &Echo).unwrap();
    assert_eq!(outcome.ai_issues, vec!["".to_string()]);
    assert!(outcome.local_issues.is_empty());
}

#[test]
fn missing_settings_fall_back_to_the_local_heuristic() {
    assert!(matches!(select_gateway(None), AiGateway::LocalHeuristic(_)));
    let result = check_continuity(&scene(Some("a summary")), &[bob("dead")], None).unwrap();
    assert_eq!(result.local_issues.len(), 1);
    assert_eq!(result.local_issues[0].severity, "error");
    assert_eq!(result.local_issues[0].entity_id, Some("1".to_string()));
    assert_eq!(result.ai_issues, vec!["Mock issue: Character voice seems inconsistent.".to_string()]);
}

#[test]
fn explicit_none_switches_review_off() {
    let result = check_continuity(&scene(Some("a summary")), &[bob("dead")], Some(&settings("none"))).unwrap();
    assert_eq!(result.local_issues.len(), 1);
    assert!(result.ai_issues.is_empty());
}
