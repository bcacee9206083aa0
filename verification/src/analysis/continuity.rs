//! Local continuity rules: checks of one scene against the character roster.
//!
//! Each rule maps a scene and the roster to a list of issues; the result of
//! the check is the lists of all rules, one after the other.

use vstd::prelude::*;
use vstd::string::*;
use crate::models::{Character, Scene};
use crate::text::{str_eq, views};

verus! {

/// An inconsistency between a scene and the established story state.
#[derive(Clone, Debug)]
pub struct ContinuityIssue {
    pub severity: String,
    pub message: String,
    pub entity_id: Option<String>,
}

/// What a `ContinuityIssue` says.
pub struct IssueView {
    pub severity: Seq<char>,
    pub message: Seq<char>,
    pub entity_id: Option<Seq<char>>,
}

impl View for ContinuityIssue {
    type V = IssueView;

    open spec fn view(&self) -> IssueView {
        IssueView {
            severity: self.severity@,
            message: self.message@,
            entity_id: match self.entity_id {
                Some(id) => Some(id@),
                None => None,
            },
        }
    }
}

/// What each issue of a list says, in order.
pub open spec fn issue_views(issues: Seq<ContinuityIssue>) -> Seq<IssueView> {
    Seq::new(issues.len(), |i: int| issues[i]@)
}

/// The position of the first character of the roster, from `from` on, whose
/// name is exactly `name`.
pub open spec fn resolve_from(roster: Seq<Character>, name: Seq<char>, from: int) -> Option<int>
    decreases roster.len() - from,
{
    if from < 0 || from >= roster.len() {
        None
    } else if roster[from].name@ == name {
        Some(from)
    } else {
        resolve_from(roster, name, from + 1)
    }
}

/// The position of the character that a participant name refers to: the
/// first of the roster with exactly that name.
pub open spec fn resolve(roster: Seq<Character>, name: Seq<char>) -> Option<int> {
    resolve_from(roster, name, 0)
}

/// Whether the character's state records the status `dead`.
pub open spec fn is_dead(character: Character) -> bool {
    character.current_state@.contains_key("status"@) && character.current_state@["status"@]
        == "dead"@
}

/// The issue raised for a dead character that takes part in a scene.
pub open spec fn dead_issue(character: Character) -> IssueView {
    IssueView {
        severity: "error"@,
        message: "Character "@ + character.name@ + " is dead but appears in this scene."@,
        entity_id: Some(character.id@),
    }
}

/// Whether a participant name refers to a character that is dead.
pub open spec fn names_dead(roster: Seq<Character>, name: Seq<char>) -> bool {
    match resolve(roster, name) {
        Some(i) => is_dead(roster[i]),
        None => false,
    }
}

/// The issues of the rule "the dead do not appear": one for each participant,
/// in order, whose name refers to a dead character.
pub open spec fn dead_participant_issues(
    participants: Seq<Seq<char>>,
    roster: Seq<Character>,
) -> Seq<IssueView>
    decreases participants.len(),
{
    if participants.len() == 0 {
        Seq::empty()
    } else {
        let rest = dead_participant_issues(participants.drop_last(), roster);
        let name = participants.last();
        if names_dead(roster, name) {
            rest.push(dead_issue(roster[resolve(roster, name).unwrap()]))
        } else {
            rest
        }
    }
}

/// A local continuity rule: an independent check of one scene against the
/// roster.
#[derive(Clone, Copy, Debug)]
pub enum ContinuityRule {
    /// The dead do not appear: no participant refers to a dead character.
    DeadParticipants,
}

/// The issues that one rule raises.
pub open spec fn rule_issues(
    rule: ContinuityRule,
    participants: Seq<Seq<char>>,
    roster: Seq<Character>,
) -> Seq<IssueView> {
    match rule {
        ContinuityRule::DeadParticipants => dead_participant_issues(participants, roster),
    }
}

/// The issues that a list of rules raises: those of each rule, in the order
/// of the rules.
pub open spec fn rules_issues(
    rules: Seq<ContinuityRule>,
    participants: Seq<Seq<char>>,
    roster: Seq<Character>,
) -> Seq<IssueView>
    decreases rules.len(),
{
    if rules.len() == 0 {
        Seq::empty()
    } else {
        rules_issues(rules.drop_last(), participants, roster) + rule_issues(
            rules.last(),
            participants,
            roster,
        )
    }
}

/// The rules of the local check.
pub open spec fn local_rules() -> Seq<ContinuityRule> {
    seq![ContinuityRule::DeadParticipants]
}

/// The issues of all local rules for a scene with the given participants.
pub open spec fn local_issues(participants: Seq<Seq<char>>, roster: Seq<Character>) -> Seq<
    IssueView,
> {
    rules_issues(local_rules(), participants, roster)
}

/// The local check raises what its one rule raises.
pub proof fn lemma_local_issues(participants: Seq<Seq<char>>, roster: Seq<Character>)
    ensures
        local_issues(participants, roster) == dead_participant_issues(participants, roster),
{
    let rules = local_rules();
    assert(rules.drop_last() =~= Seq::<ContinuityRule>::empty());
    assert(rules_issues(rules.drop_last(), participants, roster) =~= Seq::<IssueView>::empty());
    assert(rules.last() == ContinuityRule::DeadParticipants);
    assert(local_issues(participants, roster) =~= dead_participant_issues(participants, roster));
}

/// Rules compose: the issues of two lists of rules, one after the other,
/// are the issues of the first list followed by those of the second. A rule
/// added to a list changes nothing of what the rules before it raise.
pub proof fn lemma_rules_compose(
    first: Seq<ContinuityRule>,
    second: Seq<ContinuityRule>,
    participants: Seq<Seq<char>>,
    roster: Seq<Character>,
)
    ensures
        rules_issues(first + second, participants, roster) == rules_issues(
            first,
            participants,
            roster,
        ) + rules_issues(second, participants, roster),
    decreases second.len(),
{
    if second.len() == 0 {
        assert(first + second =~= first);
        assert(rules_issues(first, participants, roster) + Seq::<IssueView>::empty()
            =~= rules_issues(first, participants, roster));
    } else {
        lemma_rules_compose(first, second.drop_last(), participants, roster);
        assert((first + second).drop_last() =~= first + second.drop_last());
        assert((first + second).last() == second.last());
        assert(rules_issues(first + second, participants, roster) =~= rules_issues(
            first,
            participants,
            roster,
        ) + rules_issues(second, participants, roster));
    }
}

/// The number of participants whose name refers to a dead character.
pub open spec fn dead_count(participants: Seq<Seq<char>>, roster: Seq<Character>) -> nat
    decreases participants.len(),
{
    if participants.len() == 0 {
        0
    } else {
        dead_count(participants.drop_last(), roster) + if names_dead(roster, participants.last()) {
            1nat
        } else {
            0nat
        }
    }
}

/// The local check raises exactly one issue for each participant that refers
/// to a dead character and none for any other participant, resolved or not.
/// Every issue has severity `error` and carries the id of a dead character
/// of the roster.
pub proof fn lemma_one_issue_per_dead_participant(
    participants: Seq<Seq<char>>,
    roster: Seq<Character>,
)
    ensures
        local_issues(participants, roster).len() == dead_count(participants, roster),
        forall|k: int|
            0 <= k < local_issues(participants, roster).len() ==> {
                let issue = #[trigger] local_issues(participants, roster)[k];
                &&& issue.severity == "error"@
                &&& exists|i: int|
                    0 <= i < roster.len() && is_dead(roster[i]) && issue.entity_id == Some(
                        roster[i].id@,
                    )
            },
    decreases participants.len(),
{
    lemma_local_issues(participants, roster);
    if participants.len() > 0 {
        let name = participants.last();
        lemma_local_issues(participants.drop_last(), roster);
        lemma_one_issue_per_dead_participant(participants.drop_last(), roster);
        if names_dead(roster, name) {
            lemma_resolve_from(roster, name, 0);
        }
    }
}

/// A participant that no character of the roster is named after raises no
/// issue.
pub proof fn lemma_unresolved_raises_nothing(
    participants: Seq<Seq<char>>,
    roster: Seq<Character>,
)
    requires
        forall|k: int, i: int|
            0 <= k < participants.len() && 0 <= i < roster.len() ==> roster[i].name@
                != participants[k],
    ensures
        local_issues(participants, roster) == Seq::<IssueView>::empty(),
    decreases participants.len(),
{
    lemma_local_issues(participants, roster);
    if participants.len() > 0 {
        let name = participants.last();
        lemma_local_issues(participants.drop_last(), roster);
        lemma_unresolved_raises_nothing(participants.drop_last(), roster);
        lemma_resolve_from(roster, name, 0);
    }
}

/// What `resolve_from` finds: the first position from `from` on that holds
/// the name, or nothing when no such position exists.
pub proof fn lemma_resolve_from(roster: Seq<Character>, name: Seq<char>, from: int)
    requires
        0 <= from,
    ensures
        match resolve_from(roster, name, from) {
            Some(i) => from <= i < roster.len() && roster[i].name@ == name && forall|j: int|
                from <= j < i ==> roster[j].name@ != name,
            None => forall|j: int| from <= j < roster.len() ==> roster[j].name@ != name,
        },
    decreases roster.len() - from,
{
    if from < roster.len() && roster[from].name@ != name {
        lemma_resolve_from(roster, name, from + 1);
    }
}

/// The first character of the roster with exactly the given name.
pub fn find_character<'a>(roster: &'a [Character], name: &str) -> (found: Option<&'a Character>)
    ensures
        match resolve(roster@, name@) {
            Some(i) => found == Some(&roster@[i]),
            None => found is None,
        },
{
    let mut i: usize = 0;
    while i < roster.len()
        invariant
            i <= roster.len(),
            resolve(roster@, name@) == resolve_from(roster@, name@, i as int),
        decreases roster.len() - i,
    {
        if str_eq(roster[i].name.as_str(), name) {
            return Some(&roster[i]);
        }
        i += 1;
    }
    None
}

/// Whether the character's state records the status `dead`.
pub fn character_is_dead(character: &Character) -> (dead: bool)
    ensures
        dead == is_dead(*character),
{
    match character.current_state.get("status") {
        Some(status) => str_eq(status.as_str(), "dead"),
        None => false,
    }
}

/// The rule "the dead do not appear": an issue of severity `error` for each
/// participant of the scene, in order, that refers to a dead character.
pub fn check_dead_participants(scene: &Scene, characters: &[Character]) -> (issues: Vec<
    ContinuityIssue,
>)
    ensures
        issue_views(issues@) == dead_participant_issues(views(scene.participants@), characters@),
{
    let mut issues: Vec<ContinuityIssue> = Vec::new();
    let ghost names = views(scene.participants@);
    let mut p: usize = 0;
    assert(issue_views(issues@) =~= dead_participant_issues(names.take(0), characters@));
    while p < scene.participants.len()
        invariant
            p <= scene.participants.len(),
            names == views(scene.participants@),
            issue_views(issues@) == dead_participant_issues(names.take(p as int), characters@),
        decreases scene.participants.len() - p,
    {
        let name = scene.participants[p].as_str();
        proof {
            let upto = names.take(p + 1);
            assert(upto.drop_last() =~= names.take(p as int));
            assert(upto.last() == name@);
        }
        let ghost before = issue_views(issues@);
        if let Some(character) = find_character(characters, name) {
            if character_is_dead(character) {
                let mut message = "Character ".to_owned();
                message.append(character.name.as_str());
                message.append(" is dead but appears in this scene.");
                let issue = ContinuityIssue {
                    severity: "error".to_owned(),
                    message,
                    entity_id: Some(character.id.clone()),
                };
                assert(issue@ == dead_issue(*character));
                issues.push(issue);
                assert(issue_views(issues@) =~= before.push(dead_issue(*character)));
            }
        }
        p += 1;
    }
    assert(names.take(p as int) =~= names);
    issues
}

/// The issues that one rule raises for a scene.
pub fn apply_rule(rule: ContinuityRule, scene: &Scene, characters: &[Character]) -> (issues: Vec<
    ContinuityIssue,
>)
    ensures
        issue_views(issues@) == rule_issues(rule, views(scene.participants@), characters@),
{
    match rule {
        ContinuityRule::DeadParticipants => check_dead_participants(scene, characters),
    }
}

/// Checks a scene with the given rules and returns the issues found, rule
/// by rule.
pub fn check_rules(rules: &[ContinuityRule], scene: &Scene, characters: &[Character]) -> (issues:
    Vec<ContinuityIssue>)
    ensures
        issue_views(issues@) == rules_issues(rules@, views(scene.participants@), characters@),
{
    let mut issues: Vec<ContinuityIssue> = Vec::new();
    let ghost names = views(scene.participants@);
    let mut r: usize = 0;
    assert(issue_views(issues@) =~= rules_issues(rules@.take(0), names, characters@));
    while r < rules.len()
        invariant
            r <= rules.len(),
            names == views(scene.participants@),
            issue_views(issues@) == rules_issues(rules@.take(r as int), names, characters@),
        decreases rules.len() - r,
    {
        let ghost before = issues@;
        let mut found = apply_rule(rules[r], scene, characters);
        let ghost added = found@;
        issues.append(&mut found);
        proof {
            assert(rules@.take(r + 1).drop_last() =~= rules@.take(r as int));
            assert(rules@.take(r + 1).last() == rules@[r as int]);
            assert(issue_views(before + added) =~= issue_views(before) + issue_views(added));
        }
        r += 1;
    }
    assert(rules@.take(r as int) =~= rules@);
    issues
}

/// Checks a scene against the roster with every local rule and returns the
/// issues found, rule by rule and within a rule in the order of the scene's
/// participants. A participant named after no character is passed over.
pub fn check_local_continuity(scene: &Scene, characters: &[Character]) -> (issues: Vec<
    ContinuityIssue,
>)
    ensures
        issue_views(issues@) == local_issues(views(scene.participants@), characters@),
{
    let rules = [ContinuityRule::DeadParticipants];
    assert(rules@ =~= local_rules());
    check_rules(rules.as_slice(), scene, characters)
}

} // verus!
