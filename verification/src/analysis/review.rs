//! The full continuity check of a scene: the local rules, then the review
//! of the configured provider, merged into one result.

use vstd::prelude::*;
use vstd::string::*;
use crate::ai::{
    default_model, is_remote_provider, mock_issue, remote_issue, review_view, select_gateway,
    setting_or, AiProvider, AiResponse,
};
use crate::analysis::continuity::{
    check_local_continuity, issue_views, local_issues, ContinuityIssue, IssueView,
};
use crate::models::{Character, Scene};
use crate::settings_model::AppSettings;
use crate::text::views;

verus! {

/// The outcome of a continuity check: the issues of the local rules and the
/// issues that the review provider reported.
#[derive(Debug)]
pub struct ContinuityResult {
    pub local_issues: Vec<ContinuityIssue>,
    pub ai_issues: Vec<String>,
}

/// What a continuity check may come to: the local issues together with the
/// provider's issues, or the reason of a failure.
pub open spec fn outcome_view(outcome: Result<ContinuityResult, String>) -> Result<
    (Seq<IssueView>, Seq<Seq<char>>),
    Seq<char>,
> {
    match outcome {
        Ok(found) => Ok((issue_views(found.local_issues@), views(found.ai_issues@))),
        Err(reason) => Err(reason@),
    }
}

/// The outcome of a check whose local rules found `local` and whose review
/// came to `review`: both lists where the review succeeded, and the
/// review's failure, with nothing of the local result, where it did not.
pub open spec fn merged(local: Seq<IssueView>, review: Result<Seq<Seq<char>>, Seq<char>>) -> Result<
    (Seq<IssueView>, Seq<Seq<char>>),
    Seq<char>,
> {
    match review {
        Ok(issues) => Ok((local, issues)),
        Err(reason) => Err(reason),
    }
}

/// The context handed to the review provider: the scene's summary, or the
/// empty text where it has none.
pub open spec fn review_context(scene: Scene) -> Seq<char> {
    match scene.summary {
        Some(summary) => summary@,
        None => Seq::empty(),
    }
}

/// The issues that the provider chosen by `settings` reports on `context`.
/// Where there are no settings, the local heuristic is asked.
pub open spec fn provider_issues(settings: Option<&AppSettings>, context: Seq<char>) -> Seq<
    Seq<char>,
> {
    match settings {
        None => seq![mock_issue()],
        Some(settings) => {
            if is_remote_provider(settings.ai_provider@) {
                seq![remote_issue(setting_or(settings.ai_model, default_model()), context)]
            } else if settings.ai_provider@ == "none"@ {
                Seq::empty()
            } else {
                seq![mock_issue()]
            }
        },
    }
}

/// Merges the issues of the local rules with the outcome of a review. A
/// failed review fails the whole check.
pub fn combine_review(local_issues: Vec<ContinuityIssue>, review: Result<AiResponse, String>) -> (outcome:
    Result<ContinuityResult, String>)
    ensures
        outcome_view(outcome) == merged(issue_views(local_issues@), review_view(review)),
{
    match review {
        Ok(response) => Ok(ContinuityResult { local_issues, ai_issues: response.issues }),
        Err(reason) => Err(reason),
    }
}

fn context_of(scene: &Scene) -> (context: &str)
    ensures
        context@ == review_context(*scene),
{
    match &scene.summary {
        Some(summary) => summary.as_str(),
        None => {
            proof {
                reveal_strlit("");
                assert(""@ =~= Seq::<char>::empty());
            }
            ""
        },
    }
}

/// Checks a scene with the local rules and has `provider` review its
/// summary. The result holds the local issues and whatever the provider
/// answered; where the provider fails, so does the check.
pub fn check_continuity_with<P: AiProvider>(
    scene: &Scene,
    characters: &[Character],
    provider: &P,
) -> (outcome: Result<ContinuityResult, String>)
    ensures
        exists|review: Result<Seq<Seq<char>>, Seq<char>>|
            provider.allows(review_context(*scene), review) && outcome_view(outcome) == merged(
                local_issues(views(scene.participants@), characters@),
                review,
            ),
{
    let local = check_local_continuity(scene, characters);
    let review = provider.review_continuity(context_of(scene));
    let ghost answered = review_view(review);
    let outcome = combine_review(local, review);
    assert(provider.allows(review_context(*scene), answered) && outcome_view(outcome) == merged(
        local_issues(views(scene.participants@), characters@),
        answered,
    ));
    outcome
}

/// Checks a scene with the local rules and with the review provider that
/// `settings` select: none at all, the local heuristic, or the remote
/// model. Where no settings are stored, the local heuristic reviews.
pub fn check_continuity(
    scene: &Scene,
    characters: &[Character],
    settings: Option<&AppSettings>,
) -> (outcome: Result<ContinuityResult, String>)
    ensures
        outcome_view(outcome) == Ok::<(Seq<IssueView>, Seq<Seq<char>>), Seq<char>>(
            (
                local_issues(views(scene.participants@), characters@),
                provider_issues(settings, review_context(*scene)),
            ),
        ),
{
    let local = check_local_continuity(scene, characters);
    let gateway = select_gateway(settings);
    let review = gateway.review(context_of(scene));
    combine_review(local, review)
}

} // verus!
