//! Review providers: the capability "given the context of a scene, return
//! a list of textual issues", its variants, and the choice among them.

use vstd::prelude::*;
use vstd::string::*;
use crate::settings_model::AppSettings;
use crate::text::{str_eq, views};

verus! {

/// The answer of a review provider: the issues it found, as text.
#[derive(Debug)]
pub struct AiResponse {
    pub issues: Vec<String>,
}

/// What a review may come to: the issues found, or the reason of a failure.
pub open spec fn review_view(review: Result<AiResponse, String>) -> Result<
    Seq<Seq<char>>,
    Seq<char>,
> {
    match review {
        Ok(response) => Ok(views(response.issues@)),
        Err(reason) => Err(reason@),
    }
}

/// A provider of continuity reviews. `allows` says which outcomes the
/// provider may produce for a context; a provider that always answers the
/// same allows exactly one, and one that says nothing allows any.
pub trait AiProvider {
    /// Whether the provider may answer `review` when asked about `context`.
    open spec fn allows(
        &self,
        context: Seq<char>,
        review: Result<Seq<Seq<char>>, Seq<char>>,
    ) -> bool {
        true
    }

    /// Reviews the given context and returns the issues found, or fails
    /// with a description of what went wrong.
    fn review_continuity(&self, context: &str) -> (review: Result<AiResponse, String>)
        ensures
            self.allows(context@, review_view(review)),
    ;
}

/// The issue that the local heuristic reports.
pub open spec fn mock_issue() -> Seq<char> {
    "Mock issue: Character voice seems inconsistent."@
}

/// The local heuristic: answers with one fixed placeholder issue, whatever
/// the context. Meant for work without a remote model.
#[derive(Clone, Copy, Debug)]
pub struct MockAiProvider;

impl AiProvider for MockAiProvider {
    open spec fn allows(
        &self,
        context: Seq<char>,
        review: Result<Seq<Seq<char>>, Seq<char>>,
    ) -> bool {
        review == Ok::<Seq<Seq<char>>, Seq<char>>(seq![mock_issue()])
    }

    fn review_continuity(&self, _context: &str) -> (review: Result<AiResponse, String>) {
        let mut issues: Vec<String> = Vec::new();
        issues.push("Mock issue: Character voice seems inconsistent.".to_owned());
        assert(views(issues@) =~= seq![mock_issue()]);
        Ok(AiResponse { issues })
    }
}

/// The number of characters of the context that a remote answer quotes.
pub const CONTEXT_EXCERPT_LEN: usize = 20;

/// The beginning of the context that a remote answer quotes.
pub open spec fn context_excerpt(context: Seq<char>) -> Seq<char> {
    if context.len() <= CONTEXT_EXCERPT_LEN {
        context
    } else {
        context.subrange(0, CONTEXT_EXCERPT_LEN as int)
    }
}

/// The issue with which a remote provider configured for `model` answers.
pub open spec fn remote_issue(model: Seq<char>, context: Seq<char>) -> Seq<char> {
    "AI ("@ + model + ") suggests checking: "@ + context_excerpt(context)
}

/// A remote model behind an OpenAI-compatible interface. The provider
/// answers with a placeholder that names the configured model and quotes
/// the beginning of the context; it does not reach out to the network.
#[derive(Clone, Debug)]
pub struct OpenAiProvider {
    pub api_key: String,
    pub base_url: String,
    pub model: String,
}

impl AiProvider for OpenAiProvider {
    open spec fn allows(
        &self,
        context: Seq<char>,
        review: Result<Seq<Seq<char>>, Seq<char>>,
    ) -> bool {
        review == Ok::<Seq<Seq<char>>, Seq<char>>(seq![remote_issue(self.model@, context)])
    }

    fn review_continuity(&self, context: &str) -> (review: Result<AiResponse, String>) {
        let len = context.unicode_len();
        let excerpt = if len <= CONTEXT_EXCERPT_LEN {
            context
        } else {
            context.substring_char(0, CONTEXT_EXCERPT_LEN)
        };
        assert(excerpt@ =~= context_excerpt(context@));
        let mut issue = "AI (".to_owned();
        issue.append(self.model.as_str());
        issue.append(") suggests checking: ");
        issue.append(excerpt);
        let mut issues: Vec<String> = Vec::new();
        issues.push(issue);
        assert(views(issues@) =~= seq![remote_issue(self.model@, context@)]);
        Ok(AiResponse { issues })
    }
}

/// The base URL used where the settings give none.
pub open spec fn default_base_url() -> Seq<char> {
    "https://api.openai.com/v1"@
}

/// The model used where the settings give none.
pub open spec fn default_model() -> Seq<char> {
    "gpt-3.5-turbo"@
}

/// The review capability chosen from the settings.
#[derive(Clone, Debug)]
pub enum AiGateway {
    /// No review: every request is answered with no issues, without a call.
    Disabled,
    /// The local heuristic.
    LocalHeuristic(MockAiProvider),
    /// A remote model.
    RemoteModel(OpenAiProvider),
}

/// Whether `name` is a provider identifier that selects a remote model.
pub open spec fn is_remote_provider(name: Seq<char>) -> bool {
    name == "openai"@ || name == "ollama"@
}

/// The value of an optional setting, or `fallback` where it is missing.
pub open spec fn setting_or(value: Option<String>, fallback: Seq<char>) -> Seq<char> {
    match value {
        Some(v) => v@,
        None => fallback,
    }
}

/// Whether `gateway` is the one that the selection policy gives for
/// `settings`: `none` switches review off, a remote identifier selects the
/// remote model with the configured details or their defaults, and anything
/// else selects the local heuristic: any other identifier, the empty one
/// included, and the case that there are no settings at all.
pub open spec fn selected(settings: Option<&AppSettings>, gateway: AiGateway) -> bool {
    match settings {
        None => gateway is LocalHeuristic,
        Some(settings) => {
            if is_remote_provider(settings.ai_provider@) {
                &&& gateway is RemoteModel
                &&& gateway->RemoteModel_0.api_key@ == setting_or(
                    settings.ai_api_key,
                    Seq::empty(),
                )
                &&& gateway->RemoteModel_0.base_url@ == setting_or(
                    settings.ai_base_url,
                    default_base_url(),
                )
                &&& gateway->RemoteModel_0.model@ == setting_or(
                    settings.ai_model,
                    default_model(),
                )
            } else if settings.ai_provider@ == "none"@ {
                gateway is Disabled
            } else {
                gateway is LocalHeuristic
            }
        },
    }
}

/// The issues with which `gateway` answers a request about `context`.
pub open spec fn gateway_issues(gateway: AiGateway, context: Seq<char>) -> Seq<Seq<char>> {
    match gateway {
        AiGateway::Disabled => Seq::empty(),
        AiGateway::LocalHeuristic(_) => seq![mock_issue()],
        AiGateway::RemoteModel(provider) => seq![remote_issue(provider.model@, context)],
    }
}

fn setting_or_default(value: &Option<String>, fallback: &str) -> (chosen: String)
    ensures
        chosen@ == setting_or(*value, fallback@),
{
    match value {
        Some(v) => v.clone(),
        None => fallback.to_owned(),
    }
}

/// Chooses the review capability for the given settings, or for the case
/// that none are stored.
pub fn select_gateway(settings: Option<&AppSettings>) -> (gateway: AiGateway)
    ensures
        selected(settings, gateway),
{
    let settings = match settings {
        Some(settings) => settings,
        None => {
            return AiGateway::LocalHeuristic(MockAiProvider);
        },
    };
    let name = settings.ai_provider.as_str();
    proof {
        reveal_strlit("");
        assert(""@ =~= Seq::<char>::empty());
    }
    if str_eq(name, "openai") || str_eq(name, "ollama") {
        AiGateway::RemoteModel(
            OpenAiProvider {
                api_key: setting_or_default(&settings.ai_api_key, ""),
                base_url: setting_or_default(&settings.ai_base_url, "https://api.openai.com/v1"),
                model: setting_or_default(&settings.ai_model, "gpt-3.5-turbo"),
            },
        )
    } else if str_eq(name, "none") {
        AiGateway::Disabled
    } else {
        AiGateway::LocalHeuristic(MockAiProvider)
    }
}

impl AiGateway {
    /// Asks the chosen provider to review `context`. A disabled gateway
    /// answers with no issues and asks nobody.
    pub fn review(&self, context: &str) -> (review: Result<AiResponse, String>)
        ensures
            review_view(review) == Ok::<Seq<Seq<char>>, Seq<char>>(gateway_issues(*self, context@)),
    {
        match self {
            AiGateway::Disabled => {
                let issues: Vec<String> = Vec::new();
                assert(views(issues@) =~= Seq::<Seq<char>>::empty());
                Ok(AiResponse { issues })
            },
            AiGateway::LocalHeuristic(provider) => provider.review_continuity(context),
            AiGateway::RemoteModel(provider) => provider.review_continuity(context),
        }
    }
}

} // verus!
