//! The settings record that chooses the review provider.

use vstd::prelude::*;
use vstd::string::*;

verus! {

/// Application settings. `ai_provider` names the review provider: `none`,
/// `openai`, `ollama`, or anything else; the other fields belong to the
/// provider and may be missing.
#[derive(Clone, Debug)]
pub struct AppSettings {
    pub ai_provider: String,
    pub ai_base_url: Option<String>,
    pub ai_api_key: Option<String>,
    pub ai_model: Option<String>,
}

impl Default for AppSettings {
    /// Settings with review switched off and no provider details.
    fn default() -> (settings: AppSettings)
        ensures
            settings.ai_provider@ == "none"@,
            settings.ai_base_url is None,
            settings.ai_api_key is None,
            settings.ai_model is None,
    {
        AppSettings {
            ai_provider: "none".to_owned(),
            ai_base_url: None,
            ai_api_key: None,
            ai_model: None,
        }
    }
}

} // verus!
