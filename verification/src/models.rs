//! Model selection and the request shape handed to a language-model
//! backend.  The outbound call itself is a collaborator outside this
//! crate; the crate only decides which model to address and with which
//! parameters.
//!
//! Temperature and top-p travel as IEEE-754 single-precision bit
//! patterns, as in the settings model.

use vstd::prelude::*;

use crate::settings::ModelParams;
use crate::settings::opt_max_tokens;
use crate::settings::opt_temperature;
use crate::settings::opt_top_p;
use crate::settings::pick3;

verus! {

/// What is sent to the backend for one generation.
#[derive(Clone, Debug, PartialEq)]
pub struct ModelRequest {
    pub model: String,
    pub prompt: String,
    /// Bit pattern of the sampling temperature.
    pub temperature: Option<u32>,
    pub max_tokens: Option<u32>,
    /// Bit pattern of the nucleus-sampling threshold.
    pub top_p: Option<u32>,
}

/// What a backend returns for one generation.
#[derive(Clone, Debug, PartialEq, Default)]
pub struct ModelResponse {
    pub content: String,
    pub model: String,
}

/// The address of an OpenAI-compatible endpoint.
#[derive(Clone, Debug, PartialEq)]
pub struct OpenAICompatible {
    pub base_url: String,
    pub api_key: Option<String>,
}

impl OpenAICompatible {
    /// Builds the endpoint configuration from what the environment
    /// supplied: an absent base URL falls back to the public default.
    pub fn from_parts(base_url: Option<String>, api_key: Option<String>) -> (r: Self)
        ensures
            match base_url {
                Some(u) => r.base_url == u,
                None => r.base_url@ == "https://api.openai.com/v1"@,
            },
            r.api_key == api_key,
    {
        let base_url = match base_url {
            Some(u) => u,
            None => "https://api.openai.com/v1".to_owned(),
        };
        OpenAICompatible { base_url, api_key }
    }
}

#[derive(Clone, Copy, Debug, PartialEq, Eq, Structural, Default)]
pub struct ModelSelector;

impl ModelSelector {
    /// The model addressed by a request: an explicit override first,
    /// then the session default, then the global default.
    pub fn select(
        model_override: Option<String>,
        session_default: Option<String>,
        global_default: Option<String>,
    ) -> (r: Option<String>)
        ensures
            r == pick3(model_override, session_default, global_default),
    {
        match model_override {
            Some(m) => Some(m),
            None => match session_default {
                Some(m) => Some(m),
                None => global_default,
            },
        }
    }
}

/// Assembles the backend request for one prompt from the session's
/// model parameters.
pub fn build_model_request(model: String, prompt: String, params: Option<ModelParams>) -> (r:
    ModelRequest)
    ensures
        r.model == model,
        r.prompt == prompt,
        r.temperature == opt_temperature(params),
        r.max_tokens == opt_max_tokens(params),
        r.top_p == opt_top_p(params),
{
    let (temperature, max_tokens, top_p) = match params {
        Some(p) => (p.temperature, p.max_tokens, p.top_p),
        None => (None, None, None),
    };
    ModelRequest { model, prompt, temperature, max_tokens, top_p }
}

} // verus!
