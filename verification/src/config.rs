//! API-key resolution and the provider a Settings `[ai]` table asks for:
//! Local (curated local models over Chat Completions), OpenRouter (curated
//! cloud models with OpenRouter extras) or Custom (any endpoint, either
//! protocol).

use vstd::prelude::*;
use crate::catalog::{
    local_lookup, openrouter_lookup, is_known_local_model, is_known_openrouter_model,
    OPENROUTER_BASE_URL,
};
use crate::compat::{
    openrouter_compat_extras, OpenAiCompatExtras, OpenAiProtocol, ReasoningSummary,
};
use crate::text::{owned, trim, trimmed};

verus! {

/// Where the AI provider comes from.
#[derive(Debug, Clone, Copy, PartialEq, Eq, Structural)]
pub enum AiSource {
    Local,
    OpenRouter,
    Custom,
}

/// Why an `api_key_env` that names an unset variable cannot be used.
pub open spec fn unset_env_message(var: Seq<char>) -> Seq<char> {
    "api_key_env points at '"@ + var + "' but that environment variable is unset"@
}

/// Resolve the API key to send, honoring `api_key_env` over a literal
/// `api_key`. `env_value` is what the environment holds for the variable
/// `api_key_env` names. `Ok(None)` means no key (fine for local servers);
/// `Err` names an `api_key_env` pointing at an unset (or empty) variable.
pub fn resolve_api_key(
    api_key: Option<&str>,
    api_key_env: Option<&str>,
    env_value: Option<String>,
) -> (r: Result<Option<String>, String>)
    ensures
        match api_key_env {
            Some(var) => match env_value {
                Some(v) => if v@.len() > 0 { r matches Ok(Some(k)) && k@ == v@ } else {
                    r matches Err(m) && m@ == unset_env_message(var@)
                },
                None => r matches Err(m) && m@ == unset_env_message(var@),
            },
            None => match api_key {
                Some(k) => r matches Ok(Some(s)) && s@ == k@,
                None => r matches Ok(None),
            },
        },
{
    match api_key_env {
        Some(var) => {
            match env_value {
                Some(v) => {
                    if !v.as_str().is_empty() {
                        return Ok(Some(v));
                    }
                },
                None => {},
            }
            let mut m = owned("api_key_env points at '");
            m.append(var);
            m.append("' but that environment variable is unset");
            Err(m)
        },
        None => match api_key {
            Some(k) => Ok(Some(owned(k))),
            None => Ok(None),
        },
    }
}

/// What settings that are not configured are told.
pub open spec fn unconfigured_message(source: AiSource) -> Seq<char> {
    match source {
        AiSource::Local => "Local AI needs a base URL and a supported model."@,
        AiSource::OpenRouter => "OpenRouter needs an API key and a supported model."@,
        AiSource::Custom => "Advanced AI needs an endpoint URL and a model name."@,
    }
}

/// Why configured settings are still refused: a Local or OpenRouter model
/// outside its curated list.
pub open spec fn settings_problem(source: AiSource, configured: bool, model: Seq<char>) -> Option<Seq<char>> {
    if !configured {
        Some(unconfigured_message(source))
    } else {
        match source {
            AiSource::Local => if local_lookup(model) is None {
                Some("Model '"@ + trim(model) + "' is not in the supported local list."@)
            } else {
                None
            },
            AiSource::OpenRouter => if openrouter_lookup(model) is None {
                Some("Model '"@ + trim(model) + "' is not in the supported OpenRouter list."@)
            } else {
                None
            },
            AiSource::Custom => None,
        }
    }
}

/// Structural and allowlist checks: `configured` is whether the settings
/// have what their source needs (endpoint, key, model).
pub fn validate_ai_settings(source: AiSource, configured: bool, model: &str) -> (r: Result<(), String>)
    ensures
        match settings_problem(source, configured, model@) {
            Some(m) => r matches Err(e) && e@ == m,
            None => r is Ok,
        },
{
    if !configured {
        return Err(match source {
            AiSource::Local => owned("Local AI needs a base URL and a supported model."),
            AiSource::OpenRouter => owned("OpenRouter needs an API key and a supported model."),
            AiSource::Custom => owned("Advanced AI needs an endpoint URL and a model name."),
        });
    }
    match source {
        AiSource::Local => {
            if !is_known_local_model(model) {
                let mut m = owned("Model '");
                m.append(trimmed(model).as_str());
                m.append("' is not in the supported local list.");
                return Err(m);
            }
        },
        AiSource::OpenRouter => {
            if !is_known_openrouter_model(model) {
                let mut m = owned("Model '");
                m.append(trimmed(model).as_str());
                m.append("' is not in the supported OpenRouter list.");
                return Err(m);
            }
        },
        AiSource::Custom => {},
    }
    Ok(())
}

/// The provider to build: endpoint, model, key, protocol, reasoning
/// visibility and request extras.
#[derive(Debug, Clone, PartialEq, Eq)]
pub struct ProviderPlan {
    pub base_url: String,
    pub model: String,
    pub api_key: Option<String>,
    pub protocol: OpenAiProtocol,
    pub reasoning_summary: ReasoningSummary,
    pub extras: OpenAiCompatExtras,
}

/// What OpenRouter settings without a key are told.
pub open spec fn openrouter_key_message() -> Seq<char> {
    "OpenRouter requires an API key (paste it in Settings or set api_key_env)."@
}

/// The provider that validated settings ask for. Local speaks Chat
/// Completions with no reasoning summary; OpenRouter adds its fixed
/// endpoint, needs a key and gets the model's extras; Custom uses the
/// chosen protocol and summary with no extras. Endpoint and model are
/// trimmed.
pub fn provider_plan(
    source: AiSource,
    base_url: &str,
    model: &str,
    api_key: Option<String>,
    protocol: OpenAiProtocol,
    reasoning_summary: ReasoningSummary,
) -> (r: Result<ProviderPlan, String>)
    ensures
        source == AiSource::OpenRouter && api_key is None ==> (r matches Err(m) && m@ == openrouter_key_message()),
        !(source == AiSource::OpenRouter && api_key is None) ==> (r matches Ok(plan) && {
            &&& plan.model@ == trim(model@)
            &&& plan.api_key == api_key
            &&& match source {
                AiSource::Local => plan.base_url@ == trim(base_url@)
                    && plan.protocol == OpenAiProtocol::ChatCompletions
                    && plan.reasoning_summary == ReasoningSummary::Off
                    && plan.extras.provider_order is None && !plan.extras.openrouter_headers
                    && !plan.extras.usage_accounting && !plan.extras.prompt_caching && !plan.extras.allow_fallbacks,
                AiSource::OpenRouter => plan.base_url@ == OPENROUTER_BASE_URL@
                    && plan.protocol == OpenAiProtocol::ChatCompletions
                    && plan.reasoning_summary == ReasoningSummary::Off
                    && crate::compat::openrouter_extras_for(trim(model@), plan.extras),
                AiSource::Custom => plan.base_url@ == trim(base_url@)
                    && plan.protocol == protocol
                    && plan.reasoning_summary == reasoning_summary
                    && plan.extras.provider_order is None && !plan.extras.openrouter_headers
                    && !plan.extras.usage_accounting && !plan.extras.prompt_caching && !plan.extras.allow_fallbacks,
            }
        }),
{
    let model_t = trimmed(model);
    match source {
        AiSource::Local => Ok(ProviderPlan {
            base_url: trimmed(base_url),
            model: model_t,
            api_key,
            protocol: OpenAiProtocol::ChatCompletions,
            reasoning_summary: ReasoningSummary::Off,
            extras: OpenAiCompatExtras::default(),
        }),
        AiSource::OpenRouter => {
            if api_key.is_none() {
                return Err(owned("OpenRouter requires an API key (paste it in Settings or set api_key_env)."));
            }
            let extras = openrouter_compat_extras(model_t.as_str());
            Ok(ProviderPlan {
                base_url: owned(OPENROUTER_BASE_URL),
                model: model_t,
                api_key,
                protocol: OpenAiProtocol::ChatCompletions,
                reasoning_summary: ReasoningSummary::Off,
                extras,
            })
        },
        AiSource::Custom => Ok(ProviderPlan {
            base_url: trimmed(base_url),
            model: model_t,
            api_key,
            protocol,
            reasoning_summary,
            extras: OpenAiCompatExtras::default(),
        }),
    }
}

} // verus!
