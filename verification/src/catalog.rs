//! Curated model allowlists for Local and OpenRouter.
//!
//! The Settings picker and agent routing both read from these tables.
//! Adding or removing a model is one change here, never the full
//! OpenRouter catalog.

use vstd::prelude::*;
use crate::text::{char_vec, chars_eq, chars_end_with, chars_start_with, ends_with, slice_chars, starts_with, trim, trim_bounds};

verus! {

/// Fixed OpenRouter Chat Completions root.
pub const OPENROUTER_BASE_URL: &'static str = "https://openrouter.ai/api/v1";

/// Attribution headers OpenRouter asks apps to send.
pub const OPENROUTER_HTTP_REFERER: &'static str = "https://cutlass.sh";

/// The app title OpenRouter shows for requests from this editor.
pub const OPENROUTER_APP_TITLE: &'static str = "Cutlass";

/// Default local model (Ollama-style id).
pub const DEFAULT_LOCAL_MODEL: &'static str = "qwen3:14b";

/// Default OpenRouter cloud model slug.
pub const DEFAULT_OPENROUTER_MODEL: &'static str = "openai/gpt-5.6-sol";

/// One curated local model. `aliases` cover Ollama vs LM Studio naming;
/// `id` is the preferred persist form (usually the Ollama tag).
#[derive(Debug, Clone, Copy, PartialEq, Eq)]
pub struct LocalModel {
    pub id: &'static str,
    pub display: &'static str,
    pub role: &'static str,
    pub aliases: &'static [&'static str],
}

/// OpenRouter upstream pin for open-weight models.
#[derive(Debug, Clone, Copy, PartialEq, Eq)]
pub struct ProviderPin {
    pub order: &'static [&'static str],
    pub allow_fallbacks: bool,
}

/// One curated OpenRouter model.
#[derive(Debug, Clone, Copy, PartialEq, Eq)]
pub struct OpenRouterModel {
    pub id: &'static str,
    pub display: &'static str,
    pub vendor: &'static str,
    pub role: &'static str,
    pub pin: Option<ProviderPin>,
}


/// The local allowlist, the entire Local picker.
pub open spec fn local_catalog() -> Seq<LocalModel> {
    seq![
        LocalModel {
            id: "qwen3:14b",
            display: "Qwen3 14B",
            role: "Default local agent",
            aliases: &["qwen3:14b", "qwen3-14b"],
        },
        LocalModel {
            id: "qwen3:32b",
            display: "Qwen3 32B",
            role: "Stronger local quality",
            aliases: &["qwen3:32b", "qwen3-32b"],
        },
        LocalModel {
            id: "llama3.3:70b",
            display: "Llama 3.3 70B",
            role: "High-end local (needs RAM/GPU)",
            aliases: &["llama3.3:70b", "llama-3.3-70b"],
        },
        LocalModel {
            id: "gpt-oss:20b",
            display: "GPT-OSS 20B",
            role: "Compact open reasoning",
            aliases: &["gpt-oss:20b", "gpt-oss-20b"],
        },
        LocalModel {
            id: "gpt-oss:120b",
            display: "GPT-OSS 120B",
            role: "Best open local (heavy)",
            aliases: &["gpt-oss:120b", "gpt-oss-120b"],
        },
    ]
}

/// The local allowlist, in picker order.
pub fn local_models() -> (r: Vec<LocalModel>)
    ensures
        r@ == local_catalog(),
{
    let r = vec![
        LocalModel {
            id: "qwen3:14b",
            display: "Qwen3 14B",
            role: "Default local agent",
            aliases: &["qwen3:14b", "qwen3-14b"],
        },
        LocalModel {
            id: "qwen3:32b",
            display: "Qwen3 32B",
            role: "Stronger local quality",
            aliases: &["qwen3:32b", "qwen3-32b"],
        },
        LocalModel {
            id: "llama3.3:70b",
            display: "Llama 3.3 70B",
            role: "High-end local (needs RAM/GPU)",
            aliases: &["llama3.3:70b", "llama-3.3-70b"],
        },
        LocalModel {
            id: "gpt-oss:20b",
            display: "GPT-OSS 20B",
            role: "Compact open reasoning",
            aliases: &["gpt-oss:20b", "gpt-oss-20b"],
        },
        LocalModel {
            id: "gpt-oss:120b",
            display: "GPT-OSS 120B",
            role: "Best open local (heavy)",
            aliases: &["gpt-oss:120b", "gpt-oss-120b"],
        },
    ];
    assert(r@ =~= local_catalog());
    r
}

/// The OpenRouter allowlist, the entire cloud picker, grouped by `vendor`.
pub open spec fn openrouter_catalog() -> Seq<OpenRouterModel> {
    seq![
        OpenRouterModel {
            id: "openai/gpt-5.5",
            display: "GPT-5.5",
            vendor: "OpenAI",
            role: "Frontier (prior gen)",
            pin: None,
        },
        OpenRouterModel {
            id: "openai/gpt-5.6-sol",
            display: "GPT-5.6",
            vendor: "OpenAI",
            role: "Cloud default",
            pin: None,
        },
        OpenRouterModel {
            id: "google/gemini-3.5-flash",
            display: "Gemini 3.5 Flash",
            vendor: "Google",
            role: "Fast agent / coding",
            pin: None,
        },
        OpenRouterModel {
            id: "google/gemini-3.1-pro-preview",
            display: "Gemini 3.1 Pro",
            vendor: "Google",
            role: "Strongest reasoning + vision",
            pin: None,
        },
        OpenRouterModel {
            id: "google/gemini-3-flash-preview",
            display: "Gemini 3 Flash",
            vendor: "Google",
            role: "Speed + grounding",
            pin: None,
        },
        OpenRouterModel {
            id: "x-ai/grok-4.5",
            display: "Grok 4.5",
            vendor: "xAI",
            role: "Flagship coding / agents",
            pin: None,
        },
        OpenRouterModel {
            id: "x-ai/grok-4.3",
            display: "Grok 4.3",
            vendor: "xAI",
            role: "General, large context",
            pin: None,
        },
        OpenRouterModel {
            id: "x-ai/grok-4.20",
            display: "Grok 4.20 Reasoning",
            vendor: "xAI",
            role: "Fast agentic tool calling",
            pin: None,
        },
        OpenRouterModel {
            id: "moonshotai/kimi-k3",
            display: "Kimi K3",
            vendor: "Kimi",
            role: "Vision + 1M context",
            pin: Some(ProviderPin { order: &["moonshotai"], allow_fallbacks: false }),
        },
        OpenRouterModel {
            id: "moonshotai/kimi-k2.6",
            display: "Kimi K2.6",
            vendor: "Kimi",
            role: "General agent / multimodal",
            pin: Some(ProviderPin { order: &["moonshotai"], allow_fallbacks: false }),
        },
        OpenRouterModel {
            id: "moonshotai/kimi-k2.7-code",
            display: "Kimi K2.7 Code",
            vendor: "Kimi",
            role: "Coding specialist",
            pin: Some(ProviderPin { order: &["moonshotai"], allow_fallbacks: false }),
        },
        OpenRouterModel {
            id: "moonshotai/kimi-k2.7-code-highspeed",
            display: "Kimi K2.7 Code Highspeed",
            vendor: "Kimi",
            role: "Fast coding variant",
            pin: Some(ProviderPin { order: &["moonshotai"], allow_fallbacks: false }),
        },
        OpenRouterModel {
            id: "z-ai/glm-5",
            display: "GLM-5",
            vendor: "GLM",
            role: "Flagship agentic",
            pin: Some(ProviderPin { order: &["z-ai"], allow_fallbacks: false }),
        },
        OpenRouterModel {
            id: "z-ai/glm-5.1",
            display: "GLM-5.1",
            vendor: "GLM",
            role: "Refined flagship",
            pin: Some(ProviderPin { order: &["z-ai"], allow_fallbacks: false }),
        },
        OpenRouterModel {
            id: "z-ai/glm-5.2",
            display: "GLM-5.2",
            vendor: "GLM",
            role: "Latest coding / 1M ctx",
            pin: Some(ProviderPin { order: &["z-ai"], allow_fallbacks: false }),
        },
        OpenRouterModel {
            id: "z-ai/glm-4.5",
            display: "GLM-4.5",
            vendor: "GLM",
            role: "Prior open workhorse",
            pin: Some(ProviderPin { order: &["z-ai"], allow_fallbacks: false }),
        },
        OpenRouterModel {
            id: "openai/gpt-oss-120b",
            display: "GPT-OSS 120B",
            vendor: "Open weight",
            role: "Fast/cheap iteration (Groq)",
            pin: Some(ProviderPin { order: &["groq"], allow_fallbacks: false }),
        },
        OpenRouterModel {
            id: "meta-llama/llama-3.3-70b-instruct",
            display: "Llama 3.3 70B",
            vendor: "Open weight",
            role: "Reliable general + tools",
            pin: Some(ProviderPin { order: &["groq"], allow_fallbacks: false }),
        },
    ]
}

/// The OpenRouter allowlist, in picker order.
pub fn openrouter_models() -> (r: Vec<OpenRouterModel>)
    ensures
        r@ == openrouter_catalog(),
{
    let r = vec![
        OpenRouterModel {
            id: "openai/gpt-5.5",
            display: "GPT-5.5",
            vendor: "OpenAI",
            role: "Frontier (prior gen)",
            pin: None,
        },
        OpenRouterModel {
            id: "openai/gpt-5.6-sol",
            display: "GPT-5.6",
            vendor: "OpenAI",
            role: "Cloud default",
            pin: None,
        },
        OpenRouterModel {
            id: "google/gemini-3.5-flash",
            display: "Gemini 3.5 Flash",
            vendor: "Google",
            role: "Fast agent / coding",
            pin: None,
        },
        OpenRouterModel {
            id: "google/gemini-3.1-pro-preview",
            display: "Gemini 3.1 Pro",
            vendor: "Google",
            role: "Strongest reasoning + vision",
            pin: None,
        },
        OpenRouterModel {
            id: "google/gemini-3-flash-preview",
            display: "Gemini 3 Flash",
            vendor: "Google",
            role: "Speed + grounding",
            pin: None,
        },
        OpenRouterModel {
            id: "x-ai/grok-4.5",
            display: "Grok 4.5",
            vendor: "xAI",
            role: "Flagship coding / agents",
            pin: None,
        },
        OpenRouterModel {
            id: "x-ai/grok-4.3",
            display: "Grok 4.3",
            vendor: "xAI",
            role: "General, large context",
            pin: None,
        },
        OpenRouterModel {
            id: "x-ai/grok-4.20",
            display: "Grok 4.20 Reasoning",
            vendor: "xAI",
            role: "Fast agentic tool calling",
            pin: None,
        },
        OpenRouterModel {
            id: "moonshotai/kimi-k3",
            display: "Kimi K3",
            vendor: "Kimi",
            role: "Vision + 1M context",
            pin: Some(ProviderPin { order: &["moonshotai"], allow_fallbacks: false }),
        },
        OpenRouterModel {
            id: "moonshotai/kimi-k2.6",
            display: "Kimi K2.6",
            vendor: "Kimi",
            role: "General agent / multimodal",
            pin: Some(ProviderPin { order: &["moonshotai"], allow_fallbacks: false }),
        },
        OpenRouterModel {
            id: "moonshotai/kimi-k2.7-code",
            display: "Kimi K2.7 Code",
            vendor: "Kimi",
            role: "Coding specialist",
            pin: Some(ProviderPin { order: &["moonshotai"], allow_fallbacks: false }),
        },
        OpenRouterModel {
            id: "moonshotai/kimi-k2.7-code-highspeed",
            display: "Kimi K2.7 Code Highspeed",
            vendor: "Kimi",
            role: "Fast coding variant",
            pin: Some(ProviderPin { order: &["moonshotai"], allow_fallbacks: false }),
        },
        OpenRouterModel {
            id: "z-ai/glm-5",
            display: "GLM-5",
            vendor: "GLM",
            role: "Flagship agentic",
            pin: Some(ProviderPin { order: &["z-ai"], allow_fallbacks: false }),
        },
        OpenRouterModel {
            id: "z-ai/glm-5.1",
            display: "GLM-5.1",
            vendor: "GLM",
            role: "Refined flagship",
            pin: Some(ProviderPin { order: &["z-ai"], allow_fallbacks: false }),
        },
        OpenRouterModel {
            id: "z-ai/glm-5.2",
            display: "GLM-5.2",
            vendor: "GLM",
            role: "Latest coding / 1M ctx",
            pin: Some(ProviderPin { order: &["z-ai"], allow_fallbacks: false }),
        },
        OpenRouterModel {
            id: "z-ai/glm-4.5",
            display: "GLM-4.5",
            vendor: "GLM",
            role: "Prior open workhorse",
            pin: Some(ProviderPin { order: &["z-ai"], allow_fallbacks: false }),
        },
        OpenRouterModel {
            id: "openai/gpt-oss-120b",
            display: "GPT-OSS 120B",
            vendor: "Open weight",
            role: "Fast/cheap iteration (Groq)",
            pin: Some(ProviderPin { order: &["groq"], allow_fallbacks: false }),
        },
        OpenRouterModel {
            id: "meta-llama/llama-3.3-70b-instruct",
            display: "Llama 3.3 70B",
            vendor: "Open weight",
            role: "Reliable general + tools",
            pin: Some(ProviderPin { order: &["groq"], allow_fallbacks: false }),
        },
    ];
    assert(r@ =~= openrouter_catalog());
    r
}

/// `m` is listed under `id`, by its persisted id or any alias.
pub open spec fn names_local(m: LocalModel, id: Seq<char>) -> bool {
    m.id@ == id || exists|k: int| 0 <= k < m.aliases@.len() && m.aliases@[k]@ == id
}

/// The first local entry from position `i` on that is listed under `id`.
pub open spec fn local_lookup_from(id: Seq<char>, i: int) -> Option<LocalModel>
    decreases local_catalog().len() - i,
{
    if i < 0 || i >= local_catalog().len() {
        None
    } else if names_local(local_catalog()[i], id) {
        Some(local_catalog()[i])
    } else {
        local_lookup_from(id, i + 1)
    }
}

/// The local entry that a lookup of `id` finds: the first one listed under
/// the trimmed id.
pub open spec fn local_lookup(id: Seq<char>) -> Option<LocalModel> {
    local_lookup_from(trim(id), 0)
}

/// The first OpenRouter entry from position `i` on whose slug is `id`.
pub open spec fn openrouter_lookup_from(id: Seq<char>, i: int) -> Option<OpenRouterModel>
    decreases openrouter_catalog().len() - i,
{
    if i < 0 || i >= openrouter_catalog().len() {
        None
    } else if openrouter_catalog()[i].id@ == id {
        Some(openrouter_catalog()[i])
    } else {
        openrouter_lookup_from(id, i + 1)
    }
}

/// The OpenRouter entry that a lookup of `id` finds (slug compared after
/// trimming).
pub open spec fn openrouter_lookup(id: Seq<char>) -> Option<OpenRouterModel> {
    openrouter_lookup_from(trim(id), 0)
}

fn listed_under(m: LocalModel, id: &Vec<char>) -> (r: bool)
    ensures
        r == names_local(m, id@),
{
    let own = char_vec(m.id);
    if chars_eq(&own, id) {
        return true;
    }
    let mut k: usize = 0;
    while k < m.aliases.len()
        invariant
            k <= m.aliases@.len(),
            m.id@ != id@,
            forall|j: int| 0 <= j < k ==> m.aliases@[j]@ != id@,
        decreases m.aliases@.len() - k,
    {
        let alias = char_vec(m.aliases[k]);
        if chars_eq(&alias, id) {
            return true;
        }
        k += 1;
    }
    false
}

/// Look up a local catalog entry by persisted id or any alias.
pub fn local_model(id: &str) -> (r: Option<LocalModel>)
    ensures
        r == local_lookup(id@),
{
    let chars = char_vec(id);
    let (from, to) = trim_bounds(&chars);
    let wanted = slice_chars(&chars, from, to);
    let table = local_models();
    let mut i: usize = 0;
    while i < table.len()
        invariant
            table@ == local_catalog(),
            wanted@ == trim(id@),
            i <= table.len(),
            local_lookup_from(wanted@, 0) == local_lookup_from(wanted@, i as int),
        decreases table.len() - i,
    {
        let m = table[i];
        if listed_under(m, &wanted) {
            assert(m == local_catalog()[i as int]);
            assert(local_lookup_from(wanted@, i as int) == Some(m));
            return Some(m);
        }
        i += 1;
    }
    None
}

/// True when `id` is in the local allowlist (canonical or alias).
pub fn is_known_local_model(id: &str) -> (r: bool)
    ensures
        r == local_lookup(id@) is Some,
{
    local_model(id).is_some()
}

/// Look up an OpenRouter catalog entry by slug.
pub fn openrouter_model(id: &str) -> (r: Option<OpenRouterModel>)
    ensures
        r == openrouter_lookup(id@),
{
    let chars = char_vec(id);
    let (from, to) = trim_bounds(&chars);
    let wanted = slice_chars(&chars, from, to);
    let table = openrouter_models();
    let mut i: usize = 0;
    while i < table.len()
        invariant
            table@ == openrouter_catalog(),
            wanted@ == trim(id@),
            i <= table.len(),
            openrouter_lookup_from(wanted@, 0) == openrouter_lookup_from(wanted@, i as int),
        decreases table.len() - i,
    {
        let own = char_vec(table[i].id);
        if chars_eq(&own, &wanted) {
            assert(openrouter_lookup_from(wanted@, i as int) == Some(openrouter_catalog()[i as int]));
            return Some(table[i]);
        }
        i += 1;
    }
    None
}

/// True when `id` is in the OpenRouter allowlist.
pub fn is_known_openrouter_model(id: &str) -> (r: bool)
    ensures
        r == openrouter_lookup(id@) is Some,
{
    openrouter_model(id).is_some()
}

/// Whether an id reported by `GET /v1/models` names a catalog alias: the
/// trimmed id equals it, ends in `/alias` or `:alias` (LM Studio returns
/// `vendor/model` and `:tag` forms), or is the alias followed by nothing,
/// `:` or `-`.
pub open spec fn id_matches(installed: Seq<char>, alias: Seq<char>) -> bool {
    let t = trim(installed);
    ||| t == alias
    ||| ends_with(t, seq!['/'] + alias)
    ||| ends_with(t, seq![':'] + alias)
    ||| starts_with(t, alias) && (t.len() == alias.len() || t[alias.len() as int] == ':'
        || t[alias.len() as int] == '-')
}

/// Whether the id reported as `installed` hits `alias`: exactly (the
/// trimmed id is the alias) when `exact`, else by `id_matches`.
pub open spec fn alias_hit(installed: Seq<char>, alias: Seq<char>, exact: bool) -> bool {
    if exact { trim(installed) == alias } else { id_matches(installed, alias) }
}

/// The first position from `j` on in `installed` whose id hits `alias`.
pub open spec fn first_match(installed: Seq<String>, alias: Seq<char>, j: int, exact: bool) -> Option<int>
    decreases installed.len() - j,
{
    if j < 0 || j >= installed.len() {
        None
    } else if alias_hit(installed[j]@, alias, exact) {
        Some(j)
    } else {
        first_match(installed, alias, j + 1, exact)
    }
}

/// Trying `aliases[k..]` in order, the installed id that the first alias
/// with any hit resolves to.
pub open spec fn resolve_from(aliases: Seq<&str>, k: int, installed: Seq<String>, exact: bool) -> Option<Seq<char>>
    decreases aliases.len() - k,
{
    if k < 0 || k >= aliases.len() {
        None
    } else {
        match first_match(installed, aliases[k]@, 0, exact) {
            Some(j) => Some(installed[j]@),
            None => resolve_from(aliases, k + 1, installed, exact),
        }
    }
}

/// The installed id that a curated local entry resolves to: an exact
/// alias hit first (aliases in order), else the first alias matched in a
/// `vendor/`, `:tag` or suffixed form.
pub open spec fn resolve_local(catalog_id: Seq<char>, installed: Seq<String>) -> Option<Seq<char>> {
    match local_lookup(catalog_id) {
        None => None,
        Some(m) => match resolve_from(m.aliases@, 0, installed, true) {
            Some(x) => Some(x),
            None => resolve_from(m.aliases@, 0, installed, false),
        },
    }
}

fn id_matches_exec(installed: &str, alias: &Vec<char>) -> (r: bool)
    ensures
        r == id_matches(installed@, alias@),
{
    let chars = char_vec(installed);
    let (from, to) = trim_bounds(&chars);
    let t = slice_chars(&chars, from, to);
    if chars_eq(&t, alias) {
        return true;
    }
    let mut slash: Vec<char> = vec!['/'];
    let mut colon: Vec<char> = vec![':'];
    let mut k: usize = 0;
    while k < alias.len()
        invariant
            k <= alias.len(),
            slash@ == seq!['/'] + alias@.subrange(0, k as int),
            colon@ == seq![':'] + alias@.subrange(0, k as int),
        decreases alias.len() - k,
    {
        slash.push(alias[k]);
        colon.push(alias[k]);
        assert(alias@.subrange(0, k + 1) == alias@.subrange(0, k as int).push(alias@[k as int]));
        k += 1;
    }
    assert(alias@.subrange(0, alias.len() as int) =~= alias@);
    if chars_end_with(&t, &slash) || chars_end_with(&t, &colon) {
        return true;
    }
    if chars_start_with(&t, alias) {
        if t.len() == alias.len() {
            return true;
        }
        let next = t[alias.len()];
        return next == ':' || next == '-';
    }
    false
}

fn alias_hit_exec(installed: &str, alias: &Vec<char>, exact: bool) -> (r: bool)
    ensures
        r == alias_hit(installed@, alias@, exact),
{
    if exact {
        let chars = char_vec(installed);
        let (from, to) = trim_bounds(&chars);
        let t = slice_chars(&chars, from, to);
        chars_eq(&t, alias)
    } else {
        id_matches_exec(installed, alias)
    }
}

/// One pass over the aliases in order: the installed id of the first hit.
fn resolve_pass(aliases: &[&str], installed: &[String], exact: bool) -> (r: Option<String>)
    ensures
        r is None <==> resolve_from(aliases@, 0, installed@, exact) is None,
        r matches Some(hit) ==> resolve_from(aliases@, 0, installed@, exact) == Some(hit@),
{
    let mut k: usize = 0;
    while k < aliases.len()
        invariant
            k <= aliases@.len(),
            resolve_from(aliases@, 0, installed@, exact) == resolve_from(aliases@, k as int, installed@, exact),
        decreases aliases@.len() - k,
    {
        let alias = char_vec(aliases[k]);
        let mut j: usize = 0;
        while j < installed.len()
            invariant
                k < aliases@.len(),
                j <= installed@.len(),
                resolve_from(aliases@, 0, installed@, exact) == resolve_from(aliases@, k as int, installed@, exact),
                alias@ == aliases@[k as int]@,
                first_match(installed@, alias@, 0, exact) == first_match(installed@, alias@, j as int, exact),
            decreases installed@.len() - j,
        {
            if alias_hit_exec(installed[j].as_str(), &alias, exact) {
                assert(first_match(installed@, alias@, j as int, exact) == Some(j as int));
                return Some(installed[j].clone());
            }
            j += 1;
        }
        k += 1;
    }
    None
}

/// Match a curated local entry against ids returned by `GET /v1/models`.
/// Returns the installed id to send on chat requests, preferring an exact
/// alias hit.
pub fn resolve_local_installed_id(catalog_id: &str, installed: &[String]) -> (r: Option<String>)
    ensures
        r is None <==> resolve_local(catalog_id@, installed@) is None,
        r matches Some(hit) ==> resolve_local(catalog_id@, installed@) == Some(hit@),
{
    let entry = match local_model(catalog_id) {
        Some(entry) => entry,
        None => return None,
    };
    match resolve_pass(entry.aliases, installed, true) {
        Some(hit) => Some(hit),
        None => resolve_pass(entry.aliases, installed, false),
    }
}

/// Which curated local models are present among `installed` ids: each entry
/// in picker order, whether it resolved, and the installed id it resolved to.
pub fn local_models_availability(installed: &[String]) -> (r: Vec<(LocalModel, bool, Option<String>)>)
    ensures
        r.len() == local_catalog().len(),
        forall|i: int| 0 <= i < r.len() ==> {
            let (entry, available, resolved) = #[trigger] r@[i];
            &&& entry == local_catalog()[i]
            &&& available == resolved is Some
            &&& (resolved is None <==> resolve_local(entry.id@, installed@) is None)
            &&& (resolved matches Some(hit) ==> resolve_local(entry.id@, installed@) == Some(hit@))
        },
{
    let table = local_models();
    let mut r: Vec<(LocalModel, bool, Option<String>)> = Vec::new();
    let mut i: usize = 0;
    while i < table.len()
        invariant
            table@ == local_catalog(),
            i <= table.len(),
            r.len() == i,
            forall|m: int| 0 <= m < i ==> {
                let (entry, available, resolved) = #[trigger] r@[m];
                &&& entry == local_catalog()[m]
                &&& available == resolved is Some
                &&& (resolved is None <==> resolve_local(entry.id@, installed@) is None)
                &&& (resolved matches Some(hit) ==> resolve_local(entry.id@, installed@) == Some(hit@))
            },
        decreases table.len() - i,
    {
        let entry = table[i];
        let resolved = resolve_local_installed_id(entry.id, installed);
        let available = resolved.is_some();
        r.push((entry, available, resolved));
        i += 1;
    }
    r
}

proof fn lemma_first_match_in_range(installed: Seq<String>, alias: Seq<char>, j: int, exact: bool)
    ensures
        first_match(installed, alias, j, exact) matches Some(i) ==> 0 <= i < installed.len()
            && alias_hit(installed[i]@, alias, exact),
    decreases installed.len() - j,
{
    if 0 <= j < installed.len() && !alias_hit(installed[j]@, alias, exact) {
        lemma_first_match_in_range(installed, alias, j + 1, exact);
    }
}

proof fn lemma_resolve_from_installed(aliases: Seq<&str>, k: int, installed: Seq<String>, exact: bool)
    ensures
        resolve_from(aliases, k, installed, exact) matches Some(x) ==> exists|i: int|
            0 <= i < installed.len() && (#[trigger] installed[i])@ == x,
    decreases aliases.len() - k,
{
    if 0 <= k < aliases.len() {
        lemma_first_match_in_range(installed, aliases[k]@, 0, exact);
        match first_match(installed, aliases[k]@, 0, exact) {
            Some(j) => {
                assert(installed[j]@ == installed[j]@);
            },
            None => {
                lemma_resolve_from_installed(aliases, k + 1, installed, exact);
            },
        }
    }
}

/// Resolution law: a curated local model only ever resolves to one of the
/// ids the server reported installed, never to a name of its own.
pub proof fn resolved_local_id_is_installed(catalog_id: Seq<char>, installed: Seq<String>)
    ensures
        resolve_local(catalog_id, installed) matches Some(x) ==> exists|i: int|
            0 <= i < installed.len() && (#[trigger] installed[i])@ == x,
{
    if let Some(m) = local_lookup(catalog_id) {
        lemma_resolve_from_installed(m.aliases@, 0, installed, true);
        lemma_resolve_from_installed(m.aliases@, 0, installed, false);
    }
}

} // verus!
