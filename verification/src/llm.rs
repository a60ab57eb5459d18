//! Which model is asked.

use crate::text::{prefix, take_chars};
use crate::types::opt_text;
use vstd::prelude::*;
use vstd::string::*;

verus! {

/// Who serves a model.
#[derive(Clone, Copy, Debug, PartialEq, Eq, Structural)]
pub enum Provider {
    Disabled,
    Google,
    Omlx,
}

/// The settings of a model, as resolved for one section of the configuration.
#[derive(Clone, Debug)]
pub struct ResolvedLlm {
    pub provider: Provider,
    pub endpoint: String,
    pub model: String,
}

/// A model that can be asked.
#[derive(Clone, Debug)]
pub enum ExtractorKind {
    Gemini { api_key: String, endpoint: String, model: String },
    Omlx { endpoint: String, model: String, disable_thinking: bool },
}

/// Whether `e` is the model to ask: none without settings or provider, and
/// none of Google's without a key. The key named by the settings wins over the
/// configured one.
pub open spec fn is_extractor_for(
    e: Option<ExtractorKind>,
    resolved: Option<ResolvedLlm>,
    named_key: Option<Seq<char>>,
    configured_key: Option<Seq<char>>,
    disable_thinking: bool,
) -> bool {
    match resolved {
        None => e is None,
        Some(r) => match r.provider {
            Provider::Disabled => e is None,
            Provider::Google => {
                let key = if named_key is Some {
                    named_key
                } else {
                    configured_key
                };
                match key {
                    None => e is None,
                    Some(k) => e matches Some(ExtractorKind::Gemini { api_key, endpoint, model })
                        && api_key@ == k && endpoint@ == r.endpoint@ && model@ == r.model@,
                }
            },
            Provider::Omlx => e matches Some(
                ExtractorKind::Omlx { endpoint, model, disable_thinking: d },
            ) && endpoint@ == r.endpoint@ && model@ == r.model@ && d == disable_thinking,
        },
    }
}

/// The model to ask under these settings, if any. `named_key` is the value of
/// the environment variable that the settings name.
pub fn create_ars_extractor(
    resolved: Option<ResolvedLlm>,
    named_key: Option<String>,
    configured_key: Option<String>,
    disable_thinking: bool,
) -> (e: Option<ExtractorKind>)
    ensures
        is_extractor_for(
            e,
            resolved,
            opt_text(named_key),
            opt_text(configured_key),
            disable_thinking,
        ),
{
    match resolved {
        None => None,
        Some(r) => match r.provider {
            Provider::Disabled => None,
            Provider::Google => {
                let key: Option<String> = match named_key {
                    Some(k) => Some(k),
                    None => configured_key,
                };
                match key {
                    None => None,
                    Some(api_key) => Some(
                        ExtractorKind::Gemini { api_key, endpoint: r.endpoint, model: r.model },
                    ),
                }
            },
            Provider::Omlx => Some(
                ExtractorKind::Omlx { endpoint: r.endpoint, model: r.model, disable_thinking },
            ),
        },
    }
}

/// The model that concept summaries are asked of, from the settings resolved
/// for `ars.concept_summary`.
pub fn create_concept_summary_extractor(
    resolved: Option<ResolvedLlm>,
    named_key: Option<String>,
    configured_key: Option<String>,
    disable_thinking: bool,
) -> (e: Option<ExtractorKind>)
    ensures
        is_extractor_for(
            e,
            resolved,
            opt_text(named_key),
            opt_text(configured_key),
            disable_thinking,
        ),
{
    create_ars_extractor(resolved, named_key, configured_key, disable_thinking)
}

/// The model that archival summaries are asked of, from the settings resolved
/// for `ars.cold_archive`.
pub fn create_cold_archive_extractor(
    resolved: Option<ResolvedLlm>,
    named_key: Option<String>,
    configured_key: Option<String>,
    disable_thinking: bool,
) -> (e: Option<ExtractorKind>)
    ensures
        is_extractor_for(
            e,
            resolved,
            opt_text(named_key),
            opt_text(configured_key),
            disable_thinking,
        ),
{
    create_ars_extractor(resolved, named_key, configured_key, disable_thinking)
}

/// The name under which a model's verdicts are recorded.
pub open spec fn model_name(e: ExtractorKind) -> Seq<char> {
    match e {
        ExtractorKind::Gemini { model, .. } => "gemini:"@ + model@,
        ExtractorKind::Omlx { model, .. } => "omlx:"@ + model@,
    }
}

impl ExtractorKind {
    /// The name under which the model's verdicts are recorded.
    pub fn model_id(&self) -> (r: String)
        ensures
            r@ == model_name(*self),
    {
        match self {
            ExtractorKind::Gemini { api_key: _, endpoint: _, model } => {
                let mut s: String = "gemini:".to_owned();
                s.append(model.as_str());
                s
            },
            ExtractorKind::Omlx { endpoint: _, model, disable_thinking: _ } => {
                let mut s: String = "omlx:".to_owned();
                s.append(model.as_str());
                s
            },
        }
    }
}

/// The error for a judge's answer that cannot be read, with its beginning.
pub fn unreadable_verdict(answer: &str) -> (r: String)
    ensures
        r@ == "cron judge output unparseable (expected `HIT: yes|no\\nWHY: ...`): "@ + prefix(
            answer@,
            120,
        ),
{
    let mut s: String =
        "cron judge output unparseable (expected `HIT: yes|no\\nWHY: ...`): ".to_owned();
    s.append(take_chars(answer, 120).as_str());
    s
}

} // verus!
