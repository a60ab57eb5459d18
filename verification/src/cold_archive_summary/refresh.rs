//! A summary asked for by hand, for one memory.

use crate::cold_archive_summary::contract::{violation, violation_text};
use crate::cold_archive_summary::generator::{
    ARCHIVAL_SUMMARY_VERSION, ColdArchiveConfig, ColdArchiveSummaryGenerator,
    ColdArchiveSummaryOutcome, Preparation, max_content_chars, too_large_message,
};
use crate::cold_archive_summary::prompt::{COLD_ARCHIVE_SYSTEM_PROMPT, request_text};
use crate::text::{decimal, push_decimal, trimmed};
use crate::types::{Memory, MemoryTier, opt_text};
use vstd::prelude::*;
use vstd::string::*;

verus! {

/// What came of a refresh.
#[derive(Clone, Debug)]
pub struct ManualRefreshOutcome {
    pub generated: bool,
    pub version: u32,
    pub summary_chars: usize,
    /// Why nothing was generated.
    pub skipped_reason: Option<String>,
}

/// A refresh that generated nothing, for this reason.
pub open spec fn is_skipped(o: ManualRefreshOutcome, reason: Seq<char>) -> bool {
    &&& !o.generated
    &&& o.version == ARCHIVAL_SUMMARY_VERSION
    &&& o.summary_chars == 0
    &&& opt_text(o.skipped_reason) == Some(reason)
}

fn skipped(reason: String) -> (o: ManualRefreshOutcome)
    ensures
        is_skipped(o, reason@),
{
    ManualRefreshOutcome {
        generated: false,
        version: ARCHIVAL_SUMMARY_VERSION,
        summary_chars: 0,
        skipped_reason: Some(reason),
    }
}

/// What a refresh does next.
#[derive(Debug)]
pub enum RefreshStep {
    /// Nothing more.
    Done(ManualRefreshOutcome),
    /// It fails: the memory is too large, or its summary was refused.
    Fail(String),
    /// Ask the model.
    Ask { system: String, user: String },
    /// Store the summary, if the memory is still cold and live.
    Store(ColdArchiveSummaryOutcome),
}

/// The name of a tier.
pub open spec fn tier_name(t: MemoryTier) -> Seq<char> {
    match t {
        MemoryTier::Hot => "Hot"@,
        MemoryTier::Warm => "Warm"@,
        MemoryTier::Cold => "Cold"@,
    }
}

/// Why a memory of this tier is skipped.
pub open spec fn tier_reason(t: MemoryTier) -> Seq<char> {
    "memory tier is "@ + tier_name(t) + ", not Cold"@
}

/// Why a memory with a current summary is skipped.
pub open spec fn current_reason() -> Seq<char> {
    "summary already at version "@ + decimal(ARCHIVAL_SUMMARY_VERSION as nat)
        + " (use force=true to regenerate)"@
}

/// Why a short memory is skipped.
pub open spec fn short_reason(target: usize) -> Seq<char> {
    "content already at or below target ("@ + decimal(target as nat) + " chars)"@
}

/// Whether the feature is switched off; nothing is read from the store then.
pub fn refresh_disabled(cold_config: &ColdArchiveConfig) -> (r: Option<ManualRefreshOutcome>)
    ensures
        r is Some <==> !cold_config.enabled,
        r matches Some(o) ==> is_skipped(o, "cold_archive_enabled = false"@),
{
    if cold_config.enabled {
        None
    } else {
        Some(skipped("cold_archive_enabled = false".to_owned()))
    }
}

/// Whether a summary of this version is current.
pub open spec fn is_current(version: Option<i64>) -> bool {
    version == Some(ARCHIVAL_SUMMARY_VERSION as i64)
}

/// What a refresh does with the memory as it was read. Skipped are, in this
/// order: a switched-off feature, a memory that is not cold, one whose summary
/// is current unless `force` is set, one for which there is no model to ask,
/// and one that is short enough. One that is too large fails.
pub open spec fn is_first_step(
    r: RefreshStep,
    cold_config: ColdArchiveConfig,
    memory: Memory,
    version: Option<i64>,
    force: bool,
    limit: Option<int>,
) -> bool {
    let target = cold_config.target_chars;
    if !cold_config.enabled {
        r matches RefreshStep::Done(o) && is_skipped(o, "cold_archive_enabled = false"@)
    } else if !(memory.tier is Cold) {
        r matches RefreshStep::Done(o) && is_skipped(o, tier_reason(memory.tier))
    } else if !force && is_current(version) {
        r matches RefreshStep::Done(o) && is_skipped(o, current_reason())
    } else if limit is None {
        r matches RefreshStep::Done(o) && is_skipped(o, "no LLM provider available"@)
    } else if memory.content@.len() <= target {
        r matches RefreshStep::Done(o) && is_skipped(o, short_reason(target))
    } else if memory.content@.len() > max_content_chars(
        limit->0,
        memory.topic@,
        memory.content@,
    ) {
        r matches RefreshStep::Fail(m) && m@ == too_large_message(
            memory.id@,
            memory.content@.len() as int,
            limit->0,
        )
    } else {
        r matches RefreshStep::Ask { system, user } && system@ == COLD_ARCHIVE_SYSTEM_PROMPT@
            && user@ == request_text(memory.topic@, memory.content@, target)
    }
}

fn short_skip(target: usize) -> (o: ManualRefreshOutcome)
    ensures
        is_skipped(o, short_reason(target)),
{
    let mut s: String = "content already at or below target (".to_owned();
    push_decimal(&mut s, target as u64);
    s.append(" chars)");
    skipped(s)
}

/// What a refresh does with the memory as it was read. `max_input_chars` is
/// `None` where there is no model to ask.
pub fn refresh_one_for_handler(
    cold_config: &ColdArchiveConfig,
    memory: &Memory,
    existing_version: Option<i64>,
    force: bool,
    max_input_chars: Option<usize>,
) -> (r: RefreshStep)
    ensures
        is_first_step(
            r,
            *cold_config,
            *memory,
            existing_version,
            force,
            match max_input_chars {
                Some(n) => Some(n as int),
                None => None,
            },
        ),
{
    if !cold_config.enabled {
        return RefreshStep::Done(skipped("cold_archive_enabled = false".to_owned()));
    }
    let tier: Option<&str> = match memory.tier {
        MemoryTier::Hot => Some("Hot"),
        MemoryTier::Warm => Some("Warm"),
        MemoryTier::Cold => None,
    };
    if let Some(name) = tier {
        let mut s: String = "memory tier is ".to_owned();
        s.append(name);
        s.append(", not Cold");
        return RefreshStep::Done(skipped(s));
    }
    let current: bool = match existing_version {
        Some(v) => v == ARCHIVAL_SUMMARY_VERSION as i64,
        None => false,
    };
    if !force && current {
        let mut s: String = "summary already at version ".to_owned();
        push_decimal(&mut s, ARCHIVAL_SUMMARY_VERSION as u64);
        s.append(" (use force=true to regenerate)");
        return RefreshStep::Done(skipped(s));
    }
    match max_input_chars {
        None => RefreshStep::Done(skipped("no LLM provider available".to_owned())),
        Some(limit) => {
            let generator: ColdArchiveSummaryGenerator = ColdArchiveSummaryGenerator::new(
                *cold_config,
            ).with_rein_config(limit);
            match generator.prepare(
                memory.id.as_str(),
                memory.topic.as_str(),
                memory.content.as_str(),
            ) {
                Preparation::AlreadyShort => RefreshStep::Done(
                    short_skip(cold_config.target_chars),
                ),
                Preparation::TooLarge(m) => RefreshStep::Fail(m),
                Preparation::Ask { system, user } => RefreshStep::Ask { system, user },
            }
        },
    }
}

/// What a refresh does with the memory as it was read, with a model at hand.
pub fn refresh_one_for_handler_with_extractor(
    cold_config: &ColdArchiveConfig,
    memory: &Memory,
    existing_version: Option<i64>,
    force: bool,
    max_input_chars: usize,
) -> (r: RefreshStep)
    ensures
        is_first_step(
            r,
            *cold_config,
            *memory,
            existing_version,
            force,
            Some(max_input_chars as int),
        ),
{
    refresh_one_for_handler(cold_config, memory, existing_version, force, Some(max_input_chars))
}

/// Whether `r` is what a refresh does with the model's answer.
pub open spec fn is_last_step(
    r: RefreshStep,
    memory: Memory,
    answer: Seq<char>,
    target: usize,
    now: i64,
) -> bool {
    let broken = violation(memory.content@, trimmed(answer), target);
    if trimmed(answer).len() == 0 {
        r matches RefreshStep::Done(o) && is_skipped(o, short_reason(target))
    } else if broken is Some {
        r matches RefreshStep::Fail(m) && m@ == violation_text(broken->0)
    } else {
        r matches RefreshStep::Store(o) && o.memory_id@ == memory.id@ && o.summary@
            == trimmed(answer) && o.version == ARCHIVAL_SUMMARY_VERSION && o.generated_at
            == now
    }
}

/// What a refresh does with the answer: a blank one counts as nothing to
/// summarize, one that breaks the contract fails, and any other is stored.
pub fn finish_refresh(cold_config: &ColdArchiveConfig, memory: &Memory, answer: &str, now: i64) -> (
r: RefreshStep)
    ensures
        is_last_step(r, *memory, answer@, cold_config.target_chars, now),
{
    let generator: ColdArchiveSummaryGenerator = ColdArchiveSummaryGenerator::new(*cold_config);
    match generator.finish(memory.id.as_str(), memory.content.as_str(), answer, now) {
        Ok(None) => RefreshStep::Done(short_skip(cold_config.target_chars)),
        Ok(Some(o)) => RefreshStep::Store(o),
        Err(v) => RefreshStep::Fail(v.message()),
    }
}

/// Whether `r` tells what came of a refresh whose summary was to be stored.
pub open spec fn is_stored_report(r: ManualRefreshOutcome, summary: Seq<char>, stored: bool) -> bool {
    if stored {
        r.generated && r.version == ARCHIVAL_SUMMARY_VERSION && r.summary_chars == summary.len()
            && r.skipped_reason is None
    } else {
        is_skipped(r, "row no longer eligible (tier or status changed during LLM call)"@)
    }
}

/// What came of a refresh whose summary was to be stored.
pub fn refresh_stored(outcome: &ColdArchiveSummaryOutcome, stored: bool) -> (r: ManualRefreshOutcome)
    ensures
        is_stored_report(r, outcome.summary@, stored),
{
    if stored {
        ManualRefreshOutcome {
            generated: true,
            version: ARCHIVAL_SUMMARY_VERSION,
            summary_chars: outcome.summary.as_str().unicode_len(),
            skipped_reason: None,
        }
    } else {
        skipped("row no longer eligible (tier or status changed during LLM call)".to_owned())
    }
}

} // verus!
