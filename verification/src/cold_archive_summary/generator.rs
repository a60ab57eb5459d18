//! Making one summary: what is asked, and what is made of the answer.

use crate::cold_archive_summary::contract::{
    ContractViolation, is_plausible, validate_cold_archive_contract, violation,
};
use crate::cold_archive_summary::prompt::{
    COLD_ARCHIVE_SYSTEM_PROMPT, build_cold_archive_prompt, request_text,
};
use crate::text::{chars_of, count_char, decimal, occurrences, push_decimal, trim, trimmed};
use vstd::prelude::*;
use vstd::string::*;

verus! {

/// Version of prompt and contract; summaries of another version are outdated.
pub const ARCHIVAL_SUMMARY_VERSION: u32 = 100;

/// Characters a summary aims at.
pub const ARCHIVAL_SUMMARY_TARGET_CHARS: usize = 600;

/// Refused summaries after which a memory is given up.
pub const ARCHIVAL_SUMMARY_MAX_STRIKES: u32 = 3;

/// Age in seconds beyond which a claim counts as left behind by a crash.
pub const ARCHIVAL_SUMMARY_CLAIM_TIMEOUT_SECS: i64 = 300;

/// Seconds one pass may take.
pub const ARCHIVAL_SUMMARY_BATCH_BUDGET_SECS: u64 = 180;

/// Flag of a memory whose summaries were refused too often.
pub const NEEDS_ARCHIVAL_SUMMARY_EXHAUSTED: i64 = 2;

/// The settings of the feature as the configuration file has them.
#[derive(Clone, Copy, Debug, PartialEq, Eq, Structural)]
pub struct ArsConfig {
    pub cold_archive_enabled: bool,
    pub cold_archive_target_chars: usize,
    pub cold_archive_batch_size: usize,
}

/// The settings of a run.
#[derive(Clone, Copy, Debug, PartialEq, Eq, Structural)]
pub struct ColdArchiveConfig {
    pub enabled: bool,
    pub target_chars: usize,
    pub batch_size: usize,
    pub max_strikes: u32,
}

/// The settings where nothing is configured: the feature is off.
pub open spec fn standard_settings() -> ColdArchiveConfig {
    ColdArchiveConfig {
        enabled: false,
        target_chars: ARCHIVAL_SUMMARY_TARGET_CHARS,
        batch_size: 16,
        max_strikes: ARCHIVAL_SUMMARY_MAX_STRIKES,
    }
}

/// The settings of a run under this configuration.
pub open spec fn settings_of(ars: ArsConfig) -> ColdArchiveConfig {
    ColdArchiveConfig {
        enabled: ars.cold_archive_enabled,
        target_chars: ars.cold_archive_target_chars,
        batch_size: ars.cold_archive_batch_size,
        max_strikes: ARCHIVAL_SUMMARY_MAX_STRIKES,
    }
}

impl Default for ColdArchiveConfig {
    fn default() -> (r: ColdArchiveConfig)
        ensures
            r == standard_settings(),
    {
        ColdArchiveConfig {
            enabled: false,
            target_chars: ARCHIVAL_SUMMARY_TARGET_CHARS,
            batch_size: 16,
            max_strikes: ARCHIVAL_SUMMARY_MAX_STRIKES,
        }
    }
}

impl ColdArchiveConfig {
    /// The settings of a run, from the configuration file.
    pub fn from_ars(ars: &ArsConfig) -> (r: ColdArchiveConfig)
        ensures
            r == settings_of(*ars),
    {
        ColdArchiveConfig {
            enabled: ars.cold_archive_enabled,
            target_chars: ars.cold_archive_target_chars,
            batch_size: ars.cold_archive_batch_size,
            max_strikes: ARCHIVAL_SUMMARY_MAX_STRIKES,
        }
    }
}

/// A summary that met the contract.
#[derive(Clone, Debug)]
pub struct ColdArchiveSummaryOutcome {
    pub memory_id: String,
    pub summary: String,
    pub version: u32,
    /// In seconds since the epoch.
    pub generated_at: i64,
}

/// Makes summaries under given settings.
#[derive(Clone, Debug)]
pub struct ColdArchiveSummaryGenerator {
    config: ColdArchiveConfig,
    max_input_chars: Option<usize>,
}

/// What is done for a memory before anything is asked.
#[derive(Debug)]
pub enum Preparation {
    /// The content is no longer than a summary would be.
    AlreadyShort,
    /// The content does not fit into a request as a whole. A summary of its
    /// beginning would pass for one of the whole, so none is made.
    TooLarge(String),
    /// Ask with these instructions and this request.
    Ask { system: String, user: String },
}

/// Most characters of content that fit into a request: what is left of the
/// limit for the frame, the topic and the growth by escaping, but not less than
/// 128.
pub open spec fn max_content_chars(max_chars: int, topic: Seq<char>, content: Seq<char>) -> int {
    let left = max_chars - 512 - topic.len() - occurrences(content, '<') * 3;
    if left < 128 {
        128
    } else {
        left
    }
}

/// The words for a content that does not fit.
pub open spec fn too_large_message(id: Seq<char>, chars: int, max_chars: int) -> Seq<char> {
    "Cap C too large: memory "@ + id + " has "@ + decimal(chars as nat) + " chars > resolved cap "@
        + decimal(max_chars as nat)
}

/// Whether `r` is what is done with a content under a target length and a limit on
/// the request: nothing, or a refusal, or a request.
pub open spec fn is_preparation(
    r: Preparation,
    id: Seq<char>,
    topic: Seq<char>,
    content: Seq<char>,
    target: usize,
    limit: int,
) -> bool {
    match r {
        Preparation::AlreadyShort => content.len() <= target,
        Preparation::TooLarge(message) => {
            &&& content.len() > target
            &&& content.len() > max_content_chars(limit, topic, content)
            &&& message@ == too_large_message(id, content.len() as int, limit)
        },
        Preparation::Ask { system, user } => {
            &&& content.len() > target
            &&& content.len() <= max_content_chars(limit, topic, content)
            &&& system@ == COLD_ARCHIVE_SYSTEM_PROMPT@
            &&& user@ == request_text(topic, content, target)
        },
    }
}

/// Whether `r` is what comes of an answer: nothing of a blank one, the violation of
/// one that breaks the contract, and the summary otherwise.
pub open spec fn is_finish(
    r: Result<Option<ColdArchiveSummaryOutcome>, ContractViolation>,
    id: Seq<char>,
    content: Seq<char>,
    answer: Seq<char>,
    target: usize,
    now: i64,
) -> bool {
    match r {
        Ok(None) => trimmed(answer).len() == 0,
        Ok(Some(o)) => {
            &&& trimmed(answer).len() > 0
            &&& violation(content, trimmed(answer), target) is None
            &&& o.memory_id@ == id
            &&& o.summary@ == trimmed(answer)
            &&& o.version == ARCHIVAL_SUMMARY_VERSION
            &&& o.generated_at == now
        },
        Err(v) => {
            &&& trimmed(answer).len() > 0
            &&& violation(content, trimmed(answer), target) == Some(v)
            &&& is_plausible(v)
        },
    }
}

impl ColdArchiveSummaryGenerator {
    /// The settings.
    pub closed spec fn settings(&self) -> ColdArchiveConfig {
        self.config
    }

    /// Most characters a request may have.
    pub closed spec fn input_limit(&self) -> int {
        match self.max_input_chars {
            Some(n) => n as int,
            None => usize::MAX as int,
        }
    }

    /// A generator whose requests may have any length.
    pub fn new(config: ColdArchiveConfig) -> (r: ColdArchiveSummaryGenerator)
        ensures
            r.settings() == config,
            r.input_limit() == usize::MAX,
    {
        ColdArchiveSummaryGenerator { config, max_input_chars: None }
    }

    /// The same generator with requests of at most this many characters.
    pub fn with_rein_config(self, max_input_chars: usize) -> (r: ColdArchiveSummaryGenerator)
        ensures
            r.settings() == self.settings(),
            r.input_limit() == max_input_chars,
    {
        ColdArchiveSummaryGenerator { config: self.config, max_input_chars: Some(max_input_chars) }
    }

    /// The settings.
    pub fn config(&self) -> (r: &ColdArchiveConfig)
        ensures
            *r == self.settings(),
    {
        &self.config
    }

    /// What is to be asked for a memory, if anything. The whole content is
    /// asked about or none of it.
    pub fn prepare(&self, id: &str, topic: &str, content: &str) -> (r: Preparation)
        ensures
            is_preparation(
                r,
                id@,
                topic@,
                content@,
                self.settings().target_chars,
                self.input_limit(),
            ),
    {
        let chars: usize = content.unicode_len();
        if chars <= self.config.target_chars {
            return Preparation::AlreadyShort;
        }
        let max_chars: usize = match self.max_input_chars {
            Some(n) => n,
            None => usize::MAX,
        };
        let brackets: usize = count_char(&chars_of(content), '<');
        let growth: usize = if brackets <= usize::MAX / 3 {
            brackets * 3
        } else {
            usize::MAX
        };
        let left: usize = max_chars.saturating_sub(512).saturating_sub(
            topic.unicode_len(),
        ).saturating_sub(growth);
        let fitting: usize = if left < 128 {
            128
        } else {
            left
        };
        assert(fitting == max_content_chars(max_chars as int, topic@, content@));
        if chars > fitting {
            let mut s: String = "Cap C too large: memory ".to_owned();
            s.append(id);
            s.append(" has ");
            push_decimal(&mut s, chars as u64);
            s.append(" chars > resolved cap ");
            push_decimal(&mut s, max_chars as u64);
            return Preparation::TooLarge(s);
        }
        let (system, user) = build_cold_archive_prompt(topic, content, self.config.target_chars);
        Preparation::Ask { system, user }
    }

    /// What is made of the answer, without the code fences it may have come in:
    /// nothing where it is blank, else a summary that meets the contract or the
    /// reason why it does not.
    pub fn finish(&self, id: &str, content: &str, answer: &str, now: i64) -> (r: Result<
        Option<ColdArchiveSummaryOutcome>,
        ContractViolation,
    >)
        ensures
            is_finish(r, id@, content@, answer@, self.settings().target_chars, now),
    {
        let summary: String = trim(answer);
        if summary.as_str().is_empty() {
            return Ok(None);
        }
        match validate_cold_archive_contract(content, summary.as_str(), self.config.target_chars) {
            Ok(_) => Ok(
                Some(
                    ColdArchiveSummaryOutcome {
                        memory_id: id.to_owned(),
                        summary,
                        version: ARCHIVAL_SUMMARY_VERSION,
                        generated_at: now,
                    },
                ),
            ),
            Err(v) => Err(v),
        }
    }
}

} // verus!
