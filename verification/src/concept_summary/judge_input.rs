//! What the judge is shown of a living summary.

use crate::judge_calibration::archive::{CronArchiveEntry, CronArchiveSurface, JudgeMetadata};
use crate::text::{prefix, take_chars, texts};
use crate::types::opt_text;
use vstd::prelude::*;
use vstd::string::*;

verus! {

/// Most characters of the candidate that the judge is shown.
pub const CANDIDATE_RESERVE_MAX: usize = 4_096;

/// Characters of the prompt that the judge is shown in any case.
pub const PROMPT_FLOOR: usize = 1_024;

/// What stands between prompt and candidate.
pub const CANDIDATE_JOINER: &'static str = "\n\nCandidate:\n";

/// Most characters of the candidate: a quarter of the limit, but no more than
/// the reserve.
pub open spec fn candidate_limit(max_chars: usize) -> int {
    if max_chars / 4 < CANDIDATE_RESERVE_MAX {
        (max_chars / 4) as int
    } else {
        CANDIDATE_RESERVE_MAX as int
    }
}

/// Characters left for the prompt, but no fewer than the floor.
pub open spec fn prompt_limit(max_chars: usize, candidate_chars: int) -> int {
    let left = max_chars - candidate_chars - CANDIDATE_JOINER@.len();
    if left < PROMPT_FLOOR {
        PROMPT_FLOOR as int
    } else {
        left
    }
}

/// The candidate as the judge is shown it.
pub open spec fn shown_candidate(candidate: Seq<char>, max_chars: usize) -> Seq<char> {
    prefix(candidate, candidate_limit(max_chars))
}

/// The prompt as the judge is shown it.
pub open spec fn shown_prompt(prompt: Seq<char>, candidate: Seq<char>, max_chars: usize) -> Seq<char> {
    prefix(prompt, prompt_limit(max_chars, shown_candidate(candidate, max_chars).len() as int))
}

/// Cuts prompt and candidate to what the judge is shown.
pub fn cap_judge_input(prompt: &str, candidate: &str, max_chars: usize) -> (r: (String, String))
    ensures
        r.0@ == shown_prompt(prompt@, candidate@, max_chars),
        r.1@ == shown_candidate(candidate@, max_chars),
{
    let quarter: usize = max_chars / 4;
    let limit: usize = if quarter < CANDIDATE_RESERVE_MAX {
        quarter
    } else {
        CANDIDATE_RESERVE_MAX
    };
    let shown: String = take_chars(candidate, limit);
    let left: usize = max_chars.saturating_sub(shown.as_str().unicode_len()).saturating_sub(
        CANDIDATE_JOINER.unicode_len(),
    );
    let budget: usize = if left < PROMPT_FLOOR {
        PROMPT_FLOOR
    } else {
        left
    };
    assert(budget == prompt_limit(max_chars, shown@.len() as int));
    (take_chars(prompt, budget), shown)
}

/// What the judge is shown fits into the limit, unless the floor of the prompt
/// does not leave room for that.
pub proof fn law_judge_input_fits(prompt: Seq<char>, candidate: Seq<char>, max_chars: usize)
    requires
        max_chars - shown_candidate(candidate, max_chars).len() - CANDIDATE_JOINER@.len()
            >= PROMPT_FLOOR,
    ensures
        shown_prompt(prompt, candidate, max_chars).len() + CANDIDATE_JOINER@.len()
            + shown_candidate(candidate, max_chars).len() <= max_chars,
{
}

/// A job for the judge.
#[derive(Clone, Debug)]
pub struct JudgeJob {
    pub kind: &'static str,
    pub surface_id: String,
    pub concept_id: Option<String>,
    pub query: String,
    pub prompt: String,
    pub candidate: String,
    pub stamp_hash: String,
    pub source: &'static str,
    pub query_type: Option<String>,
    pub cluster_id: Option<i64>,
    pub source_count: Option<u32>,
    pub judge_model_override: Option<String>,
}

/// What is written down when a living summary was made and may be judged.
#[derive(Clone, Debug)]
pub struct JudgeRecord {
    pub summary_id: String,
    pub concept_id: String,
    pub prompt: String,
    pub candidate: String,
    pub stamp_hash: String,
}

/// The job that puts a living summary before the judge of its own accord.
pub open spec fn is_sampled_job(j: JudgeJob, r: JudgeRecord) -> bool {
    &&& j.kind@ == "concept_summary"@
    &&& j.surface_id@ == r.summary_id@
    &&& opt_text(j.concept_id) == Some(r.concept_id@)
    &&& j.query@.len() == 0
    &&& j.prompt@ == r.prompt@
    &&& j.candidate@ == r.candidate@
    &&& j.stamp_hash@ == r.stamp_hash@
    &&& j.source@ == "AutoSampled"@
    &&& j.query_type is None
    &&& j.cluster_id is None
    &&& j.source_count == Some(0u32)
    &&& j.judge_model_override is None
}

/// The entry under which a living summary is kept for the nightly judge.
pub open spec fn is_archived(e: CronArchiveEntry, r: JudgeRecord, now: i64) -> bool {
    &&& e.surface is ConceptSummary
    &&& e.id@ == r.summary_id@
    &&& e.concept_id@ == r.concept_id@
    &&& e.stamp_hash@ == r.stamp_hash@
    &&& e.query@.len() == 0
    &&& texts(e.sources@) == seq![r.prompt@]
    &&& e.candidate@ == r.candidate@
    &&& e.metadata matches Some(m) && m.query_type is None && m.cluster_id is None
        && m.source_count == Some(0u32) && m.judge_latency_ms is None
    &&& e.minted_at == now
}

impl JudgeRecord {
    /// The job that puts the summary before the judge of its own accord.
    pub fn sampled_job(&self) -> (j: JudgeJob)
        ensures
            is_sampled_job(j, *self),
    {
        JudgeJob {
            kind: "concept_summary",
            surface_id: self.summary_id.clone(),
            concept_id: Some(self.concept_id.clone()),
            query: String::new(),
            prompt: self.prompt.clone(),
            candidate: self.candidate.clone(),
            stamp_hash: self.stamp_hash.clone(),
            source: "AutoSampled",
            query_type: None,
            cluster_id: None,
            source_count: Some(0),
            judge_model_override: None,
        }
    }

    /// The entry under which the summary is kept for the nightly judge.
    pub fn archive_entry(&self, now: i64) -> (e: CronArchiveEntry)
        ensures
            is_archived(e, *self, now),
    {
        let mut sources: Vec<String> = Vec::new();
        sources.push(self.prompt.clone());
        assert(texts(sources@) =~= seq![self.prompt@]);
        CronArchiveEntry {
            surface: CronArchiveSurface::ConceptSummary,
            id: self.summary_id.clone(),
            concept_id: self.concept_id.clone(),
            stamp_hash: self.stamp_hash.clone(),
            query: String::new(),
            sources,
            candidate: self.candidate.clone(),
            metadata: Some(
                JudgeMetadata {
                    query_type: None,
                    cluster_id: None,
                    source_count: Some(0),
                    judge_latency_ms: None,
                },
            ),
            minted_at: now,
        }
    }
}

/// Where a living summary goes once it is made.
#[derive(Debug)]
pub struct JudgePlan {
    /// Kept for a while, so that it can be judged on request.
    pub cached: JudgeRecord,
    /// Put before the judge now.
    pub job: Option<JudgeJob>,
    /// Kept for the nightly judge.
    pub archived: Option<CronArchiveEntry>,
}

/// Whether `r` is what is cached, queued and archived of a fresh summary.
pub open spec fn is_judge_plan(
    r: JudgePlan,
    summary_id: Seq<char>,
    concept_id: Seq<char>,
    prompt: Seq<char>,
    candidate: Seq<char>,
    max_chars: usize,
    stamp_hash: Seq<char>,
    sampled: bool,
    nightly: bool,
    now: i64,
) -> bool {
    &&& r.cached.summary_id@ == summary_id
    &&& r.cached.concept_id@ == concept_id
    &&& r.cached.prompt@ == shown_prompt(prompt, candidate, max_chars)
    &&& r.cached.candidate@ == shown_candidate(candidate, max_chars)
    &&& r.cached.stamp_hash@ == stamp_hash
    &&& match r.job {
        Some(j) => sampled && is_sampled_job(j, r.cached),
        None => !sampled,
    }
    &&& match r.archived {
        Some(e) => nightly && is_archived(e, r.cached, now),
        None => !nightly,
    }
}

/// Plans what becomes of a living summary. It is always cached; whether it is
/// put before the judge now, and kept for the nightly judge, is drawn by lot
/// outside. Prompt and candidate are cut to what the judge is shown; `stamp_hash`
/// is the digest of the two as [`cap_judge_input`] cuts them.
pub fn enqueue_judge_for_concept_summary(
    summary_id: &str,
    concept_id: &str,
    prompt: &str,
    candidate: &str,
    max_chars: usize,
    stamp_hash: String,
    sampled: bool,
    nightly: bool,
    now: i64,
) -> (r: JudgePlan)
    ensures
        is_judge_plan(
            r,
            summary_id@,
            concept_id@,
            prompt@,
            candidate@,
            max_chars,
            stamp_hash@,
            sampled,
            nightly,
            now,
        ),
{
    let shown: (String, String) = cap_judge_input(prompt, candidate, max_chars);
    let record: JudgeRecord = JudgeRecord {
        summary_id: summary_id.to_owned(),
        concept_id: concept_id.to_owned(),
        prompt: shown.0,
        candidate: shown.1,
        stamp_hash,
    };
    let job: Option<JudgeJob> = if sampled {
        Some(record.sampled_job())
    } else {
        None
    };
    let archived: Option<CronArchiveEntry> = if nightly {
        Some(record.archive_entry(now))
    } else {
        None
    };
    JudgePlan { cached: record, job, archived }
}

} // verus!
