//! Putting a recent synthesis or living summary before the judge by hand.

use crate::concept_summary::judge_input::JudgeJob;
use crate::error::{OpsError, bad_request, is_bad_request};
use crate::json::{
    FieldView, JsonMembers, entry_lines, json_members, jsonl_entries, members_view, parse_members,
    parsed_view, queue_position, signed_member, signed_of, text_member, text_of, unsigned_member,
    unsigned_of,
};
use crate::judge_calibration::archive::{
    CronArchiveSurface, id_member, path_join, queue_dir, queue_scoped_path,
};
use crate::text::{decimal, lines, push_decimal, str_eq, texts, trim, trimmed};
use crate::time::{Timestamp, elapsed_secs, parse_rfc3339, rfc3339_instant, whole_seconds};
use crate::types::{clone_opt, opt_text};
use vstd::prelude::*;
use vstd::string::*;

verus! {

/// What came of a request for a judgement.
#[derive(Clone, Debug)]
pub struct JudgeEnqueueResult {
    /// The job was appended to the queue.
    pub enqueued: bool,
    /// Its position in the queue, counted from 1.
    pub queue_position: Option<u32>,
    /// Why it was not: `judge_disabled`, or that the id is expired or unknown.
    pub skipped_reason: Option<String>,
}

/// What came of a request, in words.
pub open spec fn enqueue_text(r: JudgeEnqueueResult) -> Seq<char> {
    if r.enqueued {
        "judge enqueued (queue position: "@ + (match r.queue_position {
            Some(n) => decimal(n as nat),
            None => "?"@,
        }) + ")"@
    } else {
        match r.skipped_reason {
            Some(reason) => "judge skipped: "@ + reason@,
            None => "judge skipped (unknown reason)"@,
        }
    }
}

impl JudgeEnqueueResult {
    /// What came of the request, in words.
    pub fn to_markdown(&self) -> (r: String)
        ensures
            r@ == enqueue_text(*self),
    {
        if self.enqueued {
            let mut s: String = "judge enqueued (queue position: ".to_owned();
            match self.queue_position {
                Some(n) => {
                    push_decimal(&mut s, n as u64);
                },
                None => {
                    s.append("?");
                },
            }
            s.append(")");
            s
        } else {
            match &self.skipped_reason {
                Some(reason) => {
                    let mut s: String = "judge skipped: ".to_owned();
                    s.append(reason.as_str());
                    s
                },
                None => "judge skipped (unknown reason)".to_owned(),
            }
        }
    }

    /// What came of the request, in words.
    pub fn to_cli_text(&self) -> (r: String)
        ensures
            r@ == enqueue_text(*self),
    {
        self.to_markdown()
    }
}

/// The synthesis to be judged.
#[derive(Clone, Debug)]
pub struct JudgeSynthesisParams {
    pub synthesis_id: String,
    /// The model to ask, in place of the configured one.
    pub judge_model_override: Option<String>,
}

/// The living summary to be judged.
#[derive(Clone, Debug)]
pub struct JudgeConceptSummaryParams {
    pub concept_summary_id: String,
    /// The model to ask, in place of the configured one.
    pub judge_model_override: Option<String>,
}

/// The switches of the judge.
#[derive(Clone, Copy, Debug, PartialEq, Eq, Structural)]
pub struct ArsLlmJudgeConfig {
    pub enabled: bool,
    pub synthesis_enabled: bool,
    pub concept_summary_enabled: bool,
    /// Seconds for which a cached text can be judged.
    pub cache_ttl_secs: u64,
}

/// Whether syntheses are judged.
pub open spec fn judges_syntheses(cfg: ArsLlmJudgeConfig) -> bool {
    cfg.enabled && cfg.synthesis_enabled
}

/// Whether syntheses are judged.
pub fn judge_enabled_for_synthesis(cfg: &ArsLlmJudgeConfig) -> (r: bool)
    ensures
        r == judges_syntheses(*cfg),
{
    cfg.enabled && cfg.synthesis_enabled
}

/// Whether concept summaries are judged.
pub open spec fn judges_summaries(cfg: ArsLlmJudgeConfig) -> bool {
    cfg.enabled && cfg.concept_summary_enabled
}

/// Whether living summaries are judged.
pub fn judge_enabled_for_concept_summary(cfg: &ArsLlmJudgeConfig) -> (r: bool)
    ensures
        r == judges_summaries(*cfg),
{
    cfg.enabled && cfg.concept_summary_enabled
}

/// The file that keeps recent syntheses.
pub fn synthesis_cache_path(base: &str, db_hash: u64) -> (r: String)
    ensures
        r@ == path_join(queue_dir(base@, db_hash), "synthesis_cache"@ + ".jsonl"@),
{
    queue_scoped_path(base, db_hash, "synthesis_cache")
}

/// The file that keeps recent living summaries.
pub fn concept_summary_cache_path(base: &str, db_hash: u64) -> (r: String)
    ensures
        r@ == path_join(queue_dir(base@, db_hash), "concept_summary_cache"@ + ".jsonl"@),
{
    queue_scoped_path(base, db_hash, "concept_summary_cache")
}

/// The file that keeps the jobs of the judge.
pub fn judge_queue_path(base: &str, db_hash: u64) -> (r: String)
    ensures
        r@ == path_join(queue_dir(base@, db_hash), "judge_queue"@ + ".jsonl"@),
{
    queue_scoped_path(base, db_hash, "judge_queue")
}

/// Whether an entry is fresh enough: without a limit always, else if it bears a
/// readable time stamp that is not older than the limit.
pub open spec fn is_fresh(
    m: Seq<(Seq<char>, FieldView)>,
    ttl_secs: Option<u64>,
    now_secs: int,
    now_nanos: int,
) -> bool {
    match ttl_secs {
        None => true,
        Some(ttl) => match text_member(m, "stamped_at"@) {
            None => false,
            Some(stamp) => match rfc3339_instant(stamp) {
                None => false,
                Some(at) => whole_seconds(now_secs, now_nanos, at.0, at.1) <= ttl,
            },
        },
    }
}

/// Whether an entry is the one asked for, and fresh enough.
pub open spec fn is_live_entry(
    m: Seq<(Seq<char>, FieldView)>,
    id_field: Seq<char>,
    id: Seq<char>,
    ttl_secs: Option<u64>,
    now: Timestamp,
) -> bool {
    text_member(m, id_field) == Some(id) && is_fresh(
        m,
        ttl_secs,
        now.seconds(),
        now.nanoseconds(),
    )
}

/// Whether an age is known and within the limit.
pub open spec fn is_young(age: Option<i64>, ttl_secs: u64) -> bool {
    age is Some && age->0 <= ttl_secs
}

/// Whether something of this age in seconds is within a limit; what has no age
/// that could be read is within none.
pub fn within_ttl(age: Option<i64>, ttl_secs: u64) -> (r: bool)
    ensures
        r == is_young(age, ttl_secs),
{
    match age {
        Some(secs) => secs <= 0 || secs as u64 <= ttl_secs,
        None => false,
    }
}

/// Whether an entry is the one asked for, and fresh enough.
pub fn entry_is_live(
    m: &JsonMembers,
    id_field: &str,
    id: &str,
    ttl_secs: Option<u64>,
    now: &Timestamp,
) -> (r: bool)
    ensures
        r == is_live_entry(members_view(m@), id_field@, id@, ttl_secs, *now),
{
    let matching: bool = match text_of(m, id_field) {
        Some(found) => str_eq(found.as_str(), id),
        None => false,
    };
    if !matching {
        return false;
    }
    match ttl_secs {
        None => true,
        Some(ttl) => {
            let age: Option<i64> = match text_of(m, "stamped_at") {
                None => None,
                Some(stamp) => match parse_rfc3339(stamp.as_str()) {
                    None => None,
                    Some(at) => Some(elapsed_secs(now, &at)),
                },
            };
            within_ttl(age, ttl)
        },
    }
}

/// The entries asked for that are fresh enough, in the order of the file.
/// Lines that are not JSON are passed over.
pub open spec fn live_entries(
    lines: Seq<Seq<char>>,
    id_field: Seq<char>,
    id: Seq<char>,
    ttl_secs: Option<u64>,
    now: Timestamp,
) -> Seq<Seq<(Seq<char>, FieldView)>>
    decreases lines.len(),
{
    if lines.len() == 0 {
        Seq::empty()
    } else {
        let rest = live_entries(lines.drop_last(), id_field, id, ttl_secs, now);
        match json_members(lines.last()) {
            Some(m) => if is_live_entry(m, id_field, id, ttl_secs, now) {
                rest.push(m)
            } else {
                rest
            },
            None => rest,
        }
    }
}

/// The entries of a cache file.
pub open spec fn cache_hits(
    text: Seq<char>,
    id_field: Seq<char>,
    id: Seq<char>,
    ttl_secs: Option<u64>,
    now: Timestamp,
) -> Seq<Seq<(Seq<char>, FieldView)>> {
    live_entries(entry_lines(lines(text)), id_field, id, ttl_secs, now)
}

/// The views of entries.
pub open spec fn entry_views(v: Seq<JsonMembers>) -> Seq<Seq<(Seq<char>, FieldView)>> {
    v.map_values(|m: JsonMembers| members_view(m@))
}

/// Reads the entries asked for that are fresh enough from a cache file.
pub fn read_cache_entries_within_ttl(
    text: &str,
    id_field: &str,
    id: &str,
    ttl_secs: Option<u64>,
    now: &Timestamp,
) -> (r: Vec<JsonMembers>)
    ensures
        entry_views(r@) == cache_hits(text@, id_field@, id@, ttl_secs, *now),
{
    let entries: Vec<String> = jsonl_entries(text);
    let ghost all = entry_lines(lines(text@));
    let mut r: Vec<JsonMembers> = Vec::new();
    let mut i: usize = 0;
    assert(entry_views(r@) =~= live_entries(all.take(0), id_field@, id@, ttl_secs, *now));
    while i < entries.len()
        invariant
            i <= entries@.len(),
            texts(entries@) == all,
            entry_views(r@) == live_entries(all.take(i as int), id_field@, id@, ttl_secs, *now),
        decreases entries@.len() - i,
    {
        assert(all.take(i + 1).drop_last() =~= all.take(i as int));
        assert(texts(entries@)[i as int] == entries@[i as int]@);
        assert(all.take(i + 1).last() == entries@[i as int]@);
        match parse_members(entries[i].as_str()) {
            Some(m) => {
                if entry_is_live(&m, id_field, id, ttl_secs, now) {
                    let ghost before = r@;
                    let ghost mv = members_view(m@);
                    r.push(m);
                    assert(entry_views(r@) =~= entry_views(before).push(mv));
                }
            },
            None => {},
        }
        i = i + 1;
    }
    assert(texts(entries@).len() == entries@.len());
    assert(all.take(i as int) =~= all);
    r
}

/// What a search in the cache finds: of all entries that count, the last one.
pub open spec fn last_hit(
    text: Seq<char>,
    id_field: Seq<char>,
    id: Seq<char>,
    ttl_secs: Option<u64>,
    now: Timestamp,
) -> Option<Seq<(Seq<char>, FieldView)>> {
    let hits = cache_hits(text, id_field, id, ttl_secs, now);
    if hits.len() > 0 {
        Some(hits.last())
    } else {
        None
    }
}

/// The last entry asked for that is fresh enough: a text that was made anew
/// supersedes the older one.
pub fn cache_lookup_value_with_ttl(
    text: &str,
    id_field: &str,
    id: &str,
    ttl_secs: Option<u64>,
    now: &Timestamp,
) -> (r: Option<JsonMembers>)
    ensures
        parsed_view(r) == last_hit(text@, id_field@, id@, ttl_secs, *now),
{
    let mut hits: Vec<JsonMembers> = read_cache_entries_within_ttl(
        text,
        id_field,
        id,
        ttl_secs,
        now,
    );
    let ghost all = hits@;
    assert(entry_views(all).len() == all.len());
    let last: Option<JsonMembers> = hits.pop();
    proof {
        if all.len() > 0 {
            assert(entry_views(all).last() == members_view(all.last()@));
        }
    }
    last
}

/// Whether a cache file has an entry with this id, of any age.
pub fn cache_contains_id(text: &str, id_field: &str, id: &str, now: &Timestamp) -> (r: bool)
    ensures
        r == (cache_hits(text@, id_field@, id@, None, *now).len() > 0),
{
    cache_lookup_value_with_ttl(text, id_field, id, None, now).is_some()
}

/// An entry that is younger than a limit is also found under a longer one.
pub proof fn law_longer_limit_finds_more(
    m: Seq<(Seq<char>, FieldView)>,
    id_field: Seq<char>,
    id: Seq<char>,
    short: u64,
    long: u64,
    now: Timestamp,
)
    requires
        short <= long,
        is_live_entry(m, id_field, id, Some(short), now),
    ensures
        is_live_entry(m, id_field, id, Some(long), now),
        is_live_entry(m, id_field, id, None, now),
{
}

/// The low 32 bits of a count.
pub open spec fn low_bits(n: Option<u64>) -> Option<u32> {
    match n {
        Some(x) => Some((x % 0x1_0000_0000) as u32),
        None => None,
    }
}

/// Whether a job is made of a cached entry: every member that the judge needs
/// is there.
pub open spec fn is_job_of(
    j: Option<JudgeJob>,
    m: Seq<(Seq<char>, FieldView)>,
    surface: CronArchiveSurface,
    source: Seq<char>,
    model: Option<Seq<char>>,
) -> bool {
    let complete = text_member(m, id_member(surface)) is Some && (surface is ConceptSummary
        ==> text_member(m, "concept_id"@) is Some) && text_member(m, "query"@) is Some
        && text_member(m, "prompt"@) is Some && text_member(m, "candidate"@) is Some && text_member(
        m,
        "stamp_hash"@,
    ) is Some;
    match j {
        None => !complete,
        Some(job) => {
            &&& complete
            &&& job.kind@ == (if surface is Synthesis {
                "synthesis"@
            } else {
                "concept_summary"@
            })
            &&& Some(job.surface_id@) == text_member(m, id_member(surface))
            &&& opt_text(job.concept_id) == (if surface is ConceptSummary {
                text_member(m, "concept_id"@)
            } else {
                None
            })
            &&& Some(job.query@) == text_member(m, "query"@)
            &&& Some(job.prompt@) == text_member(m, "prompt"@)
            &&& Some(job.candidate@) == text_member(m, "candidate"@)
            &&& Some(job.stamp_hash@) == text_member(m, "stamp_hash"@)
            &&& job.source@ == source
            &&& opt_text(job.query_type) == text_member(m, "query_type"@)
            &&& job.cluster_id == signed_member(m, "cluster_id"@)
            &&& job.source_count == low_bits(unsigned_member(m, "source_count"@))
            &&& opt_text(job.judge_model_override) == model
        },
    }
}

fn build_judge_job(
    m: &JsonMembers,
    surface: &CronArchiveSurface,
    source: &'static str,
    judge_model_override: &Option<String>,
) -> (j: Option<JudgeJob>)
    ensures
        is_job_of(j, members_view(m@), *surface, source@, opt_text(*judge_model_override)),
{
    let surface_id: String = match text_of(m, surface.id_field()) {
        Some(s) => s,
        None => return None,
    };
    let (kind, concept_id): (&'static str, Option<String>) = match surface {
        CronArchiveSurface::Synthesis => ("synthesis", None),
        CronArchiveSurface::ConceptSummary => match text_of(m, "concept_id") {
            Some(s) => ("concept_summary", Some(s)),
            None => return None,
        },
    };
    let query: String = match text_of(m, "query") {
        Some(s) => s,
        None => return None,
    };
    let prompt: String = match text_of(m, "prompt") {
        Some(s) => s,
        None => return None,
    };
    let candidate: String = match text_of(m, "candidate") {
        Some(s) => s,
        None => return None,
    };
    let stamp_hash: String = match text_of(m, "stamp_hash") {
        Some(s) => s,
        None => return None,
    };
    let source_count: Option<u32> = match unsigned_of(m, "source_count") {
        Some(n) => Some((n % 0x1_0000_0000) as u32),
        None => None,
    };
    Some(
        JudgeJob {
            kind,
            surface_id,
            concept_id,
            query,
            prompt,
            candidate,
            stamp_hash,
            source,
            query_type: text_of(m, "query_type"),
            cluster_id: signed_of(m, "cluster_id"),
            source_count,
            judge_model_override: clone_opt(judge_model_override),
        },
    )
}

/// The job for a cached synthesis; `None` where a member is missing.
pub fn build_synthesis_judge_job(
    cache_entry: &JsonMembers,
    source: &'static str,
    judge_model_override: &Option<String>,
) -> (j: Option<JudgeJob>)
    ensures
        is_job_of(
            j,
            members_view(cache_entry@),
            CronArchiveSurface::Synthesis,
            source@,
            opt_text(*judge_model_override),
        ),
{
    build_judge_job(cache_entry, &CronArchiveSurface::Synthesis, source, judge_model_override)
}

/// The job for a cached living summary; `None` where a member is missing, the
/// id of the concept among them.
pub fn build_concept_summary_judge_job(
    cache_entry: &JsonMembers,
    source: &'static str,
    judge_model_override: &Option<String>,
) -> (j: Option<JudgeJob>)
    ensures
        is_job_of(
            j,
            members_view(cache_entry@),
            CronArchiveSurface::ConceptSummary,
            source@,
            opt_text(*judge_model_override),
        ),
{
    build_judge_job(cache_entry, &CronArchiveSurface::ConceptSummary, source, judge_model_override)
}

/// What follows a request for a judgement.
#[derive(Debug)]
pub enum JudgeRequestStep {
    /// Nothing is enqueued.
    Skip(JudgeEnqueueResult),
    /// Append this job to the queue.
    Append(JudgeJob),
}

/// Whether nothing is enqueued, for this reason.
pub open spec fn is_skip(r: JudgeRequestStep, reason: Seq<char>) -> bool {
    r matches JudgeRequestStep::Skip(s) && !s.enqueued && s.queue_position is None && opt_text(
        s.skipped_reason,
    ) == Some(reason)
}

fn skip(reason: &str) -> (r: JudgeRequestStep)
    ensures
        is_skip(r, reason@),
{
    JudgeRequestStep::Skip(
        JudgeEnqueueResult {
            enqueued: false,
            queue_position: None,
            skipped_reason: Some(reason.to_owned()),
        },
    )
}

/// What follows from what the cache holds: an entry that is missing, expired or
/// incomplete is never made up for from elsewhere.
pub open spec fn is_step_for_entry(
    r: JudgeRequestStep,
    entry: Option<Seq<(Seq<char>, FieldView)>>,
    surface: CronArchiveSurface,
    model: Option<Seq<char>>,
    unknown: Seq<char>,
) -> bool {
    match entry {
        None => is_skip(r, unknown),
        Some(m) => match r {
            JudgeRequestStep::Skip(_) => is_skip(r, unknown) && is_job_of(
                None,
                m,
                surface,
                "ManualMcp"@,
                model,
            ),
            JudgeRequestStep::Append(j) => is_job_of(Some(j), m, surface, "ManualMcp"@, model),
        },
    }
}

/// The reason for skipping an id that the cache does not hold.
pub open spec fn unknown_reason(surface: CronArchiveSurface) -> Seq<char> {
    match surface {
        CronArchiveSurface::Synthesis => "synthesis_id_expired_or_unknown"@,
        CronArchiveSurface::ConceptSummary => "concept_summary_id_expired_or_unknown"@,
    }
}

/// The error for a blank id.
pub open spec fn blank_error(surface: CronArchiveSurface) -> Seq<char> {
    match surface {
        CronArchiveSurface::Synthesis => "synthesis_id cannot be empty"@,
        CronArchiveSurface::ConceptSummary => "concept_summary_id cannot be empty"@,
    }
}

/// What follows from what the cache holds for an id.
pub fn judge_cached_entry(
    entry: Option<JsonMembers>,
    surface: &CronArchiveSurface,
    judge_model_override: &Option<String>,
) -> (r: JudgeRequestStep)
    ensures
        is_step_for_entry(
            r,
            parsed_view(entry),
            *surface,
            opt_text(*judge_model_override),
            unknown_reason(*surface),
        ),
{
    let unknown: &'static str = match surface {
        CronArchiveSurface::Synthesis => "synthesis_id_expired_or_unknown",
        CronArchiveSurface::ConceptSummary => "concept_summary_id_expired_or_unknown",
    };
    match entry {
        None => skip(unknown),
        Some(m) => match build_judge_job(&m, surface, "ManualMcp", judge_model_override) {
            None => skip(unknown),
            Some(j) => JudgeRequestStep::Append(j),
        },
    }
}

/// What the cache holds for an id, if anything.
pub open spec fn cached_entry(
    cache: Option<Seq<char>>,
    surface: CronArchiveSurface,
    id: Seq<char>,
    ttl_secs: u64,
    now: Timestamp,
) -> Option<Seq<(Seq<char>, FieldView)>> {
    match cache {
        None => None,
        Some(text) => {
            let hits = cache_hits(text, id_member(surface), id, Some(ttl_secs), now);
            if hits.len() > 0 {
                Some(hits.last())
            } else {
                None
            }
        },
    }
}

/// What follows a request: a blank id is refused, a switched-off judge skips
/// it, and else the cache decides.
pub open spec fn is_request_step(
    r: Result<JudgeRequestStep, OpsError>,
    surface: CronArchiveSurface,
    id: Seq<char>,
    model: Option<Seq<char>>,
    enabled: bool,
    ttl_secs: u64,
    cache: Option<Seq<char>>,
    now: Timestamp,
) -> bool {
    if trimmed(id).len() == 0 {
        r matches Err(e) && is_bad_request(e, blank_error(surface))
    } else if !enabled {
        r matches Ok(s) && is_skip(s, "judge_disabled"@)
    } else {
        r matches Ok(s) && is_step_for_entry(
            s,
            cached_entry(cache, surface, id, ttl_secs, now),
            surface,
            model,
            unknown_reason(surface),
        )
    }
}

fn judge_request(
    surface: &CronArchiveSurface,
    id: &str,
    judge_model_override: &Option<String>,
    enabled: bool,
    ttl_secs: u64,
    cache: &Option<String>,
    now: &Timestamp,
) -> (r: Result<JudgeRequestStep, OpsError>)
    ensures
        is_request_step(
            r,
            *surface,
            id@,
            opt_text(*judge_model_override),
            enabled,
            ttl_secs,
            opt_text(*cache),
            *now,
        ),
{
    if trim(id).as_str().is_empty() {
        let message: &'static str = match surface {
            CronArchiveSurface::Synthesis => "synthesis_id cannot be empty",
            CronArchiveSurface::ConceptSummary => "concept_summary_id cannot be empty",
        };
        return Err(bad_request(message.to_owned()));
    }
    if !enabled {
        return Ok(skip("judge_disabled"));
    }
    let entry: Option<JsonMembers> = match cache {
        None => None,
        Some(text) => cache_lookup_value_with_ttl(
            text.as_str(),
            surface.id_field(),
            id,
            Some(ttl_secs),
            now,
        ),
    };
    Ok(judge_cached_entry(entry, surface, judge_model_override))
}

/// What follows a request to judge a synthesis. `cache` is the text of the file
/// that keeps recent syntheses, if it can be read.
pub fn judge_synthesis(
    params: &JudgeSynthesisParams,
    cfg: &ArsLlmJudgeConfig,
    cache: &Option<String>,
    now: &Timestamp,
) -> (r: Result<JudgeRequestStep, OpsError>)
    ensures
        is_request_step(
            r,
            CronArchiveSurface::Synthesis,
            params.synthesis_id@,
            opt_text(params.judge_model_override),
            judges_syntheses(*cfg),
            cfg.cache_ttl_secs,
            opt_text(*cache),
            *now,
        ),
{
    judge_request(
        &CronArchiveSurface::Synthesis,
        params.synthesis_id.as_str(),
        &params.judge_model_override,
        judge_enabled_for_synthesis(cfg),
        cfg.cache_ttl_secs,
        cache,
        now,
    )
}

/// What follows a request to judge a living summary. `cache` is the text of the
/// file that keeps recent living summaries, if it can be read.
pub fn judge_concept_summary(
    params: &JudgeConceptSummaryParams,
    cfg: &ArsLlmJudgeConfig,
    cache: &Option<String>,
    now: &Timestamp,
) -> (r: Result<JudgeRequestStep, OpsError>)
    ensures
        is_request_step(
            r,
            CronArchiveSurface::ConceptSummary,
            params.concept_summary_id@,
            opt_text(params.judge_model_override),
            judges_summaries(*cfg),
            cfg.cache_ttl_secs,
            opt_text(*cache),
            *now,
        ),
{
    judge_request(
        &CronArchiveSurface::ConceptSummary,
        params.concept_summary_id.as_str(),
        &params.judge_model_override,
        judge_enabled_for_concept_summary(cfg),
        cfg.cache_ttl_secs,
        cache,
        now,
    )
}

/// Whether `r` tells what came of appending a job: its place, if it was appended.
pub open spec fn is_append_result(r: JudgeEnqueueResult, position: Option<u32>) -> bool {
    &&& r.enqueued == (position is Some)
    &&& r.queue_position == position
    &&& r.skipped_reason is None
}

/// What came of a request whose job was to be appended, at this position if it
/// was.
pub fn judge_appended(position: Option<u32>) -> (r: JudgeEnqueueResult)
    ensures
        is_append_result(r, position),
{
    JudgeEnqueueResult {
        enqueued: position.is_some(),
        queue_position: position,
        skipped_reason: None,
    }
}

} // verus!
