//! What the requests are for: which are refused, what a cache or a window of time
//! gives, and what is recorded and shown.

use crate::concept_summary::gate::{ConceptSummaryDecision, SummaryBucket, decision};
use crate::concept_summary::judge_input::JudgeJob;
use crate::concept_summary::laws::{lemma_stands_in, stands_in};
use crate::error::{OpsError, OpsErrorKind};
use crate::events::{EventType, FeedbackEvent};
use crate::handlers::adaptive::{
    AccessFeedbackParams, FeedbackKind, FeedbackParams, FeedbackPayload, FeedbackRecord,
    SynthesisInteractionFeedbackParams, are_access_records, are_feedback_records,
    is_access_record, is_kind_of, is_synthesis_record, recorded_text,
};
use crate::handlers::concept_summary_feedback::{
    ConceptSummaryFeedbackParams, ConceptSummaryInteraction, is_interaction, summary_id_of,
};
use crate::handlers::diagnostics::{DoctorOutput, DoctorReport, SurfaceKind, is_check_up};
use crate::handlers::judge::{
    ArsLlmJudgeConfig, JudgeEnqueueResult, JudgeRequestStep, cached_entry, is_append_result,
    is_job_of, is_live_entry, is_request_step, is_step_for_entry, is_young, judges_summaries,
    judges_syntheses, last_hit, live_entries,
};
use crate::handlers::knowledge::{
    ConceptAddParams, ConceptStateOutput, ConceptStateParams, LinkParams, MemoirCreateParams,
    asked_memoir, depth_bound, is_export_format, is_format_choice, is_found, is_mode,
    is_new_concept, is_new_link, is_new_memoir, is_plain_format, is_state_of, label_list,
    missing_concept, search_bound, shows_concept, summary_shown, tally, wanted_format,
};
use crate::handlers::maintenance::{
    InsertionVerdict, IntelligentMergeTryOutput, is_merge_try, with_concepts,
};
use crate::handlers::memory::{
    ConceptHistoryOutput, GetMemoryOutput, RecallBounds, RecallMemoryOutput, RecallMemoryParams,
    StoreMemoryParams, StorePlan, age_text, canonical_of, from_elsewhere, history_bound,
    is_new_importance, is_recall_of, is_rewritten, is_store_plan, limit_or, recall,
    recall_cli_text, recall_text, recent_bound, shows_history, shows_memory, summarizes,
    wanted_importance,
};
use crate::handlers::session::{
    IngestPlan, IngestSessionInput, IngestSessionTurnInput, IngestSource, SessionIngest,
    is_ingest_plan, is_session_of, refusal, turns_len,
};
use crate::handlers::timeline::{
    EpisodeRange, EpisodeRow, EventView, MemoryRow, MemoryRows, RevisionRow, TimelineParams,
    TimelineQuery, TimelineWindow, all_events, at_most, episode_events, episode_text,
    happens_before, is_day_after, is_episode_range, is_memory_query, is_timeline_of, is_window_of,
    law_timeline_is_ordered, memory_events, memory_row_events, memory_text, newest_first,
    revision_events, revision_text, stamp, window_conditions, window_values,
};
use crate::json::{FieldView, entry_lines, json_members, last_place, member, text_member};
use crate::judge_calibration::archive::{CronArchiveSurface, id_member};
use crate::laws::law_list_items;
use crate::text::{ascii_lower, byte_len, decimal, lines, split_on, texts, trimmed};
use crate::time::{
    Timestamp, date_argument, date_midnight, is_instant, rfc3339_instant, rfc3339_text,
    whole_seconds,
};
use crate::types::{
    Concept, ConceptLink, ConceptRevision, Importance, Memoir, Memory, MemoryEvidence, opt_text,
};
use vstd::prelude::*;
use vstd::string::*;

verus! {

/// Whether an object bears this text under a name.
pub open spec fn bears(m: Seq<(Seq<char>, FieldView)>, name: Seq<char>, text: Seq<char>) -> bool {
    member(m, name) == Some(FieldView::Text(text))
}

/// Whether a line of a cache is an entry for this id that is no older than the
/// limit, which needs a readable time stamp.
pub open spec fn is_cached(
    line: Seq<char>,
    id_field: Seq<char>,
    id: Seq<char>,
    ttl_secs: Option<u64>,
    now: Timestamp,
) -> bool {
    json_members(line) matches Some(m) && bears(m, id_field, id) && (ttl_secs matches Some(ttl)
        ==> exists|stamp: Seq<char>| #[trigger]
        bears(m, "stamped_at"@, stamp) && (rfc3339_instant(stamp) matches Some(at) && whole_seconds(
            now.seconds(),
            now.nanoseconds(),
            at.0,
            at.1,
        ) <= ttl))
}

proof fn lemma_is_cached(
    line: Seq<char>,
    id_field: Seq<char>,
    id: Seq<char>,
    ttl_secs: Option<u64>,
    now: Timestamp,
)
    ensures
        is_cached(line, id_field, id, ttl_secs, now) == (json_members(line) matches Some(m)
            && is_live_entry(m, id_field, id, ttl_secs, now)),
{
    if let Some(m) = json_members(line) {
        if is_live_entry(m, id_field, id, ttl_secs, now) {
            if ttl_secs is Some {
                let stamp = text_member(m, "stamped_at"@)->0;
                assert(bears(m, "stamped_at"@, stamp));
            }
        }
    }
}

/// The entries that a cache holds for an id are those of its lines that are
/// entries for it and fresh enough, in the order of the file.
pub proof fn law_cache_entries(
    lines: Seq<Seq<char>>,
    id_field: Seq<char>,
    id: Seq<char>,
    ttl_secs: Option<u64>,
    now: Timestamp,
)
    ensures
        live_entries(lines, id_field, id, ttl_secs, now) == lines.filter(
            |line: Seq<char>| is_cached(line, id_field, id, ttl_secs, now),
        ).map_values(|line: Seq<char>| json_members(line)->0),
    decreases lines.len(),
{
    reveal(Seq::filter);
    let p = |line: Seq<char>| is_cached(line, id_field, id, ttl_secs, now);
    let f = |line: Seq<char>| json_members(line)->0;
    if lines.len() > 0 {
        let front = lines.drop_last();
        law_cache_entries(front, id_field, id, ttl_secs, now);
        lemma_is_cached(lines.last(), id_field, id, ttl_secs, now);
        if p(lines.last()) {
            assert(front.filter(p).push(lines.last()).map_values(f) =~= front.filter(p).map_values(
                f,
            ).push(f(lines.last())));
        }
    } else {
        assert(live_entries(lines, id_field, id, ttl_secs, now) =~= lines.filter(p).map_values(f));
    }
}

/// The entry used for an id is the last that the cache holds for it; without a
/// cache, or such an entry, there is none.
pub proof fn law_cached_entry_is_the_last(
    text: Seq<char>,
    surface: CronArchiveSurface,
    id: Seq<char>,
    ttl_secs: u64,
    now: Timestamp,
)
    ensures
        cached_entry(None, surface, id, ttl_secs, now) is None,
        ({
            let hits = live_entries(
                entry_lines(lines(text)),
                id_member(surface),
                id,
                Some(ttl_secs),
                now,
            );
            &&& cached_entry(Some(text), surface, id, ttl_secs, now) is None <==> hits.len() == 0
            &&& hits.len() > 0 ==> cached_entry(Some(text), surface, id, ttl_secs, now) == Some(
                hits[hits.len() - 1],
            )
        }),
{
}

/// A request to judge a text is refused where its id is blank, skipped where the
/// judge is switched off or the cache has no complete entry for it, and else makes
/// a job of exactly that entry.
pub proof fn law_judge_request(
    r: Result<JudgeRequestStep, OpsError>,
    surface: CronArchiveSurface,
    id: Seq<char>,
    model: Option<Seq<char>>,
    enabled: bool,
    ttl_secs: u64,
    cache: Option<Seq<char>>,
    now: Timestamp,
)
    requires
        is_request_step(r, surface, id, model, enabled, ttl_secs, cache, now),
    ensures
        r is Err <==> trimmed(id).len() == 0,
        r matches Err(e) ==> e.kind == OpsErrorKind::BadRequest,
        r matches Ok(JudgeRequestStep::Append(j)) ==> {
            &&& enabled
            &&& cached_entry(cache, surface, id, ttl_secs, now) matches Some(m) && {
                &&& bears(m, "prompt"@, j.prompt@) && bears(m, "candidate"@, j.candidate@)
                &&& bears(m, "query"@, j.query@) && bears(m, "stamp_hash"@, j.stamp_hash@)
                &&& bears(m, id_member(surface), j.surface_id@)
                &&& surface is ConceptSummary ==> (j.concept_id matches Some(c) && bears(
                    m,
                    "concept_id"@,
                    c@,
                ))
                &&& surface is Synthesis ==> j.concept_id is None
            }
            &&& j.source@ == "ManualMcp"@
            &&& opt_text(j.judge_model_override) == model
            &&& j.kind@ == (if surface is Synthesis {
                "synthesis"@
            } else {
                "concept_summary"@
            })
        },
        r matches Ok(JudgeRequestStep::Skip(s)) ==> {
            &&& !s.enqueued && s.queue_position is None && s.skipped_reason is Some
            &&& !enabled <==> (s.skipped_reason->0)@ == "judge_disabled"@
        },
        trimmed(id).len() > 0 && enabled && cached_entry(cache, surface, id, ttl_secs, now) is None
            ==> r matches Ok(JudgeRequestStep::Skip(_)),
        trimmed(id).len() > 0 && !enabled ==> r matches Ok(JudgeRequestStep::Skip(_)),
{
    reveal_strlit("judge_disabled");
    reveal_strlit("synthesis_id_expired_or_unknown");
    reveal_strlit("concept_summary_id_expired_or_unknown");
    assert("judge_disabled"@.len() != "synthesis_id_expired_or_unknown"@.len());
    assert("judge_disabled"@.len() != "concept_summary_id_expired_or_unknown"@.len());
}

/// A complete entry is never skipped: what the judge needs is the id, the query, the
/// prompt, the candidate and the stamp, and for a living summary its concept.
pub proof fn law_complete_entry_makes_a_job(
    r: JudgeRequestStep,
    m: Seq<(Seq<char>, FieldView)>,
    surface: CronArchiveSurface,
    model: Option<Seq<char>>,
    unknown: Seq<char>,
    id: Seq<char>,
    concept: Seq<char>,
    query: Seq<char>,
    prompt: Seq<char>,
    candidate: Seq<char>,
    stamp: Seq<char>,
)
    requires
        is_step_for_entry(r, Some(m), surface, model, unknown),
        bears(m, id_member(surface), id),
        surface is ConceptSummary ==> bears(m, "concept_id"@, concept),
        bears(m, "query"@, query),
        bears(m, "prompt"@, prompt),
        bears(m, "candidate"@, candidate),
        bears(m, "stamp_hash"@, stamp),
    ensures
        r matches JudgeRequestStep::Append(j) && j.surface_id@ == id && j.query@ == query
            && j.prompt@ == prompt && j.candidate@ == candidate && j.stamp_hash@ == stamp,
{
}

/// A job carries the type of query, the cluster and the number of sources of its
/// entry, where they are there.
pub proof fn law_job_carries_its_metadata(
    j: JudgeJob,
    m: Seq<(Seq<char>, FieldView)>,
    surface: CronArchiveSurface,
    source: Seq<char>,
    model: Option<Seq<char>>,
)
    requires
        is_job_of(Some(j), m, surface, source, model),
    ensures
        j.query_type matches Some(q) ==> bears(m, "query_type"@, q@),
        j.query_type is None ==> forall|t: Seq<char>| !#[trigger] bears(m, "query_type"@, t),
        j.cluster_id matches Some(c) ==> (member(m, "cluster_id"@) matches Some(
            FieldView::Number { signed, .. },
        ) && signed == Some(c)),
        member(m, "cluster_id"@) matches Some(FieldView::Number { signed, .. }) ==> j.cluster_id
            == signed,
        member(m, "source_count"@) matches Some(FieldView::Number { unsigned, .. }) ==> (unsigned
            matches Some(n) ==> (n <= u32::MAX ==> j.source_count == Some(n as u32))),
        member(m, "source_count"@) is None ==> j.source_count is None,
        j.source@ == source,
{
}

/// Every episode is shown, and every revision and memory whose time can be read,
/// each under its own time.
pub proof fn law_all_events_are_shown(
    episodes: Seq<EpisodeRow>,
    revisions: Seq<RevisionRow>,
    memories: MemoryRows,
    k: int,
)
    ensures
        0 <= k < episodes.len() ==> exists|i: int|
            0 <= i < all_events(episodes, revisions, memories).len() && {
                let e = #[trigger] all_events(episodes, revisions, memories)[i];
                e.secs == episodes[k].created_at.seconds() && e.nanos
                    == episodes[k].created_at.nanoseconds() && e.text == episode_text(episodes[k])
            },
        0 <= k < revisions.len() && rfc3339_instant(revisions[k].created_at@) is Some ==> exists|
            i: int,
        |
            0 <= i < all_events(episodes, revisions, memories).len() && {
                let e = #[trigger] all_events(episodes, revisions, memories)[i];
                let at = rfc3339_instant(revisions[k].created_at@)->0;
                e.secs == at.0 && e.nanos == at.1 && e.text == revision_text(revisions[k])
            },
        memories matches MemoryRows::Recent(v) ==> (0 <= k < v@.len() ==> exists|i: int|
            0 <= i < all_events(episodes, revisions, memories).len() && {
                let e = #[trigger] all_events(episodes, revisions, memories)[i];
                e.secs == v@[k].created_at.seconds() && e.nanos == v@[k].created_at.nanoseconds()
                    && e.text == memory_text(v@[k].topic@, v@[k].summary@)
            }),
        memories matches MemoryRows::Queried(v) ==> (0 <= k < v@.len() && rfc3339_instant(
            v@[k].created_at@,
        ) is Some ==> exists|i: int|
            0 <= i < all_events(episodes, revisions, memories).len() && {
                let e = #[trigger] all_events(episodes, revisions, memories)[i];
                let at = rfc3339_instant(v@[k].created_at@)->0;
                e.secs == at.0 && e.nanos == at.1 && e.text == memory_text(
                    v@[k].topic@,
                    v@[k].summary@,
                )
            }),
{
    let all = all_events(episodes, revisions, memories);
    let a = episode_events(episodes);
    let b = revision_events(revisions);
    if 0 <= k < episodes.len() {
        assert(all[k] == a[k]);
    }
    if 0 <= k < revisions.len() && rfc3339_instant(revisions[k].created_at@) is Some {
        let i = lemma_revision_shown(revisions, k);
        assert(all[a.len() + i] == b[i]);
    }
    match memories {
        MemoryRows::Recent(v) => {
            if 0 <= k < v@.len() {
                assert(all[a.len() + b.len() + k] == memory_events(memories)[k]);
            }
        },
        MemoryRows::Queried(v) => {
            if 0 <= k < v@.len() && rfc3339_instant(v@[k].created_at@) is Some {
                let i = lemma_memory_shown(v@, k);
                assert(all[a.len() + b.len() + i] == memory_row_events(v@)[i]);
            }
        },
    }
}

proof fn lemma_revision_shown(v: Seq<RevisionRow>, k: int) -> (i: int)
    requires
        0 <= k < v.len(),
        rfc3339_instant(v[k].created_at@) is Some,
    ensures
        0 <= i < revision_events(v).len(),
        revision_events(v)[i] == (EventView {
            secs: (rfc3339_instant(v[k].created_at@)->0).0,
            nanos: (rfc3339_instant(v[k].created_at@)->0).1,
            text: revision_text(v[k]),
        }),
    decreases v.len(),
{
    if k == v.len() - 1 {
        revision_events(v).len() - 1
    } else {
        let i = lemma_revision_shown(v.drop_last(), k);
        assert(revision_events(v)[i] == revision_events(v.drop_last())[i]);
        i
    }
}

proof fn lemma_memory_shown(v: Seq<MemoryRow>, k: int) -> (i: int)
    requires
        0 <= k < v.len(),
        rfc3339_instant(v[k].created_at@) is Some,
    ensures
        0 <= i < memory_row_events(v).len(),
        memory_row_events(v)[i] == (EventView {
            secs: (rfc3339_instant(v[k].created_at@)->0).0,
            nanos: (rfc3339_instant(v[k].created_at@)->0).1,
            text: memory_text(v[k].topic@, v[k].summary@),
        }),
    decreases v.len(),
{
    if k == v.len() - 1 {
        memory_row_events(v).len() - 1
    } else {
        let i = lemma_memory_shown(v.drop_last(), k);
        assert(memory_row_events(v)[i] == memory_row_events(v.drop_last())[i]);
        i
    }
}

/// A timeline stands the newest first by seconds and then nanoseconds, and is cut at
/// its end: no event that was cut off is newer than one that is shown.
pub proof fn law_timeline_shows_the_newest(v: Seq<EventView>, limit: int, i: int, j: int)
    requires
        0 <= limit,
        0 <= i < at_most(newest_first(v), limit).len(),
        i <= j < newest_first(v).len(),
    ensures
        ({
            let shown = at_most(newest_first(v), limit);
            let all = newest_first(v);
            &&& shown.len() <= limit
            &&& shown.len() < limit ==> shown.len() == v.len()
            &&& shown[i] == all[i]
            &&& shown[i].secs > all[j].secs || (shown[i].secs == all[j].secs && shown[i].nanos
                >= all[j].nanos)
        }),
{
    broadcast use vstd::seq_lib::group_to_multiset_ensures;

    law_timeline_is_ordered(v);
    let all = newest_first(v);
    assert(all.to_multiset().len() == all.len());
    assert(v.to_multiset().len() == v.len());
    if i < j {
        assert(!happens_before(all[i], all[j]));
    }
}

/// A window of time asks for what was made in it, both ends included: one condition
/// for each end that is given, with that end as its value.
pub proof fn law_window_conditions(w: TimelineWindow, column: Seq<char>)
    ensures
        window_conditions(w, column).len() == window_values(w).len(),
        window_values(w).len() == (if w.from is Some { 1int } else { 0int }) + (if w.to is Some {
            1int
        } else {
            0int
        }),
        w.from matches Some(f) ==> window_values(w)[0] == rfc3339_text(f.seconds(), f.nanoseconds())
            && window_conditions(w, column)[0] == column + " >= ?1"@,
        w.to matches Some(t) ==> window_values(w).last() == rfc3339_text(
            t.seconds(),
            t.nanoseconds(),
        ) && window_conditions(w, column).last() == column + (if w.from is Some {
            " <= ?2"@
        } else {
            " <= ?1"@
        }),
{
}

/// The end of an open window is the same time tomorrow.
pub proof fn law_day_after(t: Timestamp, now: Timestamp)
    requires
        is_day_after(t, now),
    ensures
        t.seconds() - now.seconds() == 24 * 60 * 60,
        now.nanoseconds() < 1_000_000_000 ==> t.nanoseconds() == now.nanoseconds(),
{
}

/// A date argument is an instant as it stands, or else a day: from its first second
/// where it begins a window, to its last where it ends one.
pub proof fn law_date_argument(text: Seq<char>)
    ensures
        rfc3339_instant(text) is Some ==> date_argument(text, false) == rfc3339_instant(text)
            && date_argument(text, true) == rfc3339_instant(text),
        rfc3339_instant(text) is None ==> (date_midnight(text, "%Y-%m-%d"@) matches Some(n) ==> {
            &&& date_argument(text, false) == Some((n, 0int))
            &&& date_argument(text, true) == Some((n + 24 * 60 * 60 - 1, 0int))
        }),
        rfc3339_instant(text) is None && date_midnight(text, "%Y-%m-%d"@) is None ==> date_argument(
            text,
            false,
        ) is None && date_argument(text, true) is None,
{
}

/// A limit is what was asked for, held at its greatest, or the usual one.
pub proof fn law_limits(limit: Option<usize>, other: usize, most: usize)
    ensures
        limit_or(limit, other, most) <= most,
        limit matches Some(n) ==> (n <= most ==> limit_or(limit, other, most) == n) && (n > most
            ==> limit_or(limit, other, most) == most),
        limit is None && other <= most ==> limit_or(limit, other, most) == other,
        1 <= recent_bound(limit) <= 100,
        limit matches Some(n) ==> (1 <= n <= 100 ==> recent_bound(limit) == n) && (n > 100
            ==> recent_bound(limit) == 100) && (n == 0 ==> recent_bound(limit) == 1),
        limit is None ==> recent_bound(limit) == 20,
{
}

/// Bytes of a turn.
pub open spec fn turn_bytes(t: IngestSessionTurnInput) -> int {
    byte_len(t.role@) + byte_len(t.content@)
}

/// A transcript has the bytes of all its turns, roles and contents alike.
pub proof fn law_turns_len(turns: Seq<IngestSessionTurnInput>, t: IngestSessionTurnInput)
    ensures
        turns_len(Seq::empty()) == 0,
        turns_len(turns) + turn_bytes(t) <= usize::MAX ==> turns_len(turns.push(t)) == turns_len(
            turns,
        ) + turn_bytes(t),
        turns_len(turns) + turn_bytes(t) > usize::MAX ==> turns_len(turns.push(t)) == usize::MAX,
{
    assert(turns.push(t).drop_last() =~= turns);
}

/// A transcript is refused exactly where it has neither turns nor text, or more than
/// 500000 bytes, or more than 1000 turns. Text does not matter where turns are given.
pub proof fn law_when_a_transcript_is_refused(p: IngestSessionInput)
    ensures
        refusal(p) is Some <==> match p.turns {
            Some(turns) => turns_len(turns@) > 500_000 || turns@.len() > 1000,
            None => p.content is None || byte_len((p.content->0)@) > 500_000,
        },
{
}

/// A session carries what the transcript came with, and the surface that it came
/// through.
pub proof fn law_session_carries_the_transcript(
    s: SessionIngest,
    p: IngestSessionInput,
    surface: SurfaceKind,
)
    requires
        is_session_of(s, p, surface),
    ensures
        p.turns == Some(s.turns),
        s.session_id == p.session_id && s.title == p.title && s.summary == p.summary
            && s.compact_summary == p.compact_summary && s.source_agent == p.agent_label,
        p.tool_outputs matches Some(v) ==> s.tool_outputs == v,
        p.tool_outputs is None ==> s.tool_outputs@.len() == 0,
        p.started_at is None ==> s.started_at is None,
        p.started_at matches Some(text) ==> (rfc3339_instant(text@) matches Some(at) ==> (
        s.started_at matches Some(t) && t.seconds() == at.0 && t.nanoseconds() == at.1)),
        s.ended_at is None,
        s.source_label matches Some(l) && l@ == (if surface == SurfaceKind::Mcp {
            "mcp"@
        } else if surface == SurfaceKind::Rest {
            "rest"@
        } else {
            "cli"@
        }),
        s.schema_version == 1 && s.artifact_kind@ == "session"@,
{
}

/// The age of a memory is shown in whole days from one day on, else in whole hours
/// from one hour on, else in whole minutes.
pub proof fn law_age(secs: int)
    requires
        0 <= secs,
    ensures
        secs >= 86_400 ==> age_text(secs) == decimal((secs / 86_400) as nat) + "d ago"@,
        3600 <= secs < 86_400 ==> age_text(secs) == decimal((secs / 3600) as nat) + "h ago"@,
        secs < 3600 ==> age_text(secs) == decimal((secs / 60) as nat) + "m ago"@,
{
}

/// An answer is shown before the results, unless there is none, it is empty, or the
/// output is compact; the results are shown in any case.
pub proof fn law_recall_shows_answer_and_results(o: RecallMemoryOutput, body: Seq<char>)
    requires
        body.len() > 0,
    ensures
        ({
            let prose = o.synthesis matches Some(s) && s.synthesis matches Some(p) && p@.len() > 0;
            let answer = ((o.synthesis->0).synthesis->0)@;
            let list = if o.compact || o.results@.len() == 0 {
                body
            } else {
                "[route: "@ + o.route@ + " | request_id: "@ + o.request_id@ + "] "@ + body
            };
            &&& prose && !o.compact ==> recall_text(o, body) == "[synthesis] "@ + answer + "\n\n"@
                + list && recall_cli_text(o, body) == "[synthesis]\n"@ + answer + "\n\n"@ + body
            &&& !prose || o.compact ==> recall_text(o, body) == list && recall_cli_text(o, body)
                == body
        }),
{
}

/// Evidence is looked up under the canonical memory, or the memory itself where it
/// has none, and what the canonical memory itself left is no evidence.
pub proof fn law_evidence(m: Memory, e: MemoryEvidence, canonical: Seq<char>)
    ensures
        m.canonical_id matches Some(c) ==> canonical_of(m) == c@,
        m.canonical_id is None ==> canonical_of(m) == m.id@,
        from_elsewhere(canonical)(e) <==> (e.memory_id matches Some(id) ==> id@ != canonical),
{
}

/// Exports are in JSON, as text or as a graph; the name of the format is read
/// without regard to case, and JSON is what is meant where none is given.
pub proof fn law_export_format(format: Option<String>)
    ensures
        format is None ==> wanted_format(format) == "json"@,
        format matches Some(f) ==> wanted_format(format).len() == f@.len() && forall|i: int|
            0 <= i < f@.len() ==> (#[trigger] wanted_format(format)[i]) == (if 'A' <= f@[i]
                && f@[i] <= 'Z' {
                (f@[i] as u32 + 32) as char
            } else {
                f@[i]
            }),
        is_export_format("json"@) && is_export_format("ascii"@) && is_export_format("dot"@),
        forall|s: Seq<char>| #[trigger]
            is_export_format(s) ==> s == "json"@ || s == "ascii"@ || s == "dot"@,
{
}

/// The labels of a concept are what stands between the commas, without the white
/// space around it, blank parts left out.
pub proof fn law_labels(labels: Option<String>)
    ensures
        labels is None ==> label_list(labels).len() == 0,
        labels matches Some(s) ==> label_list(labels) == split_on(s@, ',').map_values(
            |p: Seq<char>| trimmed(p),
        ).filter(|p: Seq<char>| p.len() > 0),
{
    if let Some(s) = labels {
        law_list_items(split_on(s@, ','));
    }
}

proof fn lemma_tally(v: Seq<i64>, x: i64)
    ensures
        tally(v, x) == v.to_multiset().count(x),
    decreases v.len(),
{
    broadcast use vstd::seq_lib::group_to_multiset_ensures;

    if v.len() > 0 {
        lemma_tally(v.drop_last(), x);
        assert(v =~= v.drop_last().push(v.last()));
    }
}

/// The representative cluster is one that no other cluster occurs more often than.
pub proof fn law_representative_cluster(r: Option<i64>, v: Seq<i64>, y: i64)
    requires
        is_mode(r, v),
    ensures
        r is None <==> v.len() == 0,
        r matches Some(x) ==> v.contains(x) && v.to_multiset().count(y) <= v.to_multiset().count(x),
{
    lemma_tally(v, y);
    if let Some(x) = r {
        lemma_tally(v, x);
        assert(tally(v, y) <= tally(v, x));
        let k = choose|k: int| 0 <= k < v.len() && v[k] == x;
    }
}

/// What is shown of a concept is the concept; its living summary is left out only
/// where it is not to be shown, and that is said where there is one.
pub proof fn law_concept_is_shown(o: ConceptStateOutput, c: Concept, shown: bool)
    requires
        shows_concept(o, c, shown),
    ensures
        o.id == c.id && o.memoir_id == c.memoir_id && o.name == c.name && o.definition
            == c.definition && o.revision == c.revision && o.last_episode_id == c.last_episode_id,
        shown ==> o.living_summary == c.living_summary,
        !shown ==> o.living_summary is None,
        o.living_summary_suppressed <==> !shown && c.living_summary is Some,
        o.living_summary_source_revision == c.living_summary_source_revision,
        o.created_at@ == rfc3339_text(c.created_at.seconds(), c.created_at.nanoseconds()),
        o.updated_at@ == rfc3339_text(c.updated_at.seconds(), c.updated_at.nanoseconds()),
        o.living_summary_updated_at is Some <==> c.living_summary_updated_at is Some,
{
}

/// A living summary is hidden from a caller only where both the type of query and
/// the cluster are given, and the decision for them is not to show it.
pub proof fn law_when_a_caller_is_shown_the_summary(
    params: ConceptStateParams,
    global_enabled: bool,
    buckets: Seq<SummaryBucket>,
    cold_start_n: u64,
    judge_counts: bool,
)
    ensures
        params.query_type is None || params.cluster_id is None ==> summary_shown(
            params,
            global_enabled,
            buckets,
            cold_start_n,
            judge_counts,
        ),
        params.query_type is Some && params.cluster_id is Some ==> summary_shown(
            params,
            global_enabled,
            buckets,
            cold_start_n,
            judge_counts,
        ) == (decision(
            global_enabled,
            params.cluster_id,
            (params.query_type->0)@,
            Some(buckets),
            cold_start_n,
            judge_counts,
        ) == ConceptSummaryDecision::Yes),
{
}

/// Feedback is on accesses where it says so or says nothing, on a synthesis where it
/// says that, and refused where its kind is another word or no word at all.
pub proof fn law_kind_of_feedback(
    r: Result<FeedbackKind, String>,
    m: Seq<(Seq<char>, FieldView)>,
)
    requires
        is_kind_of(r, m),
    ensures
        r == Ok::<FeedbackKind, String>(FeedbackKind::Access) <==> member(m, "kind"@) is None
            || bears(m, "kind"@, "access"@),
        r == Ok::<FeedbackKind, String>(FeedbackKind::SynthesisInteraction) <==> bears(
            m,
            "kind"@,
            "synthesis_interaction"@,
        ),
        r is Err <==> member(m, "kind"@) is Some && !bears(m, "kind"@, "access"@) && !bears(
            m,
            "kind"@,
            "synthesis_interaction"@,
        ),
{
    reveal_strlit("access");
    reveal_strlit("synthesis_interaction");
    assert("access"@.len() != "synthesis_interaction"@.len());
}

/// Feedback on an access is recorded for its memory, with the request and query that
/// it names and whether it helped.
pub proof fn law_access_record(
    r: FeedbackRecord,
    memory_id: Seq<char>,
    p: AccessFeedbackParams,
)
    requires
        is_access_record(r, memory_id, p),
    ensures
        r.event.event_type == EventType::RecallAccess,
        r.event.memory_id matches Some(id) && id@ == memory_id,
        r.event.request_id == p.request_id && r.event.query == p.query,
        r.event.concept_id is None && r.event.query_type is None && r.event.topic is None,
        r.payload matches FeedbackPayload::Access { source, helpful } && helpful == p.helpful
            && source@ == "agent_feedback"@,
{
}

/// Feedback on a synthesis is recorded with all that it says, and its type of query
/// in a column of its own.
pub proof fn law_synthesis_record(r: FeedbackRecord, p: SynthesisInteractionFeedbackParams)
    requires
        is_synthesis_record(r, p),
    ensures
        r.event.event_type == EventType::SynthesisInteraction,
        r.event.request_id is None && r.event.memory_id is None && r.event.concept_id is None
            && r.event.query is None && r.event.topic is None,
        p.metadata is None ==> r.event.query_type is None,
        p.metadata matches Some(m) ==> r.event.query_type == m.query_type,
        r.payload matches FeedbackPayload::SynthesisInteraction {
            synthesis_id,
            recall_id,
            interaction,
            metadata,
        } && synthesis_id@ == p.synthesis_id@ && recall_id@ == p.recall_id@ && interaction@
            == p.interaction@ && metadata == p.metadata,
{
}

/// Feedback on a living summary is on the id it names, under either name, and else
/// on the concept.
pub proof fn law_summary_id_of_feedback(p: ConceptSummaryFeedbackParams)
    ensures
        p.concept_summary_id matches Some(id) ==> summary_id_of(p) == id@,
        p.concept_summary_id is None ==> (p.living_summary_id matches Some(id) ==> summary_id_of(p)
            == id@),
        p.concept_summary_id is None && p.living_summary_id is None ==> summary_id_of(p)
            == p.concept_id@,
{
}

/// A timeline is refused exactly where a date that was given cannot be read, and the
/// refusal is a bad request; otherwise both ends are as they were read, and at most
/// two hundred events are shown, twenty where nothing is said.
pub proof fn law_when_a_timeline_is_refused(
    r: Result<TimelineWindow, OpsError>,
    params: TimelineParams,
    from: Option<Timestamp>,
    to: Option<Timestamp>,
)
    requires
        is_window_of(r, params, from, to),
    ensures
        r is Err <==> (params.from is Some && from is None) || (params.to is Some && to is None),
        r matches Err(e) ==> e.kind is BadRequest,
        r matches Ok(w) ==> w.from == from && w.to == to && w.limit <= 200,
        r matches Ok(w) ==> (params.limit is None ==> w.limit == 20),
        r matches Ok(w) ==> (params.limit matches Some(n) ==> (n <= 200 ==> w.limit == n) && (n > 200
            ==> w.limit == 200)),
{
}

/// Episodes are asked for between the ends of the window; an end that is missing
/// leaves nothing out: the range then begins in the year 2000, or ends after now.
pub proof fn law_episode_range(r: EpisodeRange, w: TimelineWindow, now: Timestamp)
    requires
        is_episode_range(r, w, now),
    ensures
        r is Latest <==> w.from is None && w.to is None,
        r matches EpisodeRange::Latest(n) ==> n == w.limit,
        r matches EpisodeRange::Between(a, b) ==> (w.from matches Some(f) ==> a == f) && (
        w.to matches Some(t) ==> b == t),
        r matches EpisodeRange::Between(a, b) ==> (w.from is None ==> a.seconds() == 30 * 31_536_000
            + 7 * 86_400),
        r matches EpisodeRange::Between(a, b) ==> (w.to is None ==> b.seconds() > now.seconds()
            && b.seconds() <= now.seconds() + 86_400 + 1),
{
}

/// Memories are asked for only in a window with an end, and then with as many values
/// as the window has ends.
pub proof fn law_when_memories_are_listed(r: Option<TimelineQuery>, w: TimelineWindow)
    requires
        is_memory_query(r, w),
    ensures
        r is None <==> w.from is None && w.to is None,
        r matches Some(q) ==> q.values@.len() == (if w.from is Some && w.to is Some {
            2int
        } else {
            1int
        }),
{
    if r is Some {
        law_window_conditions(w, "created_at"@);
        assert(texts((r->0).values@).len() == (r->0).values@.len());
    }
}

/// A memory is stored exactly where its text has at most 100 000 bytes and its
/// importance is one; what is stored is what was given.
pub proof fn law_when_a_memory_is_stored(
    r: Result<StorePlan, OpsError>,
    params: StoreMemoryParams,
    parsed: Option<Importance>,
)
    requires
        is_store_plan(r, params, parsed),
    ensures
        r is Ok <==> byte_len(params.content@) <= 100 * 1000 && parsed is Some,
        r matches Err(e) ==> e.kind is BadRequest,
        r matches Ok(plan) ==> plan.content == params.content && plan.topic == params.topic
            && Some(plan.importance) == parsed,
        r matches Ok(plan) ==> (params.keywords is None ==> plan.keywords@.len() == 0) && (
        params.keywords matches Some(v) ==> plan.keywords@ == v@),
{
}

/// An update that names no importance sets none and is not refused; one that names a
/// wrong one is, whatever else it says.
pub proof fn law_when_an_update_is_refused(
    r: Result<Option<Importance>, OpsError>,
    given: Option<String>,
    parsed: Option<Importance>,
)
    requires
        is_new_importance(r, given, parsed),
    ensures
        r is Err <==> given is Some && parsed is None,
        r matches Err(e) ==> e.kind is BadRequest,
        r matches Ok(i) ==> (given is None ==> i is None) && (given is Some ==> i == parsed),
{
}

/// An update replaces the content whole, cuts the summary anew from it, and leaves
/// everything else of the memory alone but the importance, where one was given.
pub proof fn law_update_rewrites(
    after: Memory,
    before: Memory,
    content: Seq<char>,
    importance: Option<Importance>,
    max_chars: int,
    now: Timestamp,
)
    requires
        is_rewritten(after, before, content, importance, max_chars, now),
        0 <= max_chars,
    ensures
        after.content@ == content,
        after.summary@.is_prefix_of(content) && after.summary@.len() <= max_chars,
        content.len() <= max_chars ==> after.summary@ == content,
        content.len() > max_chars ==> after.summary@.len() == max_chars,
        importance is None ==> after.importance == before.importance,
        importance matches Some(i) ==> after.importance == i,
        after.updated_at == now && after.created_at == before.created_at,
        after.id == before.id && after.topic == before.topic && after.keywords == before.keywords
            && after.status == before.status && after.tier == before.tier && after.superseded_by
            == before.superseded_by && after.access_count == before.access_count,
{
    if content.len() <= max_chars {
        assert(after.summary@ =~= content);
    }
}

/// A memory is shown with all evidence but its own: what names the canonical memory
/// itself as its source is left out, and nothing else is.
pub proof fn law_memory_is_shown_with_its_evidence(
    r: GetMemoryOutput,
    memory: Memory,
    rows: Option<Vec<MemoryEvidence>>,
    total: Option<u64>,
    e: MemoryEvidence,
)
    requires
        shows_memory(r, memory, rows, total),
    ensures
        r.memory == memory,
        rows is None ==> r.evidence@.len() == 0,
        rows matches Some(v) ==> (r.evidence@.contains(e) <==> v@.contains(e) && (
        e.memory_id is None || (e.memory_id->0)@ != (if memory.canonical_id is Some {
            (memory.canonical_id->0)@
        } else {
            memory.id@
        }))),
        total is None ==> r.evidence_total == 0,
        total matches Some(n) ==> r.evidence_total == n,
{
    if rows is Some {
        let v = (rows->0)@;
        let p = from_elsewhere(canonical_of(memory));
        if v.filter(p).contains(e) {
            v.lemma_filter_contains_rev(p, e);
            v.lemma_filter_pred(p, v.filter(p).index_of(e));
        }
        if v.contains(e) && p(e) {
            let k = choose|k: int| 0 <= k < v.len() && v[k] == e;
            lemma_evidence_is_kept(v, p, k);
        }
    }
}

proof fn lemma_evidence_is_kept(
    v: Seq<MemoryEvidence>,
    p: spec_fn(MemoryEvidence) -> bool,
    k: int,
)
    requires
        0 <= k < v.len(),
        p(v[k]),
    ensures
        v.filter(p).contains(v[k]),
    decreases v.len(),
{
    reveal(Seq::filter);
    let rest = v.drop_last().filter(p);
    if k < v.len() - 1 {
        lemma_evidence_is_kept(v.drop_last(), p, k);
        assert(v.drop_last()[k] == v[k]);
        let q = choose|q: int| 0 <= q < rest.len() && rest[q] == v[k];
        assert(v.filter(p)[q] == v[k]);
    } else {
        assert(v.filter(p).last() == v[k]);
    }
}

/// A history shows the concept as it is now and every revision, none twice and none
/// moved; a concept that is not there is not found.
pub proof fn law_history_is_shown(
    r: Result<ConceptHistoryOutput, OpsError>,
    name: Seq<char>,
    current: Option<Concept>,
    confidence: String,
    revisions: Seq<ConceptRevision>,
    k: int,
)
    requires
        shows_history(r, name, current, confidence, revisions),
        0 <= k < revisions.len(),
    ensures
        r is Ok <==> current is Some,
        r matches Err(e) ==> e.kind is NotFound,
        r matches Ok(o) ==> o.history@.len() == revisions.len() && o.history@[k].revision
            == revisions[k].revision && o.history@[k].definition == revisions[k].definition
            && o.history@[k].created_at == revisions[k].created_at && o.history@[k].episode_id
            == revisions[k].episode_id,
        r matches Ok(o) ==> o.current_definition == (current->0).definition && o.current_revision
            == (current->0).revision && o.living_summary == (current->0).living_summary
            && o.current_confidence == confidence && o.current_name == (current->0).name
            && o.living_summary_source_revision == (current->0).living_summary_source_revision,
        r matches Ok(o) ==> (o.living_summary_updated_at is Some <==> (
        current->0).living_summary_updated_at is Some),
{
    if r is Ok {
        let o = r->Ok_0;
        assert(summarizes(o.history@[k], revisions[k]));
    }
}

/// A transcript that is not refused is taken in: its turns where it has some, and its
/// text otherwise; it waits in the queue, or counts as a helper's, only where that
/// was asked for.
pub proof fn law_transcript_is_taken_in(
    r: Result<IngestPlan, OpsError>,
    params: IngestSessionInput,
    surface: SurfaceKind,
)
    requires
        is_ingest_plan(r, params, surface),
    ensures
        r is Err <==> refusal(params) is Some,
        r matches Err(e) ==> e.kind is BadRequest,
        r matches Ok(plan) ==> (plan.source is Session <==> params.turns is Some),
        r matches Ok(plan) ==> (plan.source matches IngestSource::Text(t) ==> params.content
            == Some(t)),
        r matches Ok(plan) ==> (plan.queue <==> params.async_mode == Some(true)),
        r matches Ok(plan) ==> (plan.is_subagent <==> params.is_subagent == Some(true)),
        r matches Ok(plan) ==> plan.agent_label == params.agent_label,
{
}

/// A new concept says what was asked for and nothing else yet.
pub proof fn law_new_concept(r: Concept, params: ConceptAddParams, now: Timestamp)
    requires
        is_new_concept(r, params, now),
    ensures
        r.name@ == params.name@ && r.definition@ == params.definition@ && r.memoir_id@
            == params.memoir@,
        r.revision == 1 && r.created_at == now && r.updated_at == now,
        r.living_summary is None && r.living_summary_id is None && r.living_summary_updated_at
            is None && r.living_summary_source_revision is None,
        r.source_memory_ids@.len() == 0 && r.last_episode_id is None && r.id@.len() == 0,
        params.labels is None ==> r.labels@.len() == 0,
{
    assert(texts(r.labels@).len() == r.labels@.len());
}

/// A new memoir bears its name; without a description it has an empty one.
pub proof fn law_new_memoir(r: Memoir, params: MemoirCreateParams, now: Timestamp)
    requires
        is_new_memoir(r, params, now),
    ensures
        r.name == params.name && r.id@.len() == 0,
        params.description is None ==> r.description@.len() == 0,
        params.description matches Some(d) ==> r.description@ == d@,
        r.created_at == now && r.updated_at == now,
{
}

/// A link leads from the first concept to the second, and has no end yet; it is made
/// exactly where both were found, and otherwise one is said to be missing.
pub proof fn law_new_link(
    r: Result<ConceptLink, OpsError>,
    params: LinkParams,
    relation: String,
    from: Option<String>,
    to: Option<String>,
    now: Timestamp,
)
    requires
        is_new_link(r, params, relation, from, to, now),
    ensures
        r is Ok <==> from is Some && to is Some,
        r matches Ok(l) ==> Some(l.source_id) == from && Some(l.target_id) == to && l.relation
            == relation && l.created_at == now && l.valid_from is None && l.valid_until is None
            && l.id@.len() == 0,
        r matches Err(e) ==> e.kind is NotFound && stands_in(
            e.message@,
            if from is None {
                params.from@
            } else {
                params.to@
            },
        ) && stands_in(e.message@, params.memoir@),
{
    if r is Err {
        let name = if from is None { params.from@ } else { params.to@ };
        let a = "concept '"@;
        let b = "' not found in memoir '"@;
        let c = "'"@;
        assert(missing_concept(name, params.memoir@) =~= (a + name) + (b + params.memoir@ + c));
        lemma_stands_in(a, name, b + params.memoir@ + c);
        assert(missing_concept(name, params.memoir@) =~= ((a + name + b) + params.memoir@) + c);
        lemma_stands_in(a + name + b, params.memoir@, c);
    }
}

/// The memoir to export goes by its name; the other spelling counts only where there
/// is no name.
pub proof fn law_which_memoir_is_exported(name: Option<String>, memoir: Option<String>)
    ensures
        name is Some ==> asked_memoir(name, memoir) == name,
        name is None ==> asked_memoir(name, memoir) == memoir,
{
}

/// Every export format but JSON is handed out as plain text.
pub proof fn law_which_export_is_plain(format: Seq<char>)
    ensures
        is_export_format(format) ==> (is_plain_format(format) <==> format != "json"@),
        is_plain_format(format) ==> is_export_format(format),
{
    reveal_strlit("json");
    reveal_strlit("ascii");
    reveal_strlit("dot");
    assert("json"@[0] == 'j' && "ascii"@[0] == 'a' && "dot"@[0] == 'd');
}

/// Feedback on memories is refused exactly where it names none; otherwise there is
/// one record for each, in the order they were named.
pub proof fn law_feedback_on_each_memory(
    r: Result<Vec<FeedbackRecord>, OpsError>,
    params: AccessFeedbackParams,
    i: int,
)
    requires
        are_access_records(r, params),
    ensures
        r is Err <==> params.memory_ids@.len() == 0,
        r matches Err(e) ==> e.kind is BadRequest,
        r matches Ok(v) ==> v@.len() == params.memory_ids@.len() && (0 <= i < v@.len()
            ==> is_access_record(v@[i], params.memory_ids@[i]@, params)),
{
}

/// Feedback on a synthesis is one record, and is never refused; feedback on memories
/// is that on each of them.
pub proof fn law_feedback_of_either_kind(
    r: Result<Vec<FeedbackRecord>, OpsError>,
    params: FeedbackParams,
)
    requires
        are_feedback_records(r, params),
    ensures
        params matches FeedbackParams::SynthesisInteraction(p) ==> (r matches Ok(v) && v@.len() == 1
            && is_synthesis_record(v@[0], p)),
        params matches FeedbackParams::Access(p) ==> are_access_records(r, p),
{
}

/// What is recorded of an interaction with a summary, and the event that tells of it,
/// are about the same concept; the rest of what the caller said is kept.
pub proof fn law_interaction_is_recorded(
    r: (ConceptSummaryInteraction, FeedbackEvent),
    params: ConceptSummaryFeedbackParams,
    synthetic_cluster_id: i64,
)
    requires
        is_interaction(r, params, synthetic_cluster_id),
    ensures
        r.0.concept_id@ == params.concept_id@ && (r.1.concept_id matches Some(c) && c@
            == params.concept_id@),
        r.0.interaction@ == params.interaction@ && r.0.recall_id@ == params.recall_id@,
        r.0.metadata.cluster_id == Some(synthetic_cluster_id),
        r.0.metadata.query_type matches Some(q) && (r.1.query_type matches Some(t) && q@ == t@),
        params.metadata is None ==> r.0.metadata.concept_chars is None
            && r.0.metadata.revision_version is None,
        params.metadata matches Some(m) ==> r.0.metadata.concept_chars == m.concept_chars
            && r.0.metadata.revision_version == m.revision_version,
        r.1.event_type is ConceptSummaryInteraction && r.1.memory_id is None && r.1.request_id
            is None && r.1.query is None && r.1.topic is None,
{
}

/// A trial of a merge shows both summaries, each as its own, and a verdict exactly
/// where there is one.
pub proof fn law_merge_trial(
    r: IntelligentMergeTryOutput,
    existing: Memory,
    incoming: Memory,
    result: Option<InsertionVerdict>,
)
    requires
        is_merge_try(r, existing, incoming, result),
    ensures
        r.existing_summary@ == existing.summary@ && r.incoming_summary@ == incoming.summary@,
        r.verdict is Some <==> result is Some,
        result is None ==> r.reasoning is None && r.synthesis is None,
        result matches Some(v) ==> r.reasoning == v.reasoning && r.synthesis == v.synthesized,
{
}

/// Only on the command line does a check-up end with an exit code, that of its report.
pub proof fn law_check_up(
    r: (DoctorOutput, Option<i32>),
    report: DoctorReport,
    json: bool,
    surface: SurfaceKind,
)
    requires
        is_check_up(r, report, json, surface),
    ensures
        r.0.report == report && r.0.json_cli == json,
        r.1 is Some <==> surface is Cli,
        r.1 matches Some(code) ==> code == report.exit_code,
{
}

/// The place in a queue is the number of its entries, as far as 32 bits hold it; it
/// is never nought.
pub proof fn law_place_in_a_queue(entries: nat)
    ensures
        1 <= entries <= u32::MAX ==> last_place(entries) == entries,
        1 <= last_place(entries) <= u32::MAX,
        entries == 0 ==> last_place(entries) == 1,
        last_place(entries + 0x1_0000_0000) == last_place(entries),
{
}

/// A cache entry of unknown age is not young, and one that is young stays so under a
/// longer limit; the limit itself is still young.
pub proof fn law_when_an_entry_is_young(age: i64, ttl_secs: u64, longer: u64)
    requires
        ttl_secs <= longer,
    ensures
        !is_young(None, ttl_secs),
        is_young(Some(age), ttl_secs) ==> is_young(Some(age), longer),
        is_young(Some(age), ttl_secs) <==> age <= ttl_secs,
        age == ttl_secs ==> is_young(Some(age), ttl_secs),
{
}

/// How much is shown where nothing is said, and at most: ten of a hundred revisions or
/// concepts, one step of five, ten of two hundred memories.
pub proof fn law_how_much_is_shown(limit: Option<usize>, r: RecallBounds, params: RecallMemoryParams)
    requires
        is_recall_of(r, params),
    ensures
        history_bound(limit) <= 100 && search_bound(limit) <= 100 && depth_bound(limit) <= 5
            && r.limit <= 200,
        limit is None ==> history_bound(limit) == 10 && search_bound(limit) == 10 && depth_bound(
            limit,
        ) == 1,
        limit matches Some(n) ==> (n <= 100 ==> history_bound(limit) == n && search_bound(limit)
            == n) && (n <= 5 ==> depth_bound(limit) == n),
        limit matches Some(n) ==> (n > 100 ==> history_bound(limit) == 100 && search_bound(limit)
            == 100) && (n > 5 ==> depth_bound(limit) == 5),
        params.limit is None ==> r.limit == 10,
        params.limit matches Some(n) ==> (n <= 200 ==> r.limit == n) && (n > 200 ==> r.limit == 200),
        params.from is None ==> r.from is None,
        params.to is None ==> r.to is None,
        params.from matches Some(s) ==> is_instant(r.from, date_argument(s@, false)),
        params.to matches Some(s) ==> is_instant(r.to, date_argument(s@, true)),
{
}

/// Nothing is judged where the judge is switched off, and each kind only where it is
/// switched on too, whatever holds of the other.
pub proof fn law_what_is_judged(cfg: ArsLlmJudgeConfig)
    ensures
        !cfg.enabled ==> !judges_syntheses(cfg) && !judges_summaries(cfg),
        cfg.enabled ==> judges_syntheses(cfg) == cfg.synthesis_enabled && judges_summaries(cfg)
            == cfg.concept_summary_enabled,
{
}

/// A job is said to be queued exactly where it has a place in the queue.
pub proof fn law_append_result(r: JudgeEnqueueResult, position: Option<u32>)
    requires
        is_append_result(r, position),
    ensures
        r.enqueued <==> r.queue_position is Some,
        r.queue_position == position && r.skipped_reason is None,
{
}

/// The cache is searched to its end: what is found is an entry that counts, and none
/// that counts comes after it; nothing is found only where none counts.
pub proof fn law_cache_gives_the_last(
    text: Seq<char>,
    id_field: Seq<char>,
    id: Seq<char>,
    ttl_secs: Option<u64>,
    now: Timestamp,
)
    ensures
        ({
            let found = entry_lines(lines(text)).filter(
                |line: Seq<char>| is_cached(line, id_field, id, ttl_secs, now),
            );
            match last_hit(text, id_field, id, ttl_secs, now) {
                Some(m) => found.len() > 0 && json_members(found.last()) == Some(m),
                None => found.len() == 0,
            }
        }),
{
    let p = |line: Seq<char>| is_cached(line, id_field, id, ttl_secs, now);
    let all = entry_lines(lines(text));
    law_cache_entries(all, id_field, id, ttl_secs, now);
    let found = all.filter(p);
    if found.len() > 0 {
        all.lemma_filter_pred(p, found.len() - 1);
        assert(p(found.last()));
    }
}

/// One memory is one memory, and any other number is some memories.
pub proof fn law_feedback_is_told(emitted: nat)
    ensures
        recorded_text(1) == "Feedback recorded for "@ + decimal(1) + " "@ + "memory"@
            + ". This improves future recall quality."@,
        emitted != 1 ==> recorded_text(emitted) == "Feedback recorded for "@ + decimal(emitted)
            + " "@ + "memories"@ + ". This improves future recall quality."@,
{
}

/// An export has the format asked for, in lower case, and JSON where none was; anything
/// but the three there are is refused.
pub proof fn law_which_format_is_exported(r: Result<String, OpsError>, format: Option<String>)
    requires
        is_format_choice(r, format),
    ensures
        format is None ==> (r matches Ok(s) && s@ == "json"@),
        r matches Ok(s) ==> s@ == "json"@ || s@ == "ascii"@ || s@ == "dot"@,
        format matches Some(f) ==> (r is Ok <==> ascii_lower(f@) == "json"@ || ascii_lower(f@)
            == "ascii"@ || ascii_lower(f@) == "dot"@),
        format matches Some(f) ==> (r matches Ok(s) ==> s@ == ascii_lower(f@)),
        r matches Err(e) ==> e.kind is BadRequest,
{
}

/// A memoir or a concept is either found or said not to be there.
pub proof fn law_what_is_not_there_is_not_found(
    a: Result<Memoir, OpsError>,
    name: Seq<char>,
    memoir: Option<Memoir>,
    b: Result<ConceptStateOutput, OpsError>,
    id: Seq<char>,
    concept: Option<Concept>,
    clusters: Seq<i64>,
    shown: bool,
)
    requires
        is_found(a, name, memoir),
        is_state_of(b, id, concept, clusters, shown),
    ensures
        a matches Ok(m) ==> memoir == Some(m),
        a is Err <==> memoir is None,
        a matches Err(e) ==> e.kind is NotFound && stands_in(e.message@, name),
        b is Err <==> concept is None,
        b matches Err(e) ==> e.kind is NotFound && stands_in(e.message@, id),
        b matches Ok(o) ==> shows_concept(o, concept->0, shown),
        b matches Ok(o) ==> ((concept->0).source_memory_ids@.len() == 0 ==> o.cluster_id is None),
{
    lemma_stands_in("memoir '"@, name, "' not found"@);
    lemma_stands_in("concept '"@, id, "' not found"@);
}

/// A memory is of medium importance where nothing is said, and of the one named
/// otherwise.
pub proof fn law_wanted_importance(importance: Option<String>)
    ensures
        importance is None ==> wanted_importance(importance) == "medium"@,
        importance matches Some(s) ==> wanted_importance(importance) == s@,
{
}

/// A timeline is refused exactly where a date was given that is none; a window begins
/// at the start of its first day and ends with its last, and has no end where none
/// was given.
pub proof fn law_timeline_window(r: Result<TimelineWindow, OpsError>, params: TimelineParams)
    requires
        is_timeline_of(r, params),
    ensures
        r is Err <==> (params.from matches Some(s) && date_argument(s@, false) is None) || (
        params.to matches Some(s) && date_argument(s@, true) is None),
        r matches Err(e) ==> e.kind is BadRequest,
        r matches Ok(w) ==> (params.from is None ==> w.from is None) && (params.to is None
            ==> w.to is None),
        r matches Ok(w) ==> (params.from matches Some(s) ==> (w.from matches Some(t) && Some(
            (t.seconds(), t.nanoseconds()),
        ) == date_argument(s@, false))),
        r matches Ok(w) ==> (params.to matches Some(s) ==> (w.to matches Some(t) && Some(
            (t.seconds(), t.nanoseconds()),
        ) == date_argument(s@, true))),
        r matches Ok(w) ==> w.limit <= 200 && (params.limit is None ==> w.limit == 20),
{
}

/// A count of concepts is added only where there are some.
pub proof fn law_concepts_are_mentioned(before: Seq<char>, concepts: u64)
    ensures
        concepts == 0 ==> with_concepts(before, concepts) == before,
        concepts > 0 ==> with_concepts(before, concepts) == before + ", "@ + decimal(
            concepts as nat,
        ) + " low-quality concepts"@,
{
}

} // verus!
