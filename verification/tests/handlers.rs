//! The request handlers: parameters, decisions and texts.

use rein_ops::concept_summary::gate::SummaryBucket;
use rein_ops::concept_summary::refresh::{run_concept_summary, ConceptSummaryOutcome};
use rein_ops::error::{OpsError, OpsErrorKind};
use rein_ops::events::EventType;
use rein_ops::handlers::adaptive::{
    feedback, feedback_access, feedback_kind, feedback_kind_of_text, type_name_of_value, feedback_synthesis_interaction, unknown_kind,
    AccessFeedbackParams, ArsAccelerationReleaseGateOutput, ArsAccelerationReleaseGateReport,
    FeedbackKind, FeedbackOutput, FeedbackParams, FeedbackPayload, FeedbackRecord, GateDecision, GateSignals,
    SynthesisInteractionFeedbackParams, SynthesisMetadata,
};
use rein_ops::handlers::concept_summary_feedback::{
    feedback_concept_summary, ConceptSummaryFeedbackParams, ConceptSummaryMetadata,
};
use rein_ops::handlers::diagnostics::{
    default_doctor_fix_flag, doctor, ConfigSnapshot, DoctorParams, DoctorReport, HealthOutput,
    HealthReportItem, QueueCounts, QueuesSnapshot, StatsOutput, SurfaceKind, SystemStatus,
};
use rein_ops::handlers::judge::{
    build_concept_summary_judge_job, build_synthesis_judge_job, cache_contains_id, cache_lookup_value_with_ttl,
    concept_summary_cache_path, entry_is_live, judge_appended, judge_cached_entry, judge_concept_summary, judge_enabled_for_concept_summary, judge_enabled_for_synthesis,
    judge_queue_path, judge_synthesis, read_cache_entries_within_ttl, synthesis_cache_path,
    within_ttl, ArsLlmJudgeConfig,
    JudgeConceptSummaryParams, JudgeEnqueueResult, JudgeRequestStep, JudgeSynthesisParams,
};
use rein_ops::handlers::knowledge::{
    cluster_query, concept_state, export_format, found_memoir, inspect_depth, json_body, link_relation,
    memoir_add_concept, memoir_create, memoir_link, memoir_show, representative_cluster,
    search_limit, ConceptAddOutput, ConceptAddParams, ConceptCard, ConceptRefineOutput,
    ConceptSearchOutput, ConceptStateParams, ConceptSummaryRefreshOutput, JsonBody, LinkOutput,
    LinkParams, MemoirCreateOutput, MemoirCreateParams, MemoirExportOutput, MemoirExportParams,
    MemoirInspectOutput, MemoirInspectParams, MemoirListOutput, MemoirShowParams,
};
use rein_ops::handlers::maintenance::{
    intelligent_merge_try, CanonicalItem, CanonicalsOutput, CanonicalsParams, EvidenceOutput,
    EvidenceParams, GcOutput, InsertionVerdict, MergeVerdict,
};
use rein_ops::handlers::memory::{
    canonical_id, concept_history, forget, format_recent_cli_line, format_recent_line,
    format_revision, get_memory, history_limit, recall, recent_limit,
    refuse_importance, store_memory, update, update_importance, ConceptHistoryParams,
    ConceptRevisionSummary, ForgetParams,
    RecallMemoryOutput, RecallMemoryParams, RecallSynthesisOutcome, RecentMemory, RecentOutput,
    RecentParams, StoreMemoryParams, UpdateParams,
};
use rein_ops::handlers::session::{
    ingest_session, surface_source_label, IngestSessionInput, IngestSessionOutput,
    IngestSessionTurnInput, IngestSource,
};
use rein_ops::handlers::test_path_template::{__test_path_template, TestPathTemplateParams};
use rein_ops::handlers::timeline::{
    bounded_window, format_event, newest_events, refuse_date, timeline, timeline_events,
    EpisodeRange, EpisodeRow, MemoryRow, MemoryRows, RevisionRow,
    TimelineOutput, TimelineParams, TimelineWindow,
};
use rein_ops::json::JsonField;
use rein_ops::judge_calibration::archive::CronArchiveSurface;
use rein_ops::time::{parse_rfc3339, Timestamp};
use rein_ops::types::{
    Concept, ConceptLink, ConceptRevision, Importance, Memoir, Memory, MemoryEvidence,
    MemoryStatus, MemoryTier,
};

fn at(text: &str) -> Timestamp {
    parse_rfc3339(text).expect("readable instant")
}

fn memory(id: &str, content: &str) -> Memory {
    let made = at("2026-03-04T05:06:07Z");
    Memory {
        id: id.to_string(),
        topic: "topic".to_string(),
        summary: format!("about {id}"),
        content: content.to_string(),
        keywords: vec![],
        importance: Importance::Medium,
        access_count: 0,
        superseded_by: None,
        canonical_id: None,
        related_ids: vec![],
        status: MemoryStatus::Active,
        tier: MemoryTier::Warm,
        cluster_id: None,
        created_at: made,
        updated_at: made,
        last_accessed: made,
    }
}

fn concept_alpha() -> Concept {
    let made = at("2026-01-01T00:00:00Z");
    Concept {
        id: "con-1".to_string(),
        memoir_id: "ars-state".to_string(),
        name: "concept-alpha".to_string(),
        definition: "seeded concept".to_string(),
        labels: vec!["seed".to_string()],
        source_memory_ids: vec![],
        revision: 1,
        last_episode_id: None,
        created_at: made,
        updated_at: made,
        living_summary: None,
        living_summary_updated_at: None,
        living_summary_source_revision: None,
        living_summary_id: None,
    }
}

fn refused(e: OpsError) -> String {
    assert_eq!(e.kind, OpsErrorKind::BadRequest);
    e.message
}

fn missing(e: OpsError) -> String {
    assert_eq!(e.kind, OpsErrorKind::NotFound);
    e.message
}

// Feedback.

/// The feedback in a text, read by its kind.
fn read_feedback(text: &str) -> Result<FeedbackParams, String> {
    let kind = feedback_kind_of_text(text).expect("JSON")?;
    let value: serde_json::Value = serde_json::from_str(text).expect("JSON");
    let string = |v: &serde_json::Value, name: &str| {
        v.get(name).and_then(|v| v.as_str()).map(|s| s.to_string())
    };
    Ok(match kind {
        FeedbackKind::Access => FeedbackParams::Access(AccessFeedbackParams {
            memory_ids: value["memory_ids"]
                .as_array()
                .expect("list")
                .iter()
                .map(|v| v.as_str().expect("id").to_string())
                .collect(),
            request_id: string(&value, "request_id"),
            query: string(&value, "query"),
            helpful: value.get("helpful").and_then(|v| v.as_bool()),
        }),
        FeedbackKind::SynthesisInteraction => {
            FeedbackParams::SynthesisInteraction(SynthesisInteractionFeedbackParams {
                synthesis_id: string(&value, "synthesis_id").expect("id"),
                recall_id: string(&value, "recall_id").expect("id"),
                interaction: value["interaction"].to_string(),
                metadata: value.get("metadata").map(|m| SynthesisMetadata {
                    query_type: string(m, "query_type"),
                    cluster_id: m.get("cluster_id").and_then(|v| v.as_i64()),
                    source_count: m.get("source_count").and_then(|v| v.as_u64()).map(|n| n as u32),
                    synthesis_chars: None,
                }),
            })
        }
    })
}

#[test]
fn feedback_params_deserialize_synthesis_interaction_variant() {
    let text = "{\"kind\":\"synthesis_interaction\",\"synthesis_id\":\"01H9X8Y7Z6W5V4U3T2S1R0Q\",\"recall_id\":\"01H9X8Y7Z6W5V4U3T2S1R01\",\"interaction\":{\"kind\":\"viewed\",\"dwell_ms\":4200},\"metadata\":{\"query_type\":\"Semantic\",\"cluster_id\":42,\"source_count\":3}}";
    let params = read_feedback(text).expect("synthesis_interaction kind must parse");
    assert!(matches!(&params, FeedbackParams::SynthesisInteraction(_)));
    let records = feedback(&params).expect("accepted");
    assert_eq!(records.len(), 1);
    assert_eq!(records[0].event.query_type.as_deref(), Some("Semantic"));
    match &records[0].payload {
        FeedbackPayload::SynthesisInteraction { synthesis_id, recall_id, interaction, metadata } => {
            assert_eq!(synthesis_id, "01H9X8Y7Z6W5V4U3T2S1R0Q");
            assert_eq!(recall_id, "01H9X8Y7Z6W5V4U3T2S1R01");
            assert!(interaction.contains("\"dwell_ms\":4200"), "got: {interaction}");
            let md = metadata.as_ref().expect("metadata");
            assert_eq!(md.query_type.as_deref(), Some("Semantic"));
            assert_eq!(md.cluster_id, Some(42));
        }
        other => panic!("expected SynthesisInteraction, got {other:?}"),
    }
}

#[test]
fn feedback_params_deserialize_back_compat_no_kind_defaults_to_access() {
    let text = "{\"memory_ids\":[\"mem_abc\",\"mem_xyz\"],\"request_id\":\"req_123\",\"query\":\"what did we decide last week\",\"helpful\":true}";
    let params = read_feedback(text).expect("missing kind must default to Access");
    match &params {
        FeedbackParams::Access(inner) => {
            assert_eq!(inner.memory_ids, vec!["mem_abc", "mem_xyz"]);
            assert_eq!(inner.request_id.as_deref(), Some("req_123"));
            assert_eq!(inner.query.as_deref(), Some("what did we decide last week"));
            assert_eq!(inner.helpful, Some(true));
        }
        other => panic!("missing kind must default to Access, got {other:?}"),
    }
    let records = feedback(&params).expect("accepted");
    assert_eq!(records[1].event.memory_id.as_deref(), Some("mem_xyz"));
    assert_eq!(records[1].event.request_id.as_deref(), Some("req_123"));
    assert!(matches!(records[1].payload, FeedbackPayload::Access { helpful: Some(true), .. }));
}

#[test]
fn feedback_params_deserialize_explicit_access_kind() {
    let text = "{\"kind\":\"access\",\"memory_ids\":[\"mem_only\"],\"request_id\":null,\"query\":null,\"helpful\":false}";
    match read_feedback(text).expect("explicit access kind must parse") {
        FeedbackParams::Access(inner) => {
            assert_eq!(inner.memory_ids, vec!["mem_only"]);
            assert_eq!(inner.request_id, None);
            assert_eq!(inner.query, None);
            assert_eq!(inner.helpful, Some(false));
        }
        other => panic!("expected Access, got {other:?}"),
    }
}

#[test]
fn feedback_params_deserialize_empty_memory_ids_still_parses() {
    let text = "{\"kind\":\"access\",\"memory_ids\":[]}";
    let params = read_feedback(text).expect("empty memory_ids parses (validated in handler)");
    match &params {
        FeedbackParams::Access(inner) => assert!(inner.memory_ids.is_empty()),
        other => panic!("wrong variant {other:?}"),
    }
    let refused = feedback(&params).expect_err("refused by the handler");
    assert_eq!(refused.kind, OpsErrorKind::BadRequest);
    assert_eq!(refused.message, "memory_ids cannot be empty");
}

#[test]
fn feedback_params_deserialize_unknown_kind_errors() {
    let text = "{\"kind\":\"not_a_real_kind\",\"memory_ids\":[\"mem_x\"]}";
    let err_msg =
        feedback_kind_of_text(text).expect("JSON").expect_err("unknown kind must error");
    assert!(err_msg.contains("unknown feedback kind"), "got: {err_msg}");
    assert_eq!(
        err_msg,
        "unknown feedback kind: \"not_a_real_kind\" (expected \"access\" or \"synthesis_interaction\")"
    );
    assert_eq!(
        feedback_kind_of_text("{\"kind\":7}"),
        Some(Err("feedback `kind` must be a string (got number)".to_string()))
    );
    assert_eq!(feedback_kind_of_text("{not json"), None);
    assert_eq!(
        unknown_kind("'x'"),
        "unknown feedback kind: 'x' (expected \"access\" or \"synthesis_interaction\")"
    );
}

#[test]
fn access_feedback_makes_one_event_for_each_memory() {
    let params = AccessFeedbackParams {
        memory_ids: vec!["a".to_string(), "b".to_string()],
        request_id: Some("r".to_string()),
        query: Some("q".to_string()),
        helpful: Some(true),
    };
    let events = feedback_access(&params).expect("accepted");
    assert_eq!(events.len(), 2);
    assert_eq!(events[1].event.event_type, EventType::RecallAccess);
    assert_eq!(events[1].event.memory_id.as_deref(), Some("b"));
    assert_eq!(events[0].event.request_id.as_deref(), Some("r"));
    assert_eq!(events[0].event.query.as_deref(), Some("q"));
    assert!(matches!(
        events[0].payload,
        FeedbackPayload::Access { source: "agent_feedback", helpful: Some(true) }
    ));
    let none = AccessFeedbackParams {
        memory_ids: vec![],
        request_id: None,
        query: None,
        helpful: None,
    };
    assert!(feedback_access(&none).is_err(), "nothing to give feedback on");
    assert_eq!(feedback(&FeedbackParams::Access(params)).expect("accepted").len(), 2);
}

#[test]
fn synthesis_feedback_makes_one_event() {
    let params = SynthesisInteractionFeedbackParams {
        synthesis_id: "s".to_string(),
        recall_id: "rec".to_string(),
        interaction: "{}".to_string(),
        metadata: Some(SynthesisMetadata {
            query_type: Some("Semantic".to_string()),
            cluster_id: Some(42),
            source_count: Some(3),
            synthesis_chars: None,
        }),
    };
    let FeedbackRecord { event, payload } = feedback_synthesis_interaction(&params);
    assert_eq!(event.event_type, EventType::SynthesisInteraction);
    assert_eq!(event.query_type.as_deref(), Some("Semantic"));
    assert!(event.request_id.is_none() && event.memory_id.is_none());
    match payload {
        FeedbackPayload::SynthesisInteraction {
            synthesis_id,
            recall_id,
            interaction,
            metadata,
        } => {
            assert_eq!((synthesis_id.as_str(), recall_id.as_str()), ("s", "rec"));
            assert_eq!(interaction, "{}");
            let m = metadata.expect("metadata");
            assert_eq!((m.cluster_id, m.source_count, m.synthesis_chars), (Some(42), Some(3), None));
        }
        other => panic!("got {other:?}"),
    }
    let plain = SynthesisInteractionFeedbackParams { metadata: None, ..params };
    let records = feedback(&FeedbackParams::SynthesisInteraction(plain)).expect("accepted");
    assert_eq!(records.len(), 1);
    assert!(records[0].event.query_type.is_none());
    assert!(matches!(
        &records[0].payload,
        FeedbackPayload::SynthesisInteraction { metadata: None, .. }
    ));
    assert_eq!(FeedbackOutput { emitted: 1 }.to_markdown(), "ok:1");
}

#[test]
fn release_gate_is_reported() {
    let out = ArsAccelerationReleaseGateOutput(ArsAccelerationReleaseGateReport {
        canary: GateDecision {
            allowed: true,
            blockers: vec![],
            warnings: vec!["young".to_string(), "small".to_string()],
        },
        default_on: GateDecision {
            allowed: false,
            blockers: vec!["no data".to_string()],
            warnings: vec![],
        },
        signals: GateSignals {
            policy_status: "shadow".to_string(),
            policy_mode: None,
            policy_allows_runtime: false,
        },
    });
    assert_eq!(
        out.to_cli_text(),
        "ARS acceleration release gate\ncanary: allowed\ndefault-on: blocked\ndefault-on blockers: no data\nwarnings: young, small\npolicy: status=shadow mode=unknown live_allowed=false"
    );
}

fn summary_feedback(
    concept_summary_id: Option<&str>,
    living_summary_id: Option<&str>,
) -> ConceptSummaryFeedbackParams {
    ConceptSummaryFeedbackParams {
        concept_id: "con-1".into(),
        concept_summary_id: concept_summary_id.map(|s| s.to_string()),
        living_summary_id: living_summary_id.map(|s| s.to_string()),
        recall_id: "rec-1".into(),
        interaction: "{\"kind\":\"viewed\",\"dwell_ms\":4200}".into(),
        metadata: Some(ConceptSummaryMetadata {
            query_type: Some("Semantic".into()),
            cluster_id: Some(42),
            concept_chars: Some(800),
            revision_version: Some(3),
        }),
    }
}

#[test]
fn summary_feedback_is_counted_under_its_concept() {
    let (interaction, event) =
        feedback_concept_summary(&summary_feedback(Some("cs-1"), Some("cs-x")), -7);
    assert_eq!(interaction.concept_summary_id, "cs-1");
    assert_eq!(interaction.metadata.cluster_id, Some(-7), "whatever the client says");
    assert_eq!(interaction.metadata.query_type.as_deref(), Some("concept_refresh"));
    assert_eq!(interaction.metadata.concept_chars, Some(800));
    assert_eq!(event.event_type, EventType::ConceptSummaryInteraction);
    let (interaction, _) = feedback_concept_summary(&summary_feedback(None, Some("cs-x")), 1);
    assert_eq!(interaction.concept_summary_id, "cs-x");
    let (interaction, _) = feedback_concept_summary(&summary_feedback(None, None), 1);
    assert_eq!(interaction.concept_summary_id, "con-1");
}

// The judge.

#[test]
fn judge_enqueue_result_skipped_to_markdown() {
    let r = JudgeEnqueueResult {
        enqueued: false,
        queue_position: None,
        skipped_reason: Some("synthesis_id_expired_or_unknown".into()),
    };
    let md = r.to_markdown();
    assert!(md.contains("skipped"), "got: {md}");
    assert!(md.contains("synthesis_id_expired_or_unknown"), "got: {md}");
}

#[test]
fn judge_enqueue_result_enqueued_to_markdown() {
    let r = JudgeEnqueueResult { enqueued: true, queue_position: Some(7), skipped_reason: None };
    let md = r.to_markdown();
    assert!(md.contains("enqueued"), "got: {md}");
    assert!(md.contains("7"), "got: {md}");
}

const CACHE: &str = "{\"synthesis_id\":\"abc\",\"x\":1}\n{\"synthesis_id\":\"def\"}\nnot-json-line\n\n";

#[test]
fn cache_contains_id_basic() {
    let now = at("2026-05-01T00:00:00Z");
    assert!(cache_contains_id(CACHE, "synthesis_id", "abc", &now));
    assert!(cache_contains_id(CACHE, "synthesis_id", "def", &now));
    assert!(!cache_contains_id(CACHE, "synthesis_id", "ghi", &now));
    assert!(!cache_contains_id(CACHE, "concept_summary_id", "abc", &now));
}

#[test]
fn cache_contains_id_missing_file() {
    // A file that is not there holds nothing.
    assert!(!cache_contains_id("", "synthesis_id", "abc", &at("2026-05-01T00:00:00Z")));
}

#[test]
fn cached_entries_expire() {
    let cache = "{\"synthesis_id\":\"a\",\"stamped_at\":\"2026-05-01T00:00:00Z\",\"query\":\"old\"}\n{\"synthesis_id\":\"a\",\"stamped_at\":\"2026-05-01T00:00:10Z\",\"query\":\"new\"}\n{\"synthesis_id\":\"a\",\"query\":\"unstamped\"}\n";
    let find = |secs: u64, now: &str| {
        cache_lookup_value_with_ttl(cache, "synthesis_id", "a", Some(secs), &at(now)).is_some()
    };
    assert!(within_ttl(Some(60), 60) && !within_ttl(Some(61), 60) && !within_ttl(None, 60));
    assert!(within_ttl(Some(-5), 0));
    // A limit beyond every age keeps everything.
    assert!(within_ttl(Some(i64::MAX), u64::MAX) && within_ttl(Some(200_000_000), u64::MAX));
    assert!(within_ttl(Some(1), i64::MAX as u64 + 1));
    assert!(find(60, "2026-05-01T00:01:10Z"));
    assert!(!find(60, "2026-05-01T00:01:11Z"));
    assert!(find(u64::MAX, "2036-05-01T00:00:00Z"));
    let hit = cache_lookup_value_with_ttl(
        cache,
        "synthesis_id",
        "a",
        Some(60),
        &at("2026-05-01T00:00:30Z"),
    )
    .expect("fresh");
    let query = hit.iter().find(|m| m.0 == "query").expect("member");
    assert!(matches!(&query.1, JsonField::Text(s) if s == "new"));
}

fn judge_config() -> ArsLlmJudgeConfig {
    ArsLlmJudgeConfig {
        enabled: true,
        synthesis_enabled: true,
        concept_summary_enabled: false,
        cache_ttl_secs: 60,
    }
}

#[test]
fn judge_request_is_skipped_or_appended() {
    let now = at("2026-05-01T00:00:30Z");
    let cfg = judge_config();
    assert!(judge_enabled_for_synthesis(&cfg));
    assert!(!judge_enabled_for_concept_summary(&cfg));
    let by_hand = JudgeConceptSummaryParams {
        concept_summary_id: "cs".to_string(),
        judge_model_override: None,
    };
    match judge_concept_summary(&by_hand, &cfg, &None, &now).expect("no error") {
        JudgeRequestStep::Skip(r) => {
            assert_eq!(r.skipped_reason.as_deref(), Some("judge_disabled"));
        }
        other => panic!("got {other:?}"),
    }
    let params = JudgeSynthesisParams {
        synthesis_id: "abc".to_string(),
        judge_model_override: Some("big".to_string()),
    };
    match judge_synthesis(&params, &cfg, &None, &now).expect("no error") {
        JudgeRequestStep::Skip(r) => {
            assert_eq!(r.skipped_reason.as_deref(), Some("synthesis_id_expired_or_unknown"));
        }
        other => panic!("got {other:?}"),
    }
    let empty = JudgeSynthesisParams { synthesis_id: String::new(), judge_model_override: None };
    assert!(judge_synthesis(&empty, &cfg, &None, &now).is_err());
    assert_eq!(judge_appended(Some(3)).to_cli_text(), "judge enqueued (queue position: 3)");
    assert_eq!(
        JudgeEnqueueResult { enqueued: false, queue_position: None, skipped_reason: None }
            .to_markdown(),
        "judge skipped (unknown reason)"
    );
    assert!(build_synthesis_judge_job(&vec![], "manual", &None).is_none());
    assert_eq!(
        synthesis_cache_path("/b", 2),
        "/b/queue/0000000000000002/synthesis_cache.jsonl"
    );
    assert_eq!(judge_queue_path("/b", 2), "/b/queue/0000000000000002/judge_queue.jsonl");
    assert_eq!(
        concept_summary_cache_path("/b", 2),
        "/b/queue/0000000000000002/concept_summary_cache.jsonl"
    );
}

#[test]
fn entries_are_judged_as_they_were_read() {
    let text = |name: &str, value: &str| {
        (name.to_string(), JsonField::Text(value.to_string()))
    };
    let now = at("2026-05-01T00:00:30Z");
    let m = vec![text("synthesis_id", "s"), text("stamped_at", "2026-05-01T00:00:00Z")];
    assert!(entry_is_live(&m, "synthesis_id", "s", Some(30), &now));
    assert!(!entry_is_live(&m, "synthesis_id", "s", Some(29), &now));
    assert!(!entry_is_live(&m, "synthesis_id", "t", None, &now));
    let unstamped = vec![text("synthesis_id", "s"), text("stamped_at", "today")];
    assert!(entry_is_live(&unstamped, "synthesis_id", "s", None, &now));
    assert!(!entry_is_live(&unstamped, "synthesis_id", "s", Some(u64::MAX >> 1), &now));
    let complete = vec![
        text("synthesis_id", "s"),
        text("query", "q"),
        text("prompt", "p"),
        text("candidate", "c"),
        text("stamp_hash", "h"),
    ];
    let surface = CronArchiveSurface::Synthesis;
    match judge_cached_entry(Some(complete.clone()), &surface, &None) {
        JudgeRequestStep::Append(job) => {
            assert_eq!((job.kind, job.query.as_str(), job.concept_id), ("synthesis", "q", None));
        }
        other => panic!("got {other:?}"),
    }
    for k in 0..complete.len() {
        let mut part = complete.clone();
        part.remove(k);
        assert!(matches!(
            judge_cached_entry(Some(part), &surface, &None),
            JudgeRequestStep::Skip(_)
        ));
    }
    let line = "{\"synthesis_id\":\"s\",\"n\":1}\n{\"synthesis_id\":\"s\",\"n\":2}\n";
    let found = read_cache_entries_within_ttl(line, "synthesis_id", "s", None, &now);
    assert_eq!(found.len(), 2);
    assert!(matches!(json_body("[1, 2]"), JsonBody::Parsed(_)));
    assert!(matches!(json_body("[1, 2"), JsonBody::Raw(s) if s == "[1, 2"));
}

#[test]
fn kinds_of_feedback() {
    let kind = |value: JsonField| feedback_kind(&vec![("kind".to_string(), value)]);
    assert_eq!(feedback_kind(&vec![]), Ok(FeedbackKind::Access));
    assert_eq!(kind(JsonField::Text("access".to_string())), Ok(FeedbackKind::Access));
    assert_eq!(
        kind(JsonField::Text("synthesis_interaction".to_string())),
        Ok(FeedbackKind::SynthesisInteraction)
    );
    let others = [
        (JsonField::Null, "null"),
        (JsonField::Bool(true), "bool"),
        (JsonField::Number { signed: None, unsigned: None }, "number"),
        (JsonField::Array, "array"),
        (JsonField::Object, "object"),
    ];
    for (value, name) in others {
        assert_eq!(type_name_of_value(&value), name);
        assert_eq!(
            kind(value),
            Err(format!("feedback `kind` must be a string (got {name})"))
        );
    }
}

#[test]
fn cached_texts_become_jobs() {
    let now = at("2026-05-01T00:00:30Z");
    let line = "{\"concept_summary_id\":\"cs\",\"concept_id\":\"con\",\"query\":\"\",\"prompt\":\"p\",\"candidate\":\"c\",\"stamp_hash\":\"h\",\"cluster_id\":-3,\"source_count\":4294967298,\"stamped_at\":\"2026-05-01T00:00:00Z\"}\n";
    let mut cfg = judge_config();
    cfg.concept_summary_enabled = true;
    let params = JudgeConceptSummaryParams {
        concept_summary_id: "cs".to_string(),
        judge_model_override: Some("big".to_string()),
    };
    match judge_concept_summary(&params, &cfg, &Some(line.to_string()), &now).expect("no error") {
        JudgeRequestStep::Append(job) => {
            assert_eq!((job.kind, job.source), ("concept_summary", "ManualMcp"));
            assert_eq!(job.surface_id, "cs");
            assert_eq!(job.concept_id.as_deref(), Some("con"));
            assert_eq!((job.prompt.as_str(), job.candidate.as_str()), ("p", "c"));
            assert_eq!((job.cluster_id, job.source_count), (Some(-3), Some(2)));
            assert_eq!(job.query_type, None);
            assert_eq!(job.judge_model_override.as_deref(), Some("big"));
        }
        other => panic!("got {other:?}"),
    }
    let members = cache_lookup_value_with_ttl(line, "concept_summary_id", "cs", None, &now)
        .expect("there");
    let job = build_concept_summary_judge_job(&members, "AutoSampled", &None).expect("complete");
    assert_eq!((job.source, job.stamp_hash.as_str()), ("AutoSampled", "h"));
    // Without the id of its concept the text is not put before the judge.
    let orphan = line.replace("\"concept_id\":\"con\",", "");
    match judge_concept_summary(&params, &cfg, &Some(orphan), &now).expect("no error") {
        JudgeRequestStep::Skip(r) => {
            assert_eq!(
                r.skipped_reason.as_deref(),
                Some("concept_summary_id_expired_or_unknown")
            );
        }
        other => panic!("got {other:?}"),
    }
}

// Knowledge.

#[test]
fn memoir_export_params_accepts_legacy_memoir_field_alias() {
    let params = MemoirExportParams::from_wire(None, Some("foo".to_string()), None)
        .expect("alias should be accepted");
    assert_eq!(params.name, "foo");
    assert_eq!(params.format, None);
}

#[test]
fn memoir_export_params_accepts_canonical_name_field() {
    let params = MemoirExportParams::from_wire(
        Some("foo".to_string()),
        None,
        Some("ascii".to_string()),
    )
    .expect("canonical field should be accepted");
    assert_eq!(params.name, "foo");
    assert_eq!(params.format.as_deref(), Some("ascii"));
}

#[test]
fn memoir_export_params_prefer_canonical_name_over_legacy_alias() {
    let params = MemoirExportParams::from_wire(
        Some("canonical".to_string()),
        Some("legacy".to_string()),
        None,
    )
    .expect("canonical field should take precedence");
    assert_eq!(params.name, "canonical");
    assert!(MemoirExportParams::from_wire(None, None, None).is_none());
}

#[test]
fn memoir_export_output_json_format_returns_parsed_json() {
    let out = MemoirExportOutput {
        format: "json".to_string(),
        output: "{\"memoir\": {\"name\": \"x\"}}".to_string(),
    };
    let text = match out.to_json() {
        JsonBody::Parsed(s) => s,
        JsonBody::Raw(s) => panic!("not JSON: {s}"),
    };
    let value: serde_json::Value = serde_json::from_str(&text).expect("JSON");
    assert_eq!(
        value.get("memoir").and_then(|m| m.get("name")).and_then(|n| n.as_str()),
        Some("x")
    );
    let broken = MemoirExportOutput { format: "json".to_string(), output: "{oops".to_string() };
    assert!(matches!(broken.to_json(), JsonBody::Raw(s) if s == "{oops"));
}

#[test]
fn memoir_export_output_ascii_uses_raw_response_text_plain() {
    let out = MemoirExportOutput {
        format: "ascii".to_string(),
        output: "=== Memoir: x ===\n".to_string(),
    };
    let (content_type, body) =
        out.to_raw_response().expect("ascii should opt into raw response path");
    assert_eq!(content_type, "text/plain");
    assert_eq!(std::str::from_utf8(&body).unwrap(), "=== Memoir: x ===\n");
}

#[test]
fn memoir_export_output_dot_uses_raw_response_text_plain() {
    let out =
        MemoirExportOutput { format: "dot".to_string(), output: "digraph x { }\n".to_string() };
    let (content_type, body) =
        out.to_raw_response().expect("dot should opt into raw response path");
    assert_eq!(content_type, "text/plain");
    assert_eq!(std::str::from_utf8(&body).unwrap(), "digraph x { }\n");
}

#[test]
fn memoir_export_output_json_stays_on_jsonpath() {
    let out = MemoirExportOutput {
        format: "json".to_string(),
        output: "{\"memoir\": {\"name\": \"x\"}}".to_string(),
    };
    assert!(out.to_raw_response().is_none(), "json must go through to_json");
    assert_eq!(out.to_cli_text(), out.output);
}

#[test]
fn export_formats() {
    let format = |f: Option<&str>| {
        export_format(&MemoirExportParams {
            name: "m".to_string(),
            format: f.map(|s| s.to_string()),
        })
    };
    assert_eq!(format(None).ok().as_deref(), Some("json"));
    assert_eq!(format(Some("DOT")).ok().as_deref(), Some("dot"));
    assert_eq!(
        refused(format(Some("XML")).unwrap_err()),
        "invalid export format 'xml' (expected one of: json, ascii, dot)"
    );
}

#[test]
fn memoirs_are_listed_and_shown() {
    let made = at("2026-01-01T00:00:00Z");
    let m = Memoir {
        id: "i".to_string(),
        name: "n".to_string(),
        description: "d".to_string(),
        created_at: made,
        updated_at: made,
    };
    let list = MemoirListOutput { memoirs: vec![m.clone(), m.clone()], compact: false };
    assert_eq!(list.to_markdown(), "- n — d\n- n — d\n");
    let list = MemoirListOutput { memoirs: vec![m.clone()], compact: true };
    assert_eq!(list.to_cli_text(), "n:d\n");
    let none = |compact| MemoirListOutput { memoirs: vec![], compact }.to_markdown();
    assert_eq!(none(true), "none");
    assert_eq!(none(false), "No memoirs found.");
    let shown = memoir_show(m.clone(), "drawing".to_string(), "{}", false);
    assert_eq!(shown.to_markdown(), "Memoir: n — d\n\ndrawing");
    assert!(matches!(shown.json_value, JsonBody::Parsed(_)));
    let params = MemoirShowParams { name: "n".to_string() };
    assert_eq!(found_memoir(&params, Some(m)).expect("there").id, "i");
    assert_eq!(missing(found_memoir(&params, None).unwrap_err()), "memoir 'n' not found");
}

#[test]
fn memoirs_concepts_and_links_are_made() {
    let now = at("2026-05-01T00:00:00Z");
    let m = memoir_create(
        MemoirCreateParams { name: "n".to_string(), description: None },
        &now,
    );
    assert_eq!((m.id.as_str(), m.description.as_str()), ("", ""));
    let out = MemoirCreateOutput { id: "1".to_string(), name: "n".to_string(), compact: false };
    assert_eq!(out.to_cli_text(), "Created memoir 'n': 1");
    let c = memoir_add_concept(
        &ConceptAddParams {
            memoir: "m".to_string(),
            name: "c".to_string(),
            definition: "d".to_string(),
            labels: Some(" a , ,b,".to_string()),
        },
        &now,
    );
    assert_eq!(c.labels, vec!["a", "b"]);
    assert_eq!((c.revision, c.memoir_id.as_str()), (1, "m"));
    let added = ConceptAddOutput {
        id: "2".to_string(),
        name: "c".to_string(),
        memoir: "m".to_string(),
        compact: false,
    };
    assert_eq!(added.to_markdown(), "Added concept 'c' to memoir 'm': 2");
    let refined = |compact| {
        ConceptRefineOutput { name: "c".to_string(), memoir: "m".to_string(), compact }
            .to_markdown()
    };
    assert_eq!(refined(false), "Refined concept 'c' in memoir 'm'");
    assert_eq!(refined(true), "ok:c");
    let params = LinkParams {
        memoir: "m".to_string(),
        from: "a".to_string(),
        to: "b".to_string(),
        relation: "part_of".to_string(),
    };
    let link = |from: Option<&str>, to: Option<&str>| {
        memoir_link(
            &params,
            "part_of".to_string(),
            from.map(|s| s.to_string()),
            to.map(|s| s.to_string()),
            &now,
        )
    };
    assert_eq!(
        missing(link(None, None).unwrap_err()),
        "concept 'a' not found in memoir 'm'"
    );
    assert_eq!(
        missing(link(Some("1"), None).unwrap_err()),
        "concept 'b' not found in memoir 'm'"
    );
    let l = link(Some("1"), Some("2")).expect("a link");
    assert_eq!((l.source_id.as_str(), l.target_id.as_str()), ("1", "2"));
    assert_eq!(refused(link_relation(Err("no such relation".to_string())).unwrap_err()), "no such relation");
    assert_eq!(link_relation(Ok("x".to_string())).ok().as_deref(), Some("x"));
    let out = LinkOutput {
        id: "9".to_string(),
        from: "a".to_string(),
        to: "b".to_string(),
        relation: "part_of".to_string(),
        compact: false,
    };
    assert_eq!(out.to_cli_text(), "Linked 'a' --part_of-> 'b': 9");
}

fn card(name: &str) -> ConceptCard {
    ConceptCard {
        name: name.to_string(),
        definition: format!("def {name}"),
        revision: 2,
        confidence: "0.9".to_string(),
    }
}

#[test]
fn neighbourhoods_and_searches_are_shown() {
    let made = at("2026-01-01T00:00:00Z");
    let link = ConceptLink {
        id: "l".to_string(),
        source_id: "1".to_string(),
        target_id: "2".to_string(),
        relation: "refines".to_string(),
        created_at: made,
        valid_from: None,
        valid_until: None,
    };
    let out = |compact: bool, empty: bool| MemoirInspectOutput {
        center: card("a"),
        neighbors: if empty { vec![] } else { vec![card("b")] },
        links: if empty { vec![] } else { vec![link.clone()] },
        compact,
    };
    assert_eq!(
        out(false, false).to_markdown(),
        "Center: a (conf:0.9, rev:2)\n  def a\n\nNeighbors:\n  - b (conf:0.9, rev:2) — def b\n\nLinks:\n  1 --refines-> 2\n"
    );
    assert_eq!(out(false, true).to_markdown(), "Center: a (conf:0.9, rev:2)\n  def a\n\n");
    assert_eq!(
        out(true, false).to_cli_text(),
        "center:a:c0.9:r2\nneighbor:b:c0.9:r2\nlink:1->2:refines\n"
    );
    let found = |compact| ConceptSearchOutput { concepts: vec![card("a")], compact }.to_markdown();
    assert_eq!(found(true), "a:def a:r2:c0.9\n");
    assert_eq!(found(false), "- a (rev:2, conf:0.9) — def a\n");
    let nothing =
        |compact| ConceptSearchOutput { concepts: vec![], compact }.to_markdown();
    assert_eq!(nothing(true), "none");
    assert_eq!(nothing(false), "No concepts found.");
    assert_eq!(search_limit(None), 10);
    assert_eq!(search_limit(Some(500)), 100);
    let depth = |d| {
        inspect_depth(&MemoirInspectParams {
            memoir: "m".to_string(),
            name: "c".to_string(),
            depth: d,
        })
    };
    assert_eq!((depth(None), depth(Some(2)), depth(Some(9))), (1, 2, 5));
}

fn ask(concept_id: &str) -> ConceptStateParams {
    ConceptStateParams { concept_id: concept_id.to_string(), ..Default::default() }
}

#[test]
fn concept_state_surfaces_living_summary_fields_when_present() {
    let mut concept = concept_alpha();
    concept.living_summary = Some("rolling summary prose".to_string());
    concept.living_summary_updated_at = Some(at("2026-04-24T12:00:00Z"));
    concept.living_summary_source_revision = Some(1);
    let out = concept_state(&ask("con-1"), Some(concept), &vec![], false, &vec![], 10, true)
        .expect("concept_state");
    assert_eq!(out.id, "con-1");
    assert_eq!(out.name, "concept-alpha");
    assert_eq!(out.living_summary.as_deref(), Some("rolling summary prose"));
    let ls_at = out.living_summary_updated_at.clone().expect("timestamp present");
    assert!(ls_at.starts_with("2026-04-24T12:00:00"), "did not round-trip: {ls_at}");
    assert_eq!(out.living_summary_source_revision, Some(1));
    assert_eq!(
        out.to_markdown(),
        "## concept-alpha (r1)\nseeded concept\n\n### Living summary\nrolling summary prose\n_updated at 2026-04-24T12:00:00+00:00, source revision r1_\n"
    );
}

#[test]
fn concept_state_returns_none_fields_when_summary_absent() {
    let out =
        concept_state(&ask("con-1"), Some(concept_alpha()), &vec![], true, &vec![], 10, true)
            .expect("concept_state");
    assert_eq!(out.id, "con-1");
    assert!(out.living_summary.is_none());
    assert!(out.living_summary_updated_at.is_none());
    assert!(out.living_summary_source_revision.is_none());
    assert_eq!(out.to_cli_text(), "## concept-alpha (r1)\nseeded concept\n");
}

#[test]
fn concept_state_returns_not_found_for_missing_id() {
    let err = concept_state(&ask("nonexistent"), None, &vec![], true, &vec![], 10, true)
        .expect_err("missing concept must error");
    let text = missing(err);
    assert!(text.contains("not found"), "got: {text}");
    assert_eq!(text, "concept 'nonexistent' not found");
}

#[test]
fn concept_state_hides_a_summary_that_is_not_useful() {
    let mut concept = concept_alpha();
    concept.living_summary = Some("prose".to_string());
    concept.source_memory_ids = vec!["a".to_string(), "b".to_string(), "c".to_string()];
    let buckets = vec![SummaryBucket {
        cluster_id: Some(5),
        query_type: "Semantic".to_string(),
        viewed_count: 100,
        explicit_up: 0,
        explicit_down: 0,
        llm_judge_count: 0,
        useful: false,
    }];
    let mut params = ask("con-1");
    params.query_type = Some("Semantic".to_string());
    let state = |params: &ConceptStateParams, enabled: bool| {
        concept_state(
            params,
            Some(concept.clone()),
            &vec![3, 5, 5],
            enabled,
            &buckets,
            10,
            true,
        )
        .expect("found")
    };
    // Without a cluster the summary is shown, whatever its quality, and also
    // where the feature is switched off.
    for enabled in [true, false] {
        let shown = state(&params, enabled);
        assert_eq!(shown.cluster_id, Some(5), "most source memories are in it");
        assert_eq!(shown.living_summary.as_deref(), Some("prose"));
        assert!(!shown.living_summary_suppressed);
    }
    // With both, its quality decides.
    params.cluster_id = Some(5);
    let hidden = state(&params, true);
    assert!(hidden.living_summary.is_none() && hidden.living_summary_suppressed);
    params.cluster_id = Some(3);
    let shown = state(&params, true);
    assert_eq!(shown.living_summary.as_deref(), Some("prose"));
    assert!(!shown.living_summary_suppressed);
    // Switched off by the operator.
    assert!(state(&params, false).living_summary_suppressed);
    // Without a type of query it is always shown.
    params.query_type = None;
    assert!(state(&params, false).living_summary.is_some());
    assert_eq!(
        cluster_query(&concept).as_deref(),
        Some("SELECT cluster_id FROM memories WHERE id IN (?,?,?) AND cluster_id IS NOT NULL")
    );
    assert_eq!(cluster_query(&concept_alpha()), None);
    assert_eq!(representative_cluster(&vec![]), None);
    assert_eq!(representative_cluster(&vec![1, 2, 1]), Some(1));
}

#[test]
fn concept_summary_refresh_returns_skipped_disabled_when_ars_off() {
    let (outcome, _) = run_concept_summary(false, 1, 0, false, true, 5);
    let out = ConceptSummaryRefreshOutput(outcome);
    assert!(
        out.0.skipped_disabled,
        "disabled ARS config must short-circuit before touching any LLM"
    );
    assert_eq!(out.0.attempted, 0);
    assert_eq!(out.0.succeeded, 0);
    assert_eq!(out.0.llm_failed, 0);
    assert_eq!(out.to_markdown(), "Concept summary refresh disabled in config");
}

#[test]
fn concept_summary_refresh_dry_run_on_disabled_still_short_circuits() {
    let (outcome, _) = run_concept_summary(false, 1, 0, true, true, 5);
    assert!(outcome.skipped_disabled);
    assert_eq!(outcome.attempted, 0);
}

#[test]
fn summary_refresh_is_reported() {
    let mut o = ConceptSummaryOutcome::default();
    o.attempted = 3;
    o.succeeded = 2;
    o.llm_failed = 1;
    o.dry_run = true;
    assert_eq!(
        ConceptSummaryRefreshOutput(o.clone()).to_cli_text(),
        "Concept summary refresh (dry run): attempted 3, succeeded 2, ineligible 0, llm_failed 1"
    );
    o.skipped_no_llm = true;
    assert_eq!(
        ConceptSummaryRefreshOutput(o).to_markdown(),
        "Concept summary refresh skipped: no LLM provider configured"
    );
}

// Memory.

#[test]
fn forgetting_is_reported() {
    let out = forget(ForgetParams { id: "m1".to_string() });
    assert!(out.deleted);
    assert_eq!(out.to_markdown(), "ok:m1");
    assert_eq!(out.to_cli_text(), "Deleted memory: m1");
}

#[test]
fn recent_memories_are_listed_with_their_age() {
    let limit = |n| recent_limit(&RecentParams { limit: n });
    assert_eq!((limit(None), limit(Some(0)), limit(Some(500)), limit(Some(7))), (20, 1, 100, 7));
    let made = at("2026-05-01T00:00:00Z");
    let out = |compact| RecentOutput {
        memories: vec![RecentMemory {
            id: "m1".to_string(),
            topic: "t".to_string(),
            summary: "s".to_string(),
            importance: Importance::High,
            created_at: made,
            strength: "0.50".to_string(),
        }],
        compact,
    };
    assert_eq!(out(true).to_markdown(&made), "[t] s");
    assert_eq!(
        out(false).to_markdown(&at("2026-05-03T23:59:59Z")),
        "[t] s (high, 2d ago, str:0.50)\n  id: m1"
    );
    assert_eq!(out(false).to_cli_text(&at("2026-05-01T23:59:59Z")), "[t] s (high, 23h ago)");
    assert_eq!(out(false).to_cli_text(&at("2026-05-01T00:59:59Z")), "[t] s (high, 59m ago)");
    assert_eq!(out(false).to_cli_text(&at("2026-04-30T23:58:29Z")), "[t] s (high, -1m ago)");
    let none = RecentOutput { memories: vec![], compact: false };
    assert_eq!(none.to_cli_text(&made), "No memories found.");
}

#[test]
fn recent_lines_show_the_age_they_are_given() {
    let m = RecentMemory {
        id: "m1".to_string(),
        topic: "t".to_string(),
        summary: "s".to_string(),
        importance: Importance::Low,
        created_at: at("2026-05-01T00:00:00Z"),
        strength: "1.00".to_string(),
    };
    assert_eq!(format_recent_line(&m, false, 86_400), "[t] s (low, 1d ago, str:1.00)\n  id: m1");
    assert_eq!(format_recent_cli_line(&m, false, 86_399), "[t] s (low, 23h ago)");
    assert_eq!(format_recent_cli_line(&m, false, 3_599), "[t] s (low, 59m ago)");
    assert_eq!(format_recent_cli_line(&m, true, 0), "[t] s");
    assert_eq!(
        refused(refuse_importance("'x'")),
        "invalid importance 'x': must be one of low, medium, high, critical"
    );
    let rev = ConceptRevisionSummary {
        revision: 2,
        created_at: at("2026-05-01T00:00:00Z"),
        episode_id: Some("e".to_string()),
        definition: "d".to_string(),
    };
    assert_eq!(format_revision(&rev, "noon"), "- **r2** (noon) [episode: e]\n  d\n");
}

#[test]
fn searches_are_bounded() {
    let mut params = RecallMemoryParams { query: "q".to_string(), ..Default::default() };
    let b = recall(&params);
    assert_eq!(b.limit, 10);
    assert!(b.from.is_none() && b.to.is_none());
    params.limit = Some(1000);
    params.from = Some("2026-05-01".to_string());
    params.to = Some("2026-05-01".to_string());
    let b = recall(&params);
    assert_eq!(b.limit, 200);
    assert_eq!(b.from, Some(at("2026-05-01T00:00:00Z")));
    assert_eq!(b.to, Some(at("2026-05-01T23:59:59Z")));
    params.from = Some("soon".to_string());
    assert!(recall(&params).from.is_none());
}

#[test]
fn search_results_are_shown() {
    let out = |compact: bool, found: bool, prose: Option<&str>| RecallMemoryOutput {
        results: if found { vec!["m1".to_string()] } else { vec![] },
        route: "semantic".to_string(),
        request_id: "r1".to_string(),
        synthesis: Some(RecallSynthesisOutcome { synthesis: prose.map(|s| s.to_string()) }),
        compact,
    };
    assert_eq!(
        out(false, true, None).to_markdown("body"),
        "[route: semantic | request_id: r1] body"
    );
    assert_eq!(
        out(false, true, Some("so")).to_markdown("body"),
        "[synthesis] so\n\n[route: semantic | request_id: r1] body"
    );
    assert_eq!(out(false, true, Some("so")).to_cli_text("body"), "[synthesis]\nso\n\nbody");
    assert_eq!(out(false, true, Some("")).to_cli_text("body"), "body");
    assert_eq!(out(true, true, Some("so")).to_markdown("body"), "body");
    assert_eq!(out(true, false, None).to_markdown(""), "none");
    assert_eq!(out(false, false, None).to_markdown(""), "No memories found.");
}

#[test]
fn memories_are_checked_before_they_are_stored() {
    let params = |content: String, importance: Option<&str>| StoreMemoryParams {
        topic: "t".to_string(),
        content,
        importance: importance.map(|s| s.to_string()),
        keywords: None,
    };
    assert_eq!(params(String::new(), None).importance_text(), "medium");
    assert_eq!(params(String::new(), Some("high")).importance_text(), "high");
    let plan = store_memory(params("x".repeat(100_000), None), Some(Importance::Medium))
        .expect("just small enough");
    assert!(plan.keywords.is_empty());
    assert_eq!(
        refused(store_memory(params("x".repeat(100_001), None), None).unwrap_err()),
        "content too large (max 100KB)"
    );
    assert_eq!(
        refused(store_memory(params("é".repeat(50_001), None), Some(Importance::Low)).unwrap_err()),
        "content too large (max 100KB)",
        "the limit is in bytes"
    );
    assert_eq!(
        refused(store_memory(params("x".to_string(), Some("a \"b\"")), None).unwrap_err()),
        "invalid importance \"a \\\"b\\\"\": must be one of low, medium, high, critical"
    );
}

#[test]
fn memories_are_updated() {
    let params = |importance: Option<&str>| UpdateParams {
        id: "m1".to_string(),
        content: "a new text".to_string(),
        importance: importance.map(|s| s.to_string()),
    };
    assert_eq!(update_importance(&params(None), None).ok(), Some(None));
    assert_eq!(
        update_importance(&params(Some("low")), Some(Importance::Low)).ok(),
        Some(Some(Importance::Low))
    );
    assert_eq!(
        refused(update_importance(&params(Some("huge")), None).unwrap_err()),
        "invalid importance \"huge\": must be one of low, medium, high, critical"
    );
    let mut m = memory("m1", "old");
    let now = at("2026-06-01T00:00:00Z");
    let out = update(&mut m, &params(None), None, 5, &now);
    assert_eq!((m.content.as_str(), m.summary.as_str()), ("a new text", "a new"));
    assert_eq!((m.importance, m.updated_at), (Importance::Medium, now));
    assert_eq!(out.to_markdown(), "ok:m1");
    assert_eq!(out.to_cli_text(), "Updated memory: m1");
    update(&mut m, &params(None), Some(Importance::Critical), 5, &now);
    assert_eq!(m.importance, Importance::Critical);
}

fn evidence(id: &str, memory_id: Option<&str>) -> MemoryEvidence {
    let made = at("2026-01-01T00:00:00Z");
    MemoryEvidence {
        id: id.to_string(),
        canonical_id: "c".to_string(),
        memory_id: memory_id.map(|s| s.to_string()),
        source_topic: "t".to_string(),
        summary: "s".to_string(),
        content: "text".to_string(),
        keywords: vec![],
        source: "manual".to_string(),
        created_at: made,
        imported_at: made,
    }
}

#[test]
fn memory_is_fetched_with_evidence_from_elsewhere() {
    let mut m = memory("m1", "x");
    assert_eq!(canonical_id(&m), "m1");
    m.canonical_id = Some("c".to_string());
    assert_eq!(canonical_id(&m), "c");
    let rows = vec![evidence("1", Some("c")), evidence("2", Some("m1")), evidence("3", None)];
    let out = get_memory(m, Some(rows), Some(9));
    let ids: Vec<&str> = out.evidence.iter().map(|e| e.id.as_str()).collect();
    assert_eq!(ids, vec!["2", "3"]);
    assert_eq!(out.evidence_total, 9);
    assert_eq!(out.to_markdown(), "memory m1: about m1");
    let out = get_memory(memory("m2", "x"), None, None);
    assert_eq!((out.evidence.len(), out.evidence_total), (0, 0));
}

#[test]
fn history_of_a_concept() {
    let params = ConceptHistoryParams {
        memoir: "m".to_string(),
        name: "c".to_string(),
        limit: Some(500),
    };
    assert_eq!(history_limit(&params), 100);
    assert_eq!(
        missing(concept_history(&params, None, String::new(), vec![]).unwrap_err()),
        "concept 'c' not found"
    );
    let mut current = concept_alpha();
    let out = concept_history(&params, Some(current.clone()), "0.80".to_string(), vec![])
        .expect("found");
    assert_eq!(
        out.to_markdown(),
        "## concept-alpha (current: r1, confidence: 0.80)\nseeded concept\n\nNo revision history (concept has not been refined yet)."
    );
    current.living_summary = Some("prose".to_string());
    let revision = ConceptRevision {
        revision: 1,
        definition: "d".repeat(300),
        episode_id: None,
        created_at: at("2026-01-02T03:04:05Z"),
    };
    let out = concept_history(&params, Some(current), "0.80".to_string(), vec![revision])
        .expect("found");
    assert_eq!(
        out.to_cli_text(),
        format!(
            "## concept-alpha (current: r1, confidence: 0.80)\nseeded concept\n\n### Living summary\nprose\n\n### Revision History (1 entries)\n\n- **r1** (2026-01-02 03:04) [episode: none]\n  {}\n",
            "d".repeat(200)
        )
    );
}

// Timeline.

fn window(from: Option<&str>, to: Option<&str>) -> TimelineWindow {
    timeline(&TimelineParams {
        from: from.map(|s| s.to_string()),
        to: to.map(|s| s.to_string()),
        limit: None,
    })
    .expect("readable dates")
}

#[test]
fn timeline_refuses_unreadable_dates() {
    let ask = |from: Option<&str>, to: Option<&str>| {
        timeline(&TimelineParams {
            from: from.map(|s| s.to_string()),
            to: to.map(|s| s.to_string()),
            limit: Some(1000),
        })
    };
    assert_eq!(
        refused(ask(Some("soon"), Some("later")).unwrap_err()),
        "invalid 'from' date format: Some(\"soon\")"
    );
    assert_eq!(
        refused(ask(None, Some("later")).unwrap_err()),
        "invalid 'to' date format: Some(\"later\")"
    );
    assert_eq!(ask(None, None).expect("no dates").limit, 200);
}

#[test]
fn windows_are_bounded_by_what_was_read() {
    let params = TimelineParams {
        from: Some("a".to_string()),
        to: Some("b".to_string()),
        limit: Some(3),
    };
    let t = at("2026-05-01T00:00:00Z");
    let w = bounded_window(&params, Some(t), Some(t)).expect("both read");
    assert_eq!((w.limit, w.from, w.to), (3, Some(t), Some(t)));
    assert_eq!(
        refused(bounded_window(&params, None, None).unwrap_err()),
        "invalid 'from' date format: Some(\"a\")"
    );
    assert_eq!(
        refused(bounded_window(&params, Some(t), None).unwrap_err()),
        "invalid 'to' date format: Some(\"b\")"
    );
    let none = TimelineParams { from: None, to: None, limit: None };
    assert_eq!(bounded_window(&none, None, None).expect("open").limit, 20);
    assert_eq!(
        refused(refuse_date("to", "'b'")),
        "invalid 'to' date format: Some('b')"
    );
    assert_eq!(format_event("12:00", "noon"), "12:00 noon");
    let events = vec![(t, "old".to_string()), (at("2026-05-02T00:00:00Z"), "new".to_string())];
    let out = newest_events(events, 1);
    assert_eq!(out.events.len(), 1);
    assert_eq!(out.events[0].1, "new");
}

#[test]
fn timeline_asks_the_store() {
    let now = at("2026-05-01T12:00:00.5Z");
    assert!(matches!(window(None, None).episodes(&now), EpisodeRange::Latest(20)));
    match window(Some("2026-04-01"), None).episodes(&now) {
        EpisodeRange::Between(a, b) => {
            assert_eq!(a, at("2026-04-01T00:00:00Z"));
            assert_eq!(b, at("2026-05-02T12:00:00.5Z"));
        }
        other => panic!("got {other:?}"),
    }
    match window(None, Some("2026-04-01")).episodes(&now) {
        EpisodeRange::Between(a, b) => {
            assert_eq!(a, at("2000-01-01T00:00:00Z"));
            assert_eq!(b, at("2026-04-01T23:59:59Z"));
        }
        other => panic!("got {other:?}"),
    }
    let q = window(None, None).revision_query();
    assert_eq!(
        q.sql,
        "SELECT r.revision, r.definition, r.created_at, c.name, c.memoir_id FROM concept_revisions r JOIN concepts c ON r.concept_id = c.id ORDER BY r.created_at DESC LIMIT 20"
    );
    assert!(q.values.is_empty());
    assert!(window(None, None).memory_query().is_none());
    let both = window(Some("2026-04-01"), Some("2026-04-02"));
    assert!(both
        .revision_query()
        .sql
        .contains("c.id WHERE r.created_at >= ?1 AND r.created_at <= ?2 ORDER BY"));
    let q = both.memory_query().expect("bounded");
    assert_eq!(
        q.sql,
        "SELECT topic, summary, created_at FROM memories WHERE created_at >= ?1 AND created_at <= ?2 ORDER BY created_at DESC LIMIT 20"
    );
    assert_eq!(q.values, vec!["2026-04-01T00:00:00+00:00", "2026-04-02T23:59:59+00:00"]);
    let q = window(None, Some("2026-04-02")).memory_query().expect("bounded");
    assert!(q.sql.contains("WHERE created_at <= ?1 ORDER BY"));
}

#[test]
fn timeline_stands_the_newest_first() {
    let episodes = vec![EpisodeRow {
        created_at: at("2026-04-02T00:00:00Z"),
        title: "talk".to_string(),
        concept_ids: vec!["c".to_string()],
        memory_ids: vec![],
        decisions: vec!["yes".to_string(), "no".to_string()],
    }];
    let revisions = vec![
        RevisionRow {
            revision: 3,
            definition: "x".repeat(100),
            created_at: "2026-04-03T00:00:00Z".to_string(),
            name: "c".to_string(),
        },
        RevisionRow {
            revision: 4,
            definition: "y".to_string(),
            created_at: "unreadable".to_string(),
            name: "c".to_string(),
        },
    ];
    let memories = MemoryRows::Queried(vec![
        MemoryRow {
            topic: "t".to_string(),
            summary: "first".to_string(),
            created_at: "2026-04-02T00:00:00Z".to_string(),
        },
        MemoryRow {
            topic: "t".to_string(),
            summary: "second".to_string(),
            created_at: "2026-04-04T00:00:00Z".to_string(),
        },
    ]);
    let out = timeline_events(&episodes, &revisions, &memories, 10);
    let texts: Vec<&str> = out.events.iter().map(|e| e.1.as_str()).collect();
    assert_eq!(
        texts,
        vec![
            "[memory] [t] second",
            &format!("[revision] c r3: {}", "x".repeat(80)),
            "[episode] talk — 1 concepts, 0 memories | decisions: yes, no",
            "[memory] [t] first",
        ],
        "events of the same time keep their order"
    );
    assert_eq!(timeline_events(&episodes, &revisions, &memories, 1).events.len(), 1);
    let recent = MemoryRows::Recent(vec![memory("m1", "x")]);
    assert_eq!(
        timeline_events(&vec![], &vec![], &recent, 5).to_markdown(),
        "2026-03-04 05:06 [memory] [topic] about m1"
    );
    assert_eq!(
        TimelineOutput { events: vec![] }.to_cli_text(),
        "No events found in the specified range."
    );
}

// Maintenance.

#[test]
fn canonical_memories_and_evidence_are_listed() {
    assert_eq!(CanonicalsParams::default().limit, 20);
    assert_eq!(EvidenceParams::default().limit, 20);
    let none = CanonicalsOutput { canonicals: vec![] };
    assert_eq!(none.to_markdown(), "No canonical memories found");
    let one = CanonicalsOutput {
        canonicals: vec![CanonicalItem {
            id: "c".to_string(),
            summary: "s".to_string(),
            support_count: 3,
            merge_count: 2,
            source_diversity: "1.00".to_string(),
            dedup_confidence: "0.90".to_string(),
        }],
    };
    assert_eq!(one.to_cli_text(), "- c [s] support=3 merges=2 diversity=1.00 dedup_conf=0.90\n");
    let out = |rows| EvidenceOutput { canonical_id: "c".to_string(), evidence: rows };
    assert_eq!(out(vec![]).to_markdown(), "No evidence found for canonical 'c'");
    assert_eq!(out(vec![evidence("1", None)]).to_cli_text(), "- 1 [t] s\ntext\n");
}

#[test]
fn garbage_collection_is_reported() {
    let out = |dry_run, concepts| GcOutput {
        decayed: 5,
        pruned: 2,
        concepts,
        dry_run,
        threshold: "0.1".to_string(),
    };
    assert_eq!(
        out(true, 0).to_markdown(),
        "GC dry run: 2 weak STM memories would be pruned (threshold: 0.1)"
    );
    assert_eq!(
        out(false, 3).to_markdown(),
        "GC complete: decayed 5 memories, pruned 2 weak STM memories (threshold: 0.1), 3 low-quality concepts"
    );
    assert_eq!(
        out(true, 1).to_cli_text(),
        "Would decay 5 and prune 2 weak STM memories (threshold: 0.1), 1 low-quality concepts"
    );
    assert_eq!(
        out(false, 0).to_cli_text(),
        "Decayed 5 memories, pruned 2 weak STM memories (threshold: 0.1)"
    );
}

#[test]
fn merge_is_tried_out() {
    let a = memory("a", "x");
    let b = memory("b", "y");
    let out = intelligent_merge_try(
        &a,
        &b,
        Some(InsertionVerdict {
            verdict: MergeVerdict::CreateNew,
            reasoning: Some("new".to_string()),
            synthesized: None,
        }),
    );
    assert_eq!(
        out.to_markdown(),
        "**existing**: about a\n**incoming**: about b\n\n**verdict**: CreateNew\n**reason**: new\n"
    );
    assert_eq!(
        out.to_cli_text(),
        "→ existing: about a\n→ incoming: about b\n\nverdict  : CreateNew\nreason   : new\n"
    );
    let out = intelligent_merge_try(&a, &b, None);
    assert!(out.to_markdown().contains("classifier returned None"));
    assert!(out.to_cli_text().ends_with("REIN_LOG=debug)\n"));
}

// Sessions.

fn session() -> IngestSessionInput {
    IngestSessionInput {
        content: None,
        turns: None,
        title: Some("title".to_string()),
        session_id: None,
        started_at: None,
        summary: None,
        compact_summary: None,
        tool_outputs: None,
        agent_label: Some("agent".to_string()),
        is_subagent: None,
        async_mode: Some(true),
    }
}

fn turn(role: &str, content: String) -> IngestSessionTurnInput {
    IngestSessionTurnInput { role: role.to_string(), content }
}

#[test]
fn sessions_are_taken_in_as_turns_or_text() {
    let mut input = session();
    input.turns = Some(vec![turn("user", "hi".to_string())]);
    input.content = Some("ignored".to_string());
    input.started_at = Some("2026-05-01".to_string());
    let plan = ingest_session(input, SurfaceKind::Rest).expect("accepted");
    assert!(plan.queue && !plan.is_subagent);
    match plan.source {
        IngestSource::Session(s) => {
            assert_eq!((s.schema_version, s.artifact_kind.as_str()), (1, "session"));
            assert_eq!(s.started_at, Some(at("2026-05-01T00:00:00Z")));
            assert_eq!(s.source_agent.as_deref(), Some("agent"));
            assert_eq!(s.source_label.as_deref(), Some("rest"));
            assert_eq!(s.turns.len(), 1);
        }
        other => panic!("got {other:?}"),
    }
    let mut input = session();
    input.content = Some("text".to_string());
    let plan = ingest_session(input, SurfaceKind::Cli).expect("accepted");
    assert!(matches!(plan.source, IngestSource::Text(t) if t == "text"));
    assert_eq!(surface_source_label(SurfaceKind::Mcp), "mcp");
}

#[test]
fn sessions_are_refused_where_they_are_too_large() {
    let refusal = |input| refused(ingest_session(input, SurfaceKind::Cli).unwrap_err());
    assert_eq!(
        refusal(session()),
        "ingest_session requires either `content` or `turns`"
    );
    let mut input = session();
    input.content = Some("x".repeat(500_001));
    assert_eq!(refusal(input), "content too large (max 500000 bytes)");
    let mut input = session();
    input.turns = Some(vec![turn("user", "x".repeat(499_997))]);
    assert_eq!(refusal(input), "turns too large (max 500000 bytes aggregate)");
    let mut input = session();
    input.turns = Some((0..1001).map(|_| turn("u", String::new())).collect());
    assert_eq!(refusal(input), "too many turns (max 1000)");
}

#[test]
fn ingestion_is_reported() {
    let out = IngestSessionOutput {
        queued: false,
        artifact_id: Some("a".to_string()),
        session_id: None,
        episode_id: None,
        memory_count: 1,
        concept_count: 2,
        link_count: 3,
        turn_count: 4,
        filtered_count: 5,
        secret_filtered_count: 6,
        created_count: 0,
        merged_count: 0,
        superseded_count: 0,
        primary_topics: vec![],
        stored_memory_ids: vec![],
    };
    assert_eq!(
        out.to_markdown(),
        "**Ingested session**\n\n- queued: false\n- artifact: a\n- episode: -\n- memories: 1\n- concepts: 2\n- links: 3\n- turns: 4\n- filtered: 5 (6 secret)\n"
    );
    assert_eq!(
        out.to_cli_text(),
        "ok queued:false memories:1 concepts:2 links:3 artifact:a episode:-"
    );
}

// Diagnostics.

#[test]
fn health_and_counts_are_reported() {
    let q = QueueCounts { pending: 1, inflight: 2, dead_letters: 3 };
    let mut out = HealthOutput {
        reports: vec![],
        queues: QueuesSnapshot { memory: q, cleanup: q, dedup: q, merge_refinement: q },
        grayzone_pending: 4,
        status: SystemStatus { ok: true, issues: vec![] },
    };
    assert_eq!(
        out.to_markdown(),
        "(no topic reports)\n\n**System**: OK\n**Queues**: memory p=1 i=2 d=3 | cleanup p=1 i=2 d=3 | dedup p=1 i=2 d=3 | merge_refine p=1 i=2 d=3\n**Grayzone pending**: 4"
    );
    out.reports.push(HealthReportItem {
        topic: "t".to_string(),
        count: 5,
        avg_strength: "0.500".to_string(),
        stale_count: 1,
        needs_consolidation: true,
    });
    out.status = SystemStatus { ok: false, issues: vec!["slow".to_string()] };
    assert!(out.to_markdown().starts_with(
        "**Topic health**\n- t: count=5 avg_strength=0.500 stale=1 consolidate=true\n\n**System**: DEGRADED\nIssues:\n- slow\n"
    ));
    let stats = StatsOutput {
        total_memories: 1,
        ltm_count: 2,
        stm_count: 3,
        topic_count: 4,
        avg_strength: "0.500".to_string(),
        memoir_count: 5,
        concept_count: 6,
        link_count: 7,
        hot_count: 8,
        warm_count: 9,
        cold_count: 10,
    };
    assert_eq!(
        stats.to_markdown(),
        "**Memory stats**\n- total: 1\n- LTM: 2 / STM: 3\n- topics: 4\n- avg strength: 0.500\n- tiers: hot=8 warm=9 cold=10\n- memoirs: 5 concepts: 6 links: 7"
    );
}

#[test]
fn doctor_answers_in_json_on_the_command_line() {
    let report = || DoctorReport {
        human: "fine".to_string(),
        json: "{}".to_string(),
        exit_code: 2,
    };
    let mut params = DoctorParams::default();
    let (out, _) = doctor(report(), &params, SurfaceKind::Cli);
    assert_eq!(out.to_cli_text(), "fine");
    params.json = true;
    let (out, _) = doctor(report(), &params, SurfaceKind::Cli);
    assert_eq!(out.to_cli_text(), "{}");
    assert_eq!(out.to_markdown(), "fine");
    assert!(default_doctor_fix_flag());
}

#[test]
fn configuration_is_shown() {
    let snapshot = ConfigSnapshot {
        database_path: "/db".to_string(),
        embedding_provider: "p".to_string(),
        embedding_dimensions: 3072,
        extract_provider: "e".to_string(),
        extract_model: "m".to_string(),
        compact_mode: true,
        sse_enabled: false,
        decay_base_lambda: "0.05".to_string(),
        dedup_similarity: "0.85".to_string(),
    };
    let text = snapshot.to_markdown();
    assert!(text.contains("/db") && text.contains("3072") && text.contains("0.85"), "{text}");
    assert!(snapshot.to_cli_text().contains("/db"));
}

#[test]
fn path_parameters_are_echoed() {
    let out = __test_path_template(TestPathTemplateParams { id: "42".to_string() });
    assert_eq!(out.echoed_id, "42");
    assert!(out.to_markdown().contains("42"));
}
