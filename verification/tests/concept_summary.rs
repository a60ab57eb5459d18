//! Living summaries of concepts: prompt, storing, showing, judging.

use rein_ops::concept_summary::gate::{
    decide_concept_summary_quality, find_bucket, samples_at_warm_rate, ConceptSummaryDecision,
    ConceptSummarySkipReason, SummaryBucket,
};
use rein_ops::concept_summary::judge_input::{cap_judge_input, enqueue_judge_for_concept_summary};
use rein_ops::concept_summary::prompt::{
    build_concept_summary_prompt, build_concept_summary_prompt_with_cap,
    cap_concept_summary_prompt, show_revision,
};
use rein_ops::concept_summary::refresh::{
    refresh_sample, run_concept_summary, run_concept_summary_with_extractor, sample_of_age,
    select_eligible,
    stale_write_error, summary_id, summary_in_answer, write_living_summary_if_revision_unchanged,
    SummaryResult,
};
use rein_ops::events::{refresh_event, EventType};
use rein_ops::judge_calibration::archive::CronArchiveSurface;
use rein_ops::time::{parse_rfc3339, Timestamp};
use rein_ops::types::{Concept, ConceptRevision};

fn at(text: &str) -> Timestamp {
    parse_rfc3339(text).expect("readable instant")
}

fn make_concept(memoir_name: &str, name: &str) -> Concept {
    let made = at("2026-01-01T00:00:00Z");
    Concept {
        id: String::new(),
        memoir_id: memoir_name.to_string(),
        name: name.to_string(),
        definition: "initial definition".to_string(),
        labels: Vec::new(),
        source_memory_ids: Vec::new(),
        revision: 1,
        last_episode_id: None,
        created_at: made,
        updated_at: made,
        living_summary: None,
        living_summary_updated_at: None,
        living_summary_source_revision: None,
        living_summary_id: None,
    }
}

fn make_revision(revision: u32, definition: &str) -> ConceptRevision {
    ConceptRevision {
        revision,
        definition: definition.to_string(),
        episode_id: None,
        created_at: at("2026-01-02T03:04:05Z"),
    }
}

#[test]
fn build_concept_summary_prompt_with_cap_truncates_cjk_safely() {
    let mut concept = make_concept("test-memoir", "bounded-concept");
    concept.id = "concept-bounded".to_string();
    concept.definition = "当前定义".repeat(300);
    let revisions = vec![
        make_revision(1, &"旧版本事实".repeat(300)),
        make_revision(2, &"第二版事实".repeat(300)),
    ];
    let prompt = build_concept_summary_prompt_with_cap(&concept, &revisions, 512);
    assert!(
        prompt.chars().count() <= 512,
        "prompt must honor max_input_chars using char count"
    );
    assert!(prompt.contains("Concept: bounded-concept"));
    assert!(prompt.is_char_boundary(prompt.len()));
}

#[test]
fn revisions_end_their_line() {
    assert_eq!(show_revision(2, "then", "text"), "--- Revision #2 (created then) ---\ntext\n");
    assert_eq!(show_revision(2, "then", "text\n"), "--- Revision #2 (created then) ---\ntext\n");
    assert_eq!(show_revision(3, "", ""), "--- Revision #3 (created ) ---\n\n");
}

#[test]
fn prompt_names_every_revision() {
    let concept = make_concept("m", "c");
    let prompt = build_concept_summary_prompt(&concept, &vec![make_revision(7, "was so")]);
    assert_eq!(
        prompt,
        "Concept: c\n\nCurrent definition (revision 1):\ninitial definition\n\nRevision history (oldest first):\n--- Revision #7 (created 2026-01-02T03:04:05+00:00) ---\nwas so\n\nNow produce the 3-to-5-sentence current-state summary."
    );
    assert_eq!(cap_concept_summary_prompt("short".to_string(), 100), "short");
}

#[test]
fn stale_source_revision_does_not_write_living_summary() {
    let mut concept = make_concept("test-memoir", "stale-concept");
    // A refinement has raised the revision since.
    concept.definition = "updated definition".to_string();
    concept.revision = 2;
    let now = at("2026-02-01T00:00:00Z");
    let wrote = write_living_summary_if_revision_unchanged(
        &mut concept,
        1,
        None,
        &None,
        "stale summary",
        "cs_test_stale",
        now,
    );
    assert!(!wrote, "stale source revision must not update the concept");
    assert_eq!(concept.revision, 2);
    assert!(concept.living_summary.is_none());
    let wrote = write_living_summary_if_revision_unchanged(
        &mut concept,
        2,
        None,
        &None,
        "fresh summary",
        "cs_test_fresh",
        now,
    );
    assert!(wrote, "matching source revision should update the concept");
    assert_eq!(concept.living_summary.as_deref(), Some("fresh summary"));
    assert_eq!(concept.living_summary_source_revision, Some(2));
}

#[test]
fn concurrent_first_refresh_loser_does_not_overwrite_winner() {
    let mut concept = make_concept("test-memoir", "race-concept");
    let now = at("2026-02-01T00:00:00Z");
    assert!(write_living_summary_if_revision_unchanged(
        &mut concept,
        1,
        None,
        &None,
        "winner summary",
        "cs_test_winner_first",
        now,
    ));
    let loser_wrote = write_living_summary_if_revision_unchanged(
        &mut concept,
        1,
        None,
        &None,
        "loser summary",
        "cs_test_loser_first",
        now,
    );
    assert!(!loser_wrote, "loser must not overwrite winner");
    assert_eq!(concept.living_summary.as_deref(), Some("winner summary"));
    assert_eq!(concept.living_summary_source_revision, Some(1));
}

#[test]
fn concurrent_steady_state_refresh_loser_does_not_overwrite_winner() {
    let mut concept = make_concept("test-memoir", "race-concept-steady");
    let now = at("2026-02-01T00:00:00Z");
    assert!(write_living_summary_if_revision_unchanged(
        &mut concept,
        1,
        None,
        &None,
        "initial",
        "cs_test_initial",
        now,
    ));
    concept.revision = 5;
    assert!(write_living_summary_if_revision_unchanged(
        &mut concept,
        5,
        Some(1),
        &Some("cs_test_initial".to_string()),
        "winner",
        "cs_test_winner_steady",
        now,
    ));
    assert!(!write_living_summary_if_revision_unchanged(
        &mut concept,
        5,
        Some(1),
        &Some("cs_test_initial".to_string()),
        "loser",
        "cs_test_loser_steady",
        now,
    ));
    assert_eq!(concept.living_summary.as_deref(), Some("winner"));
    assert_eq!(concept.living_summary_source_revision, Some(5));
    assert_eq!(concept.living_summary_id.as_deref(), Some("cs_test_winner_steady"));
    assert_eq!(concept.living_summary_updated_at, Some(now));
}

const COLD_START_N: u64 = 10;
const THRESHOLD: f64 = 0.5;

fn bucket(cluster_id: i64, query_type: &str, viewed: u64, rate: f64) -> Vec<SummaryBucket> {
    vec![SummaryBucket {
        cluster_id: Some(cluster_id),
        query_type: query_type.to_string(),
        viewed_count: viewed,
        explicit_up: 0,
        explicit_down: 0,
        llm_judge_count: 0,
        useful: rate >= THRESHOLD,
    }]
}

#[test]
fn second_refresh_of_the_same_revision_does_not_overwrite_the_first() {
    // The concept already has a summary of its present revision, and two
    // refreshes that both found that one end one after the other.
    let mut concept = make_concept("test-memoir", "race-concept-same-revision");
    let now = at("2026-02-01T00:00:00Z");
    assert!(write_living_summary_if_revision_unchanged(
        &mut concept,
        1,
        None,
        &None,
        "initial",
        "cs_i",
        now,
    ));
    let found = Some("cs_i".to_string());
    assert!(write_living_summary_if_revision_unchanged(
        &mut concept,
        1,
        Some(1),
        &found,
        "winner",
        "cs_w",
        now,
    ));
    assert!(!write_living_summary_if_revision_unchanged(
        &mut concept,
        1,
        Some(1),
        &found,
        "loser",
        "cs_l",
        now,
    ));
    assert_eq!(concept.living_summary.as_deref(), Some("winner"));
    assert_eq!(concept.living_summary_id.as_deref(), Some("cs_w"));
    assert_eq!(concept.living_summary_source_revision, Some(1));
}

#[test]
fn decide_concept_summary_cold_start_no_state_returns_yes() {
    let d = decide_concept_summary_quality(true, Some(42), "Semantic", None, COLD_START_N, true);
    assert_eq!(d, ConceptSummaryDecision::Yes);
}

#[test]
fn decide_concept_summary_cold_start_no_feedback_state_returns_yes() {
    let state = vec![];
    let d = decide_concept_summary_quality(
        true,
        Some(42),
        "Semantic",
        Some(&state),
        COLD_START_N,
        true,
    );
    assert_eq!(d, ConceptSummaryDecision::Yes);
}

#[test]
fn decide_concept_summary_cold_start_no_cluster_id_returns_yes() {
    let state = bucket(42, "Semantic", 100, 0.0);
    let d =
        decide_concept_summary_quality(true, None, "Semantic", Some(&state), COLD_START_N, true);
    assert_eq!(d, ConceptSummaryDecision::Yes);
}

#[test]
fn decide_concept_summary_cold_start_insufficient_samples_returns_yes() {
    let state = bucket(42, "Semantic", COLD_START_N - 1, 0.0);
    let d = decide_concept_summary_quality(
        true,
        Some(42),
        "Semantic",
        Some(&state),
        COLD_START_N,
        true,
    );
    assert_eq!(d, ConceptSummaryDecision::Yes);
}

#[test]
fn decide_concept_summary_warm_cluster_above_threshold_returns_yes() {
    let state = bucket(42, "Semantic", 100, 0.7);
    let d = decide_concept_summary_quality(
        true,
        Some(42),
        "Semantic",
        Some(&state),
        COLD_START_N,
        true,
    );
    assert_eq!(d, ConceptSummaryDecision::Yes);
}

#[test]
fn decide_concept_summary_warm_cluster_below_threshold_returns_skip_adaptive() {
    let state = bucket(42, "Semantic", 100, 0.2);
    let d = decide_concept_summary_quality(
        true,
        Some(42),
        "Semantic",
        Some(&state),
        COLD_START_N,
        true,
    );
    assert_eq!(d, ConceptSummaryDecision::Skip(ConceptSummarySkipReason::AdaptiveDecision));
}

#[test]
fn decide_concept_summary_operator_disabled_overrides_adaptive() {
    let state = bucket(42, "Semantic", 100, 0.99);
    let d = decide_concept_summary_quality(
        false,
        Some(42),
        "Semantic",
        Some(&state),
        COLD_START_N,
        true,
    );
    assert_eq!(d, ConceptSummaryDecision::Skip(ConceptSummarySkipReason::OperatorDisabled));
}

#[test]
fn decide_concept_summary_query_type_partition_isolates_buckets() {
    let state = bucket(42, "Episodic", 100, 0.1);
    let d = decide_concept_summary_quality(
        true,
        Some(42),
        "Semantic",
        Some(&state),
        COLD_START_N,
        true,
    );
    assert_eq!(
        d,
        ConceptSummaryDecision::Yes,
        "different query_type must route to its own bucket (cold-start Yes)"
    );
}

#[test]
fn decide_concept_summary_custom_cold_start_n() {
    let state = bucket(42, "Semantic", 5, 0.1);
    let cold =
        decide_concept_summary_quality(true, Some(42), "Semantic", Some(&state), 10, true);
    assert_eq!(cold, ConceptSummaryDecision::Yes, "cold_start_n=10 not met (only 5 views) → Yes");
    let warm = decide_concept_summary_quality(true, Some(42), "Semantic", Some(&state), 2, true);
    assert_eq!(
        warm,
        ConceptSummaryDecision::Skip(ConceptSummarySkipReason::AdaptiveDecision),
        "cold_start_n=2 met and rate below threshold → Skip"
    );
}

#[test]
fn judge_without_weight_does_not_warm_a_bucket() {
    let mut state = bucket(42, "Semantic", 0, 0.0);
    state[0].llm_judge_count = 100;
    let with = decide_concept_summary_quality(true, Some(42), "Semantic", Some(&state), 10, true);
    assert_eq!(with, ConceptSummaryDecision::Skip(ConceptSummarySkipReason::AdaptiveDecision));
    let without =
        decide_concept_summary_quality(true, Some(42), "Semantic", Some(&state), 10, false);
    assert_eq!(without, ConceptSummaryDecision::Yes);
    assert_eq!(find_bucket(&state, Some(42), "Semantic"), Some(0));
    assert_eq!(find_bucket(&state, None, "Semantic"), None);
    assert!(!samples_at_warm_rate(Some(&state[0]), 1));
    assert!(samples_at_warm_rate(None, 0));
}

#[test]
fn judge_input_keeps_to_its_limit() {
    let (prompt, candidate) = cap_judge_input(&"p".repeat(100_000), &"c".repeat(100_000), 20_000);
    assert!(prompt.chars().count() + candidate.chars().count() <= 20_000);
    assert!(!candidate.is_empty() && !prompt.is_empty());
    let (prompt, candidate) = cap_judge_input("p", "c", 20_000);
    assert_eq!((prompt.as_str(), candidate.as_str()), ("p", "c"));
}

#[test]
fn judge_jobs_are_made_as_sampled() {
    let plan = |sampled: bool, nightly: bool| {
        enqueue_judge_for_concept_summary(
            "cs_1",
            "con",
            "prompt",
            "candidate that is too long",
            36,
            "hash".to_string(),
            sampled,
            nightly,
            99,
        )
    };
    let none = plan(false, false);
    assert!(none.job.is_none() && none.archived.is_none());
    assert_eq!(none.cached.summary_id, "cs_1");
    let both = plan(true, true);
    let job = both.job.expect("sampled");
    assert_eq!(job.kind, "concept_summary");
    assert_eq!(job.surface_id, "cs_1");
    assert_eq!(job.prompt, "prompt");
    assert_eq!(job.candidate, "candidate", "cut to a quarter of the limit");
    assert_eq!(both.cached.candidate, "candidate");
    let entry = both.archived.expect("archived");
    assert_eq!(entry.surface, CronArchiveSurface::ConceptSummary);
    assert_eq!((entry.id.as_str(), entry.minted_at), ("cs_1", 99));
    assert_eq!(entry.sources, vec!["prompt".to_string()]);
}

#[test]
fn batch_is_limited_and_a_single_concept_is_not_skipped() {
    let (order, skipped) = select_eligible(&vec![false, true, true], false);
    assert_eq!((order, skipped), (vec![1, 2], 0));
    assert_eq!(select_eligible(&vec![false], true), (vec![], 1));
    assert_eq!(select_eligible(&vec![], true), (vec![], 1), "no such concept");
    assert_eq!(select_eligible(&vec![true], true), (vec![0], 0));
    let (outcome, todo) = run_concept_summary_with_extractor(true, 5, 2, false, 3);
    assert_eq!(todo, 3);
    assert_eq!(outcome.skipped_not_eligible, 2);
    let (outcome, todo) = run_concept_summary(true, 5, 0, false, false, 3);
    assert!(outcome.skipped_no_llm);
    assert_eq!(todo, 0);
    let (outcome, todo) = run_concept_summary(false, 5, 0, true, true, 3);
    assert!(outcome.skipped_disabled);
    assert_eq!((todo, outcome.attempted), (0, 0));
}

#[test]
fn outcomes_are_counted() {
    let (mut outcome, _) = run_concept_summary_with_extractor(true, 3, 0, false, 3);
    outcome.tally(SummaryResult::Stored("cs_1".to_string()));
    outcome.tally(SummaryResult::LlmFailed);
    assert_eq!((outcome.succeeded, outcome.llm_failed), (1, 1));
    assert_eq!(outcome.minted_summary_ids, vec!["cs_1"]);
}

#[test]
fn answers_and_ids() {
    assert_eq!(summary_in_answer("  text \n").as_deref(), Some("text"));
    assert_eq!(summary_in_answer("  \n"), None);
    assert_eq!(summary_id("01ABC"), "cs_01ABC");
    assert!(stale_write_error("con-1").contains("con-1"));
    let e = refresh_event("con-1");
    assert_eq!(e.event_type, EventType::ConceptSummaryRefreshed);
    assert_eq!(e.concept_id.as_deref(), Some("con-1"));
}

#[test]
fn refresh_sample_counts_from_the_last_summary() {
    let mut concept = make_concept("m", "c");
    concept.revision = 4;
    let now = at("2026-01-01T00:01:00Z");
    let first = refresh_sample(&concept, &now, "cs");
    assert!(first.first_refresh);
    assert_eq!((first.revisions_since_last, first.age_secs_since_last), (4, 60));
    concept.living_summary_source_revision = Some(3);
    concept.living_summary_updated_at = Some(at("2026-01-01T00:02:00Z"));
    let later = refresh_sample(&concept, &now, "cs");
    assert!(!later.first_refresh);
    assert_eq!((later.revisions_since_last, later.age_secs_since_last), (1, 0));
    concept.living_summary_source_revision = Some(9);
    let behind = sample_of_age(&concept, 7, "cs");
    assert_eq!((behind.revisions_since_last, behind.age_secs_since_last), (0, 7));
    assert_eq!(sample_of_age(&concept, -7, "cs").age_secs_since_last, 0);
}
