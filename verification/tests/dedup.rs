//! Deduplication: unique lines, merging, resolving a pair, the lexical scan and
//! the vector sweep.

use rein_ops::dedup::merge::{
    absorb_content, absorb_memory, clean_facts, extract_unique_lines, keep_new_lines, merge_batch_duplicate, merge_keywords,
    merge_memory_into_winner, merge_vector_duplicate, provenance_block, MergeNotes,
};
use rein_ops::dedup::resolve::{
    batch_decision, commit_failure, dedup_canonical_gate, dedup_job_gate, link_to,
    record_dedup_artifacts, resolve_dedup_job, savepoint_name, update_from_older,
    verdict_or_distinct, DedupPlan, DedupVerdict,
};
use rein_ops::dedup::scan::{
    build_candidate_pairs, none_bucket, retain_live, run_dedup_scoped, DedupTally, ScanAction,
    ScanEvent,
};
use rein_ops::dedup::sweep::{
    classify_candidate, discarded_date, keeps_candidate, run_vec_dedup,
    run_vec_dedup_with_embedder, CandidateClass, CandidateInfo, RowAction, RowEvent, SweepTally,
    VecCandidate, VecRow,
};
use rein_ops::dedup::vector::{
    build_none_bucket_ann_candidates, embedding_chunks, none_bucket_ann_threshold,
    none_bucket_neighbor_limit, take_vec_dedup_window, uses_embeddings, vec_dedup_embed_batch_size,
    vec_dedup_llm_budget, vec_dedup_pending_limit, vec_dedup_run_limit, DedupLimits, VecDedupItem,
    VectorHits,
};
use rein_ops::events::{cleanup_event, EventType};
use rein_ops::time::{parse_rfc3339, Timestamp};
use rein_ops::types::{DedupRelation, Importance, Memory, MemoryStatus, MemoryTier};

fn at(text: &str) -> Timestamp {
    parse_rfc3339(text).expect("readable instant")
}

fn test_memory(id: &str, topic: &str, content: &str) -> Memory {
    let made = at("2026-03-04T05:06:07Z");
    Memory {
        id: id.to_string(),
        topic: topic.to_string(),
        summary: content.chars().take(50).collect(),
        content: content.to_string(),
        keywords: vec![],
        importance: Importance::Medium,
        access_count: 0,
        superseded_by: None,
        canonical_id: None,
        related_ids: vec![],
        status: MemoryStatus::Active,
        tier: MemoryTier::Warm,
        cluster_id: None,
        created_at: made,
        updated_at: made,
        last_accessed: made,
    }
}

fn test_memory_with_cluster(id: &str, topic: &str, content: &str, cluster: u32) -> Memory {
    let mut m = test_memory(id, topic, content);
    m.cluster_id = Some(cluster);
    m
}

fn default_limits() -> DedupLimits {
    DedupLimits { batch_size: 8, max_jobs_per_run: 50, llm_budget: 10 }
}

/// Share of common words, standing for the lexical similarity.
fn similarity(a: &str, b: &str) -> f64 {
    let left: Vec<&str> = a.split_whitespace().collect();
    let right: Vec<&str> = b.split_whitespace().collect();
    let common = left.iter().filter(|w| right.contains(w)).count();
    2.0 * common as f64 / (left.len() + right.len()) as f64
}

/// Runs the scan over all live memories and writes what it asks for.
fn run_dedup(memories: &mut Vec<Memory>, threshold: f64, dry_run: bool) -> (u32, u32, usize) {
    let group = retain_live(memories.clone());
    run_dedup_on(memories, &group, threshold, dry_run)
}

/// Runs the scan over a group and writes what it asks for.
fn run_dedup_on(
    memories: &mut Vec<Memory>,
    group: &Vec<Memory>,
    threshold: f64,
    dry_run: bool,
) -> (u32, u32, usize) {
    let now = at("2026-05-01T00:00:00Z");
    let tally = DedupTally { found: 0, merged: 0, llm_calls: 0 };
    let mut decisions = 0;
    let mut scan = run_dedup_scoped(group, &vec![], dry_run, &default_limits(), tally);
    scan.step(ScanEvent::Start);
    loop {
        match scan.action() {
            ScanAction::Compare { first, second } => {
                let score = similarity(&group[first].content, &group[second].content);
                scan.step(ScanEvent::Score { duplicate: score >= threshold, gray_zone: false });
            }
            ScanAction::Judge { .. } => scan.step(ScanEvent::Verdict(DedupRelation::Distinct)),
            ScanAction::Merge { winner, loser, relation, number } => {
                assert_eq!(savepoint_name(number), format!("dedup_{number}"));
                let decision = batch_decision(&group[winner], None, &group[loser], relation);
                assert_eq!(decision.winner_id.as_deref(), Some(group[winner].id.as_str()));
                decisions += 1;
                let at_winner = memories.iter().position(|m| m.id == group[winner].id).unwrap();
                let at_loser = memories.iter().position(|m| m.id == group[loser].id).unwrap();
                let merged = merge_batch_duplicate(
                    &memories[at_winner],
                    &group[winner].content,
                    &group[loser],
                    now,
                );
                memories[at_winner] = merged;
                memories[at_loser].superseded_by = Some(group[winner].id.clone());
                scan.step(ScanEvent::Merged);
            }
            ScanAction::Finish => break,
        }
    }
    assert_eq!(scan.tally().changed(), scan.tally().merged > 0);
    (scan.tally().found, scan.tally().merged, decisions)
}

const DOCKER_1: &str =
    "deploy the application using docker compose up with the production config";
const DOCKER_2: &str =
    "deploy the application using docker compose up with the production configuration";

fn superseded(memories: &[Memory]) -> usize {
    memories.iter().filter(|m| m.superseded_by.is_some()).count()
}

#[test]
fn test_run_dedup_finds_and_merges_duplicates() {
    let mut memories =
        vec![test_memory("m1", "docker", DOCKER_1), test_memory("m2", "docker", DOCKER_2)];
    let (found, merged, _) = run_dedup(&mut memories, 0.70, false);
    assert_eq!(found, 1, "should find 1 duplicate pair");
    assert_eq!(merged, 1, "should merge 1 duplicate pair");
    assert_eq!(superseded(&memories), 1, "exactly one memory should be superseded");
}

#[test]
fn test_run_dedup_dry_run_does_not_modify() {
    let mut memories =
        vec![test_memory("m1", "docker", DOCKER_1), test_memory("m2", "docker", DOCKER_2)];
    let (found, merged, _) = run_dedup(&mut memories, 0.70, true);
    assert_eq!(found, 1, "should find 1 duplicate pair in dry run");
    assert_eq!(merged, 0, "should merge 0 in dry run");
    assert_eq!(superseded(&memories), 0);
}

#[test]
fn test_run_dedup_cluster_grouping() {
    let mut memories = vec![
        test_memory_with_cluster("a", "infra", DOCKER_1, 1),
        test_memory_with_cluster("b", "infra", DOCKER_2, 1),
        test_memory_with_cluster(
            "c",
            "infra",
            "scale the kubernetes pods using kubectl scale deployment app replicas three",
            2,
        ),
        test_memory_with_cluster(
            "d",
            "infra",
            "scale the kubernetes pods using kubectl scale deployment app replicas to three",
            2,
        ),
    ];
    let (found, merged, _) = run_dedup(&mut memories, 0.70, false);
    assert_eq!(found, 2, "should find 2 within-cluster duplicate pairs");
    assert_eq!(merged, 2, "should merge 2 within-cluster duplicate pairs");
}

#[test]
fn pairs_under_the_threshold_are_left_alone() {
    let left = "alpha bravo charlie delta echo";
    let right = "alpha bravo charlie foxtrot golf";
    let score = similarity(left, right);
    assert!(score > 0.45 && score < 0.85, "got {score}");
    let mut memories = vec![
        test_memory_with_cluster("a", "threshold-floor", left, 7),
        test_memory_with_cluster("b", "threshold-floor", right, 7),
    ];
    let (found, merged, _) = run_dedup(&mut memories, 0.85, true);
    assert_eq!(found, 0);
    assert_eq!(merged, 0);
}

#[test]
fn test_take_vec_dedup_window_caps_processing() {
    let pending: Vec<VecDedupItem> = (0..20)
        .map(|i| {
            (
                format!("id-{i}"),
                "topic".to_string(),
                format!("summary-{i}"),
                format!("content-{i}"),
            )
        })
        .collect();
    let (window, skipped) = take_vec_dedup_window(pending, &default_limits());
    assert_eq!(window.len(), 16);
    assert_eq!(skipped, 4);
}

#[test]
fn test_run_dedup_scoped_limits_to_selected_group() {
    let mut store = vec![
        test_memory("l1", "docker", DOCKER_1),
        test_memory("l2", "docker", DOCKER_2),
        test_memory("r1", "kubernetes", "scale the kubernetes deployment to three replicas"),
        test_memory("r2", "kubernetes", "scale the kubernetes deployment to 3 replicas"),
    ];
    let selected: Vec<Memory> = store.iter().filter(|m| m.topic == "docker").cloned().collect();
    let (found, merged, _) = run_dedup_on(&mut store, &retain_live(selected), 0.70, false);
    assert_eq!(found, 1);
    assert_eq!(merged, 1);
    let left: Vec<Memory> = store.iter().filter(|m| m.topic == "docker").cloned().collect();
    let right: Vec<Memory> = store.iter().filter(|m| m.topic == "kubernetes").cloned().collect();
    assert_eq!(superseded(&left), 1, "selected group should be deduplicated");
    assert_eq!(superseded(&right), 0, "non-selected group must remain untouched");
    // Selected in its turn, the other group is deduplicated too.
    let (found, merged, _) = run_dedup_on(&mut store, &retain_live(right), 0.70, false);
    assert_eq!((found, merged), (1, 1));
}

#[test]
fn test_build_none_bucket_ann_candidates_uses_vector_neighbors() {
    let ids: Vec<String> = (0..40).map(|i| format!("m{i}")).collect();
    let indices: Vec<usize> = (0..40).collect();
    // The first two memories have the same embedding; the search for one finds
    // itself and the other.
    let hits: Vec<VectorHits> = vec![(0, vec!["m0".to_string(), "m1".to_string()])];
    let neighbors = build_none_bucket_ann_candidates(&ids, &indices, &hits, &default_limits());
    assert!(
        neighbors[0].contains(&1),
        "ANN candidate graph should connect close unclustered memories"
    );
    assert!(neighbors[1].contains(&0), "being neighbours goes both ways");
    assert!(neighbors[2].is_empty());
}

#[test]
fn few_unclustered_memories_are_all_compared() {
    let ids: Vec<String> = (0..32).map(|i| format!("m{i}")).collect();
    let indices: Vec<usize> = (0..32).collect();
    let hits: Vec<VectorHits> = vec![(0, vec!["m1".to_string()])];
    let neighbors = build_none_bucket_ann_candidates(&ids, &indices, &hits, &default_limits());
    assert!(neighbors.iter().all(|v| v.is_empty()), "32 is four times the batch size");
}

#[test]
fn hits_outside_the_bucket_are_ignored() {
    let ids: Vec<String> = (0..6).map(|i| format!("m{i}")).collect();
    let limits = DedupLimits { batch_size: 1, max_jobs_per_run: 1, llm_budget: 1 };
    let hits: Vec<VectorHits> =
        vec![(4, vec!["m5".to_string(), "gone".to_string(), "m2".to_string()])];
    let neighbors =
        build_none_bucket_ann_candidates(&ids, &vec![0, 1, 2, 3, 4], &hits, &limits);
    assert_eq!(neighbors[4], vec![2]);
    assert_eq!(neighbors[2], vec![4]);
    assert!(neighbors[5].is_empty());
}

#[test]
fn test_run_dedup_savepoint_atomicity() {
    let mut memories =
        vec![test_memory("m1", "docker", DOCKER_1), test_memory("m2", "docker", DOCKER_2)];
    let (_found, merged, decisions) = run_dedup(&mut memories, 0.70, false);
    assert_eq!(merged, 1);
    let loser = memories.iter().position(|m| m.superseded_by.is_some()).expect("a loser");
    let winner = 1 - loser;
    assert_eq!(
        memories[loser].superseded_by.as_deref(),
        Some(memories[winner].id.as_str()),
        "loser should point to winner"
    );
    assert_eq!(decisions, 1);
}

#[test]
fn failed_merge_is_not_counted_and_not_tried_again() {
    let group =
        vec![test_memory("m1", "docker", DOCKER_1), test_memory("m2", "docker", DOCKER_2)];
    let tally = DedupTally { found: 0, merged: 0, llm_calls: 0 };
    let mut scan = run_dedup_scoped(&group, &vec![], false, &default_limits(), tally);
    scan.step(ScanEvent::Start);
    assert_eq!(scan.action(), ScanAction::Compare { first: 0, second: 1 });
    scan.step(ScanEvent::Score { duplicate: true, gray_zone: true });
    assert_eq!(
        scan.action(),
        ScanAction::Merge {
            winner: 1,
            loser: 0,
            relation: DedupRelation::Duplicate,
            number: 1
        },
        "the longer content wins"
    );
    scan.step(ScanEvent::MergeFailed);
    assert_eq!(scan.action(), ScanAction::Finish);
    assert_eq!((scan.tally().found, scan.tally().merged), (1, 0));
}

#[test]
fn judge_is_asked_in_the_gray_zone_until_the_budget_is_spent() {
    let group: Vec<Memory> =
        (0..3).map(|i| test_memory(&format!("m{i}"), "t", &format!("text {i}"))).collect();
    let limits = DedupLimits { batch_size: 8, max_jobs_per_run: 50, llm_budget: 1 };
    let tally = DedupTally { found: 0, merged: 0, llm_calls: 0 };
    let mut scan = run_dedup_scoped(&group, &vec![], false, &limits, tally);
    scan.step(ScanEvent::Start);
    scan.step(ScanEvent::Score { duplicate: false, gray_zone: true });
    assert_eq!(scan.action(), ScanAction::Judge { first: 0, second: 1 });
    scan.step(ScanEvent::Verdict(DedupRelation::Update));
    assert!(matches!(
        scan.action(),
        ScanAction::Merge { relation: DedupRelation::Update, winner: 1, loser: 0, .. }
    ));
    scan.step(ScanEvent::SavepointFailed);
    assert_eq!(scan.action(), ScanAction::Compare { first: 0, second: 2 });
    scan.step(ScanEvent::Score { duplicate: false, gray_zone: true });
    assert_eq!(scan.action(), ScanAction::Compare { first: 1, second: 2 });
    scan.step(ScanEvent::Score { duplicate: false, gray_zone: false });
    assert_eq!(scan.action(), ScanAction::Finish);
    assert_eq!(scan.tally(), DedupTally { found: 1, merged: 0, llm_calls: 1 });
}

#[test]
fn merged_memory_is_not_compared_again() {
    let group: Vec<Memory> =
        (0..3).map(|i| test_memory(&format!("m{i}"), "t", &format!("text {i}"))).collect();
    let tally = DedupTally { found: 0, merged: 0, llm_calls: 0 };
    let mut scan = run_dedup_scoped(&group, &vec![], false, &default_limits(), tally);
    scan.step(ScanEvent::Start);
    scan.step(ScanEvent::Score { duplicate: true, gray_zone: true });
    scan.step(ScanEvent::Merged);
    // The first memory lost to the second; only the second and third are left.
    assert_eq!(scan.action(), ScanAction::Compare { first: 1, second: 2 });
}

#[test]
fn candidate_pairs_stay_within_clusters() {
    let clusters = vec![Some(1), None, Some(2), Some(1), None, Some(1)];
    assert_eq!(
        build_candidate_pairs(&clusters, &vec![]),
        vec![(0, 3), (0, 5), (3, 5), (1, 4)]
    );
    let ann = vec![vec![], vec![], vec![], vec![], vec![1], vec![]];
    // A memory with neighbours is compared with the later of them only.
    assert_eq!(build_candidate_pairs(&vec![None; 6], &ann).len(), 14);
}

#[test]
fn superseded_memories_are_left_out_of_a_scan() {
    let mut a = test_memory("a", "t", "x");
    a.superseded_by = Some("b".to_string());
    let live = retain_live(vec![a, test_memory("b", "t", "y")]);
    assert_eq!(live.len(), 1);
    assert_eq!(live[0].id, "b");
    let mut c = test_memory("c", "t", "z");
    c.cluster_id = Some(3);
    assert_eq!(none_bucket(&vec![c, live[0].clone()]), vec![1]);
}

#[test]
fn test_merge_memory_into_winner_basic() {
    let mut winner = test_memory("w", "docker", "deploy with docker compose up");
    winner.keywords = vec!["docker".to_string(), "deploy".to_string()];
    let mut loser =
        test_memory("l", "docker", "deploy with docker compose up and custom network settings");
    loser.keywords = vec!["docker".to_string(), "network".to_string()];
    let existing = winner.clone();
    let notes = MergeNotes { novel_facts: vec![], merged_summary: None };
    let now = at("2026-05-01T00:00:00Z");
    let merged = merge_memory_into_winner(Some(&existing), "w", &mut loser, &notes, now, 200)
        .expect("merged");
    assert_eq!(loser.superseded_by.as_deref(), Some("w"));
    assert!(merged.content.contains("[merged from"), "got: {}", merged.content);
    assert!(merged.keywords.contains(&"network".to_string()), "got: {:?}", merged.keywords);
    assert_eq!(
        merged.content,
        "deploy with docker compose up\n\n[merged from l on 2026-03-04]\ndeploy with docker compose up and custom network settings"
    );
    assert_eq!(merged.keywords, vec!["docker", "deploy", "network"]);
    assert_eq!(merged.access_count, 1);
    assert_eq!(merged.updated_at, now);
}

#[test]
fn merge_prefers_facts_and_summary_of_the_verdict() {
    let winner = test_memory("w", "t", "one");
    let mut loser = test_memory("l", "t", "two");
    loser.importance = Importance::Critical;
    loser.tier = MemoryTier::Hot;
    loser.access_count = u32::MAX;
    let notes = MergeNotes {
        novel_facts: vec!["  fact  ".to_string(), " ".to_string()],
        merged_summary: Some("  both  ".to_string()),
    };
    let now = at("2026-05-01T00:00:00Z");
    let merged = absorb_memory(&winner, &loser, &notes, now, 200);
    assert_eq!(merged.content, "one\n\n[merged from l on 2026-03-04]\nfact");
    assert_eq!(merged.summary, "both");
    assert_eq!(merged.importance, Importance::Critical);
    assert_eq!(merged.tier, MemoryTier::Hot);
    assert_eq!(merged.access_count, u32::MAX);
    let none = MergeNotes { novel_facts: vec![], merged_summary: Some(" ".to_string()) };
    let merged = absorb_memory(&winner, &loser, &none, now, 2);
    assert_eq!(merged.summary, "on");
}

#[test]
fn test_merge_memory_into_winner_rollback_on_missing_winner() {
    let mut loser = test_memory("l", "docker", "some content for the loser memory");
    let notes = MergeNotes { novel_facts: vec![], merged_summary: None };
    let now = at("2026-05-01T00:00:00Z");
    let result =
        merge_memory_into_winner(None, "nonexistent-winner-id", &mut loser, &notes, now, 200);
    assert!(result.is_err(), "should return Err for missing winner");
    assert!(loser.superseded_by.is_none(), "loser should not be superseded after rollback");
    assert_eq!(loser.content, "some content for the loser memory");
    // Nor is a job resolved whose existing memory is gone.
    assert_eq!(dedup_job_gate(None, Some(&loser)), Some(DedupRelation::Distinct));
}

#[test]
fn test_extract_unique_lines_basic() {
    let source = "line A\nline B\nline C\nline D";
    let target = "line A\nline C\nline E";
    let unique = extract_unique_lines(source, target);
    assert!(unique.contains("line B"), "should keep unique line B");
    assert!(unique.contains("line D"), "should keep unique line D");
    assert!(!unique.contains("line A"), "should exclude shared line A");
    assert!(!unique.contains("line C"), "should exclude shared line C");
}

#[test]
fn extract_unique_lines_does_not_drop_substring_matches() {
    let source = "Stop\nA short note\nDistinct fact";
    let target = "Stopwatch measurements were logged.\nUnrelated text that mentions a short-note in prose.\n";
    let unique = extract_unique_lines(source, target);
    assert!(unique.contains("Stop"), "short line 'Stop' must be preserved");
    assert!(
        unique.contains("A short note"),
        "distinct multi-word line must be preserved even if its hyphenated form appears inside another word"
    );
    assert!(unique.contains("Distinct fact"));
}

#[test]
fn later_merges_of_a_scan_lose_no_line() {
    let seen = "shared\nown";
    let winner = test_memory("w", "docker", seen);
    let first = test_memory("l1", "docker", "shared\nfirst");
    let second = test_memory("l2", "docker", "own\nsecond\nfirst");
    let now = at("2026-05-01T00:00:00Z");
    let once = merge_batch_duplicate(&winner, seen, &first, now);
    // The scan still holds the content that it read at first.
    let twice = merge_batch_duplicate(&once, seen, &second, now);
    for line in ["shared", "own", "first", "second"] {
        assert!(twice.content.lines().any(|l| l == line), "{line} is lost");
    }
    assert!(twice.content.starts_with(&once.content));
}

#[test]
fn appended_unique_lines_are_found_again() {
    let source = "one\r\n Two \nthree\n\ntwo";
    let target = "ONE\nother\n";
    let unique = extract_unique_lines(source, target);
    assert_eq!(unique, " Two \nthree\ntwo");
    assert_eq!(extract_unique_lines(source, &format!("{target}\n{unique}")), "");
}

#[test]
fn extract_unique_lines_drops_exact_duplicate_lines() {
    let source = "line A\nline B\n";
    let target = "line A\nother\n";
    let unique = extract_unique_lines(source, target);
    assert!(!unique.contains("line A"));
    assert!(unique.contains("line B"));
}

#[test]
fn unique_lines_ignore_case_blanks_and_markers() {
    let source = "  ÄPFEL \r\n\n[merged from x on 2026-01-01]\n [merged on 2026]\nkeep me \n";
    assert_eq!(extract_unique_lines(source, "äpfel"), "keep me ");
    assert_eq!(extract_unique_lines("", "x"), "");
}

#[test]
fn lines_are_new_by_their_key() {
    let texts = |v: &[&str]| v.iter().map(|s| s.to_string()).collect::<Vec<String>>();
    let lines = texts(&["One", "  ", "[merged from x on y]", " two ", "three"]);
    let keys = texts(&["k1", "", "k2", "k3", "k4"]);
    assert_eq!(keep_new_lines(&lines, &keys, &texts(&["k4"])), texts(&["One", " two "]));
    assert!(keep_new_lines(&lines, &keys, &keys).is_empty());
}

#[test]
fn merging_twice_adds_nothing() {
    let once = absorb_content("a\nb", "id", "b\nc\nd", "2026-01-01", &vec![]);
    assert_eq!(once, "a\nb\n\n[merged from id on 2026-01-01]\nc\nd");
    assert_eq!(absorb_content(&once, "id", "b\nc\nd", "2026-01-01", &vec![]), once);
    for line in ["a", "b", "c", "d"] {
        assert!(once.lines().any(|l| l == line), "{line} must not be lost");
    }
    assert_eq!(
        provenance_block("x", "2026-01-01", "body"),
        "\n\n[merged from x on 2026-01-01]\nbody"
    );
}

#[test]
fn keywords_are_united_once() {
    let mut into = vec!["a".to_string()];
    let from = vec!["b".to_string(), "a".to_string(), "b".to_string()];
    merge_keywords(&mut into, &from);
    assert_eq!(into, vec!["a", "b"]);
    merge_keywords(&mut into, &from);
    assert_eq!(into, vec!["a", "b"]);
    assert_eq!(clean_facts(&vec![" x ".to_string(), "\t".to_string()]), vec!["x"]);
}

fn verdict(relation: DedupRelation) -> DedupVerdict {
    DedupVerdict {
        relation,
        merged_summary: "together".to_string(),
        novel_facts: vec!["new".to_string()],
        conflict_detected: true,
        suggested_topic: None,
    }
}

#[test]
fn each_verdict_has_its_plan() {
    let old = test_memory("old", "t", "old content");
    let new = test_memory("new", "t", "new content");
    let now = at("2026-05-01T00:00:00Z");
    match resolve_dedup_job(&old, &new, &verdict(DedupRelation::Duplicate), "r", now, 200) {
        DedupPlan::Absorb { winner, loser_id } => {
            assert_eq!((winner.id.as_str(), loser_id.as_str()), ("old", "new"));
            assert_eq!(winner.summary, "together");
        }
        other => panic!("got {other:?}"),
    }
    match resolve_dedup_job(&old, &new, &verdict(DedupRelation::Update), "r", now, 3) {
        DedupPlan::Replace { winner, loser_id } => {
            assert_eq!((winner.id.as_str(), loser_id.as_str()), ("new", "old"));
            assert_eq!(winner.summary, "tog");
            assert_eq!(winner.content, "new content");
        }
        other => panic!("got {other:?}"),
    }
    match resolve_dedup_job(&old, &new, &verdict(DedupRelation::Related), "r", now, 200) {
        DedupPlan::Link { left, right, decision } => {
            assert_eq!(left.expect("linked").related_ids, vec!["new"]);
            assert_eq!(right.expect("linked").related_ids, vec!["old"]);
            assert_eq!(decision.operator, "auto");
            assert_eq!(decision.reason, "r");
            assert_eq!(decision.loser_id.as_deref(), Some("new"));
            assert_eq!(decision.merged_summary.as_deref(), Some("together"));
            assert!(decision.conflict_detected);
        }
        other => panic!("got {other:?}"),
    }
    match resolve_dedup_job(&old, &new, &verdict(DedupRelation::Distinct), "r", now, 200) {
        DedupPlan::Keep { decision } => assert_eq!(decision.relation, DedupRelation::Distinct),
        other => panic!("got {other:?}"),
    }
}

#[test]
fn pair_is_settled_without_a_judge_where_it_can_be() {
    let a = test_memory("a", "t", "x");
    let mut gone = test_memory("b", "t", "y");
    assert_eq!(dedup_job_gate(Some(&a), Some(&gone)), None);
    gone.superseded_by = Some("a".to_string());
    assert_eq!(dedup_job_gate(Some(&a), Some(&gone)), Some(DedupRelation::Distinct));
    assert_eq!(dedup_canonical_gate("c", "c"), Some(DedupRelation::Duplicate));
    assert_eq!(dedup_canonical_gate("c", "d"), None);
    assert_eq!(verdict_or_distinct(None).relation, DedupRelation::Distinct);
    assert_eq!(
        verdict_or_distinct(Some(verdict(DedupRelation::Update))).relation,
        DedupRelation::Update
    );
}

#[test]
fn linking_twice_changes_nothing() {
    let a = test_memory("a", "t", "x");
    let linked = link_to(&a, "b").expect("linked");
    assert_eq!(linked.related_ids, vec!["b"]);
    assert!(link_to(&linked, "b").is_none());
}

#[test]
fn update_takes_over_keywords_and_importance() {
    let mut older = test_memory("o", "t", "x");
    older.keywords = vec!["k".to_string()];
    older.importance = Importance::High;
    let newer = test_memory("n", "t", "y");
    let now = at("2026-05-01T00:00:00Z");
    let m = update_from_older(&newer, &older, "  ", now, 10);
    assert_eq!(m.keywords, vec!["k"]);
    assert_eq!(m.importance, Importance::High);
    assert_eq!(m.summary, newer.summary, "a blank summary changes nothing");
}

#[test]
fn records_of_merges() {
    let d = record_dedup_artifacts("w", None, "l", DedupRelation::Update, "why", None);
    assert_eq!(d.canonical_id.as_deref(), Some("w"), "unknown canonical: the winner");
    assert!(d.conflict_detected);
    let d = record_dedup_artifacts(
        "w",
        Some("c".to_string()),
        "l",
        DedupRelation::Duplicate,
        "why",
        Some("s".to_string()),
    );
    assert_eq!(d.canonical_id.as_deref(), Some("c"));
    assert_eq!(d.merged_summary.as_deref(), Some("s"));
    assert!(!d.conflict_detected);
    let winner = test_memory("w", "t", "same");
    let loser = test_memory("l", "t", "same\n  other  \n");
    let d = batch_decision(&winner, None, &loser, DedupRelation::Duplicate);
    assert_eq!(d.novel_facts, vec!["other"]);
    assert_eq!((d.reason.as_str(), d.operator.as_str()), ("batch_dedup", "manual"));
    assert_eq!(
        commit_failure(3, "disk full"),
        "dedup: RELEASE dedup_3 (commit) failed: disk full"
    );
    let e = cleanup_event(EventType::Forget, Some("l".to_string()), None);
    assert_eq!(e.query_type.as_deref(), Some("cleanup"));
}

fn candidate(strong: bool) -> VecCandidate {
    VecCandidate {
        is_source: false,
        below_floor: false,
        strong,
        info: Some(CandidateInfo {
            superseded: false,
            status: MemoryStatus::Updated,
            access_count: 0,
            created_at: at("2026-05-01T00:00:00Z"),
        }),
    }
}

#[test]
fn candidates_are_classified() {
    assert_eq!(classify_candidate(&candidate(true)), CandidateClass::Strong);
    assert_eq!(classify_candidate(&candidate(false)), CandidateClass::Gray);
    let mut c = candidate(true);
    c.is_source = true;
    assert_eq!(classify_candidate(&c), CandidateClass::Skip);
    let mut c = candidate(true);
    c.below_floor = true;
    assert_eq!(classify_candidate(&c), CandidateClass::Stop);
    let mut c = candidate(true);
    c.info = None;
    assert_eq!(classify_candidate(&c), CandidateClass::Skip);
    let mut c = candidate(true);
    c.info.as_mut().unwrap().superseded = true;
    assert_eq!(classify_candidate(&c), CandidateClass::Skip);
    let mut c = candidate(true);
    c.info.as_mut().unwrap().status = MemoryStatus::Retired;
    assert_eq!(classify_candidate(&c), CandidateClass::Skip);
}

#[test]
fn young_untouched_candidate_gives_way() {
    let info = candidate(true).info.unwrap();
    let hour_later = at("2026-05-01T01:00:00Z");
    assert!(!keeps_candidate(&info, &hour_later), "exactly an hour is not more");
    assert!(keeps_candidate(&info, &at("2026-05-01T01:00:00.000000001Z")));
    assert_eq!(discarded_date(&info, &hour_later), "2026-05-01");
    assert_eq!(discarded_date(&info, &at("2026-05-03T00:00:00Z")), "2026-05-03");
    let mut seen = info;
    seen.access_count = 1;
    assert!(keeps_candidate(&seen, &at("2026-05-01T00:00:01Z")));
}

fn tally() -> SweepTally {
    SweepTally { llm_calls: 0, merged: 0 }
}

#[test]
fn strong_match_is_merged_and_keeps_the_flag_of_a_surviving_row() {
    for (row_kept, clear_flag) in [(true, false), (false, true)] {
        let mut row = VecRow::new(vec![candidate(true)], &default_limits(), tally());
        row.step(RowEvent::Start);
        assert_eq!(row.action(), RowAction::Merge { candidate: 0 });
        row.step(RowEvent::Merged { row_kept });
        assert_eq!(row.action(), RowAction::Finish { clear_flag });
        assert_eq!(row.tally().merged, 1);
    }
    let mut row = VecRow::new(vec![candidate(true)], &default_limits(), tally());
    row.step(RowEvent::Start);
    row.step(RowEvent::MergeFailed);
    assert_eq!(row.action(), RowAction::Finish { clear_flag: false });
    assert_eq!(row.tally().merged, 0);
}

#[test]
fn gray_candidates_go_to_the_judge_within_the_budget() {
    let limits = DedupLimits { batch_size: 8, max_jobs_per_run: 50, llm_budget: 1 };
    let mut row =
        VecRow::new(vec![candidate(false), candidate(false), candidate(true)], &limits, tally());
    row.step(RowEvent::Start);
    assert_eq!(row.action(), RowAction::Judge { candidate: 0 });
    row.step(RowEvent::Verdict(DedupRelation::Related));
    assert_eq!(row.action(), RowAction::Merge { candidate: 2 }, "the budget is spent");
    let mut row = VecRow::new(vec![candidate(false)], &limits, tally());
    row.step(RowEvent::Start);
    row.step(RowEvent::Verdict(DedupRelation::Duplicate));
    assert_eq!(row.action(), RowAction::Supersede { candidate: 0 });
    row.step(RowEvent::SupersedeFailed);
    assert_eq!(row.action(), RowAction::Finish { clear_flag: false });
    assert_eq!(row.tally(), SweepTally { llm_calls: 1, merged: 0 });
    let mut row = VecRow::new(vec![candidate(false)], &limits, row.tally());
    row.step(RowEvent::Start);
    assert_eq!(row.action(), RowAction::Finish { clear_flag: true });
}

#[test]
fn superseded_row_is_done() {
    let mut row = VecRow::new(vec![candidate(false)], &default_limits(), tally());
    row.step(RowEvent::Start);
    row.step(RowEvent::Verdict(DedupRelation::Update));
    row.step(RowEvent::Superseded);
    assert_eq!(row.action(), RowAction::Finish { clear_flag: true });
    assert_eq!(row.tally().merged, 1);
}

#[test]
fn vector_merge_combines_two_memories() {
    let mut kept = test_memory("k", "t", "same");
    kept.access_count = 2;
    let discarded = test_memory("d", "t", "same\nmore");
    let now = at("2026-05-01T00:00:00Z");
    let m = merge_vector_duplicate(&kept, &discarded, "same\nmore", "2026-05-01", now, 6);
    assert_eq!(m.content, "same\n\n[merged from d on 2026-05-01]\nmore");
    assert_eq!(m.summary, "same\n\n");
    assert_eq!(m.access_count, 3);
    let m = merge_vector_duplicate(&kept, &discarded, "SAME", "2026-05-01", now, 6);
    assert_eq!(m.content, "same");
}

#[test]
fn limits_of_a_sweep() {
    let none = DedupLimits { batch_size: 0, max_jobs_per_run: 0, llm_budget: 0 };
    assert_eq!(vec_dedup_run_limit(&none), 2);
    assert_eq!(vec_dedup_embed_batch_size(&none), 1);
    assert_eq!(vec_dedup_llm_budget(&none), 1);
    assert_eq!(vec_dedup_pending_limit(&none), 1);
    assert_eq!(none_bucket_ann_threshold(&none), 4);
    assert_eq!(none_bucket_neighbor_limit(&none), 4);
    let many =
        DedupLimits { batch_size: usize::MAX, max_jobs_per_run: usize::MAX, llm_budget: 7 };
    assert_eq!(vec_dedup_run_limit(&many), usize::MAX);
    assert_eq!(vec_dedup_pending_limit(&many), 50);
    assert_eq!(vec_dedup_llm_budget(&many), 7);
}

#[test]
fn missing_embeddings_are_requested_in_full_batches() {
    let limits = DedupLimits { batch_size: 2, max_jobs_per_run: 1, llm_budget: 1 };
    let cached = vec![false, true, false, false, true, false, false];
    assert_eq!(
        embedding_chunks(&cached, &limits),
        vec![vec![0, 2], vec![3, 5], vec![6]]
    );
    assert!(embedding_chunks(&vec![true], &limits).is_empty());
}

#[test]
fn sweep_needs_rows_and_an_embedder() {
    let item = || {
        vec![("i".to_string(), "t".to_string(), "s".to_string(), "c".to_string())]
    };
    assert!(run_vec_dedup(item(), &default_limits(), false).is_none());
    assert!(run_vec_dedup(vec![], &default_limits(), true).is_none());
    let sweep = run_vec_dedup_with_embedder(item(), &default_limits()).expect("a sweep");
    assert_eq!((sweep.window.len(), sweep.deferred), (1, 0));
}

#[test]
fn row_without_neighbours_keeps_its_flag() {
    let limits = default_limits();
    let tally = SweepTally { llm_calls: 3, merged: 2 };
    assert!(VecRow::of_search(false, None, &limits, tally).is_none(), "not embedded");
    assert!(VecRow::of_search(true, None, &limits, tally).is_none(), "search failed");
    assert!(VecRow::of_search(false, Some(vec![]), &limits, tally).is_none());
    // A search that finds nothing settles the row.
    let mut row = VecRow::of_search(true, Some(vec![]), &limits, tally).expect("searched");
    row.step(RowEvent::Start);
    assert_eq!(row.action(), RowAction::Finish { clear_flag: true });
    assert_eq!(row.tally(), tally);
    assert!(uses_embeddings(8, Some(8)));
    assert!(!uses_embeddings(8, Some(7)) && !uses_embeddings(8, None));
}
