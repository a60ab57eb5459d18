//! Calibration of the judge: folding verdict pairs, alerts, the nightly run.

use rein_ops::json::JsonField;
use rein_ops::judge_calibration::archive::{
    archive_file_day, archive_file_name, bootstrap_priors_snapshot_path, cron_archive_path,
    cron_sample_point, db_scoped_queue_dir, join_path, name_day_part, payload_pattern, queue_scoped_path, reads_archive_day, retain_recent,
    CronArchiveEntry, CronArchiveSurface, JudgeMetadata,
};
use rein_ops::judge_calibration::consumer::{
    recompute_judge_calibration_state, run_consumer_and_commit, run_judge_calibration_consumer,
    ts_to_unix, AdaptiveState, CalibrationLimits, CalibrationPass, JudgeCalibrationState,
    KappaReadings, StoredEvent, JUDGE_CALIBRATION_CONSUMER,
};
use rein_ops::judge_calibration::cron::{
    combined_chars, cron_judge_sources, lookup_runtime_verdict, offline_verdict,
    reap_emitted_cron_claim, release_cron_claim, run_judge_calibration_cron, runtime_verdict_in,
    try_claim_cron,
    CronClaim, CronReport, EntryEvent, EntryPhase, EntryRun, ProcessOutcome,
};
use rein_ops::judge_calibration::priors::{
    bootstrap_priors_step, replay_cutoff, replay_limit, signal_hint_surface, HintCounts,
    PriorsStep,
};
use rein_ops::time::{parse_rfc3339, Timestamp};

fn at(text: &str) -> Timestamp {
    parse_rfc3339(text).expect("readable instant")
}

const LIMITS: CalibrationLimits = CalibrationLimits { pairs_cap: 200, drift_min_pairs: 30 };
const THRESHOLD: f64 = 0.7;
const NOW: i64 = 1_800_000_000;

fn synth(id: i64, runtime: bool, cron: bool) -> StoredEvent {
    StoredEvent {
        id,
        event_type: "synthesis_llm_judge_offline_cron".to_string(),
        hits: Some((runtime, cron)),
        ts: "2026-05-01T00:00:00Z".to_string(),
    }
}

fn concept(id: i64, runtime: bool, cron: bool) -> StoredEvent {
    StoredEvent {
        id,
        event_type: "concept_summary_llm_judge_offline_cron".to_string(),
        hits: Some((runtime, cron)),
        ts: "2026-05-01T00:00:00Z".to_string(),
    }
}

/// Cohen's kappa of a window; 1 where the judges agree on everything.
fn kappa(pairs: &[(bool, bool, i64)]) -> f64 {
    if pairs.is_empty() {
        return 0.0;
    }
    let n = pairs.len() as f64;
    let agree = pairs.iter().filter(|p| p.0 == p.1).count() as f64 / n;
    let r = pairs.iter().filter(|p| p.0).count() as f64 / n;
    let c = pairs.iter().filter(|p| p.1).count() as f64 / n;
    let chance = r * c + (1.0 - r) * (1.0 - c);
    if chance >= 1.0 {
        if agree >= 1.0 {
            1.0
        } else {
            0.0
        }
    } else {
        (agree - chance) / (1.0 - chance)
    }
}

fn pass(
    prior: Option<JudgeCalibrationState>,
    events: &Vec<StoredEvent>,
) -> (JudgeCalibrationState, Option<i64>, bool) {
    let (mut state, pass) = recompute_judge_calibration_state(prior, events, NOW, &LIMITS);
    let readings = KappaReadings {
        overall_below: kappa(&state.overall.pairs) < THRESHOLD,
        synthesis_below: kappa(&state.synthesis.pairs) < THRESHOLD,
        concept_below: kappa(&state.concept.pairs) < THRESHOLD,
    };
    let alerted = state.settle(&pass, &readings, NOW, &LIMITS);
    (state, pass.max_event_id, alerted)
}

#[test]
fn consumer_no_events_returns_none_max_id() {
    let (state, max_id, alerted) = pass(None, &vec![]);
    assert!(max_id.is_none());
    assert_eq!(state.total_offline_cron_events, 0);
    assert!(!alerted);
    assert_eq!(kappa(&state.overall.pairs), 0.0);
}

#[test]
fn consumer_aggregates_runtime_vs_cron_pairs() {
    let events =
        vec![synth(1, true, true), synth(2, true, true), synth(3, true, true), synth(4, true, false)];
    let (state, max_id, _) = pass(None, &events);
    assert_eq!(max_id, Some(4));
    assert_eq!(state.total_offline_cron_events, 4);
    assert_eq!(state.overall.pairs.len(), 4);
    assert!(state.last_consumed_event_id_calibration >= 4);
    assert_eq!(state.overall.pairs[3], (true, false, at("2026-05-01T00:00:00Z").unix_secs()));
}

#[test]
fn consumer_tracks_runtime_vs_offline_per_surface() {
    let mut events = vec![];
    for i in 0..30 {
        events.push(synth(2 * i + 1, true, true));
        events.push(concept(2 * i + 2, true, false));
    }
    let (state, max_id, _) = pass(None, &events);
    assert_eq!(max_id, Some(60));
    assert_eq!(state.overall.pairs.len(), 60);
    assert_eq!(state.synthesis.pairs.len(), 30);
    assert_eq!(state.concept.pairs.len(), 30);
    assert!(!state.synthesis.below);
    assert!(state.concept.below);
    assert_eq!(state.synthesis.alerts, 0);
    assert_eq!(state.concept.alerts, 1);
}

#[test]
fn consumer_replay_safety_skips_already_applied_events() {
    let events = vec![synth(1, true, true), synth(2, false, false)];
    let (state, max_id, _) = pass(None, &events);
    assert_eq!(max_id, Some(2));
    assert_eq!(state.total_offline_cron_events, 2);
    let (state2, max_id2, _) = pass(Some(state.clone()), &events);
    assert_eq!(state2.total_offline_cron_events, 2, "no replay double-count");
    assert_eq!(state2.overall.pairs, state.overall.pairs);
    assert_eq!(max_id2, Some(2));
}

#[test]
fn consumer_after_commit_offset_skips_replay_entirely() {
    let events = vec![synth(1, true, true), synth(2, false, false)];
    let (state, max_id, _) = pass(None, &events);
    let mut adaptive = AdaptiveState { version: 0, judge_calibration_state: None };
    let commits = run_judge_calibration_consumer(&mut adaptive, Some((state, max_id)));
    assert_eq!(commits, Some(vec![(JUDGE_CALIBRATION_CONSUMER, 2)]));
    let saved = adaptive.judge_calibration_state.expect("saved");
    // Past the committed offset there is nothing to read.
    let (idle, max_id, alerted) = pass(Some(saved.clone()), &vec![]);
    assert_eq!(max_id, None);
    assert!(!alerted);
    assert_eq!(idle.total_offline_cron_events, 2);
    assert_eq!(idle.overall.pairs, saved.overall.pairs);
    // And had the events been read once more, the saved state skips them all.
    let (again, _, alerted) = pass(Some(saved.clone()), &events);
    assert!(!alerted);
    assert_eq!(again.total_offline_cron_events, 2);
    assert_eq!(again.overall.pairs, saved.overall.pairs);
}

#[test]
fn consumer_drift_alert_bumps_on_threshold_cross() {
    let good: Vec<StoredEvent> = (0..30).map(|i| synth(i + 1, true, true)).collect();
    let (state1, max_id1, alerted) = pass(None, &good);
    assert!(max_id1.is_some());
    assert!(!alerted);
    assert_eq!(state1.overall.alerts, 0);
    assert!(kappa(&state1.overall.pairs) >= 0.99);
    let bad: Vec<StoredEvent> = (30..60).map(|i| synth(i + 1, true, false)).collect();
    let (state2, max_id2, alerted) = pass(Some(state1), &bad);
    assert!(max_id2.is_some());
    assert!(alerted);
    assert_eq!(state2.overall.alerts, 1, "alert must fire on crossing");
    assert!(kappa(&state2.overall.pairs) < THRESHOLD);
    // Staying below raises no further alert.
    let more: Vec<StoredEvent> = (60..65).map(|i| synth(i + 1, true, false)).collect();
    let (state3, _, alerted) = pass(Some(state2), &more);
    assert!(!alerted);
    assert_eq!(state3.overall.alerts, 1);
}

#[test]
fn consumer_drift_alert_does_not_fire_below_min_pairs() {
    let events: Vec<StoredEvent> = (0..5).map(|i| synth(i + 1, true, false)).collect();
    let (state, _, _) = pass(None, &events);
    assert_eq!(state.overall.alerts, 0, "below min_pairs => no alert");
}

#[test]
fn consumer_drift_alert_fires_once_enough_pairs_are_there() {
    // One pair too few, all below the threshold.
    let few: Vec<StoredEvent> = (0..29).map(|i| synth(i + 1, true, false)).collect();
    let (state1, _, alerted) = pass(None, &few);
    assert!(!alerted);
    assert_eq!((state1.overall.alerts, state1.synthesis.alerts), (0, 0));
    assert!(state1.overall.below);
    // A later pass brings the pair that was missing.
    let (state2, _, alerted) = pass(Some(state1), &vec![synth(30, true, false)]);
    assert!(alerted);
    assert_eq!(state2.overall.pairs.len(), 30);
    assert_eq!((state2.overall.alerts, state2.synthesis.alerts), (1, 1));
    // Staying below raises no further alert.
    let (state3, _, alerted) = pass(Some(state2), &vec![synth(31, true, false)]);
    assert!(!alerted);
    assert_eq!((state3.overall.alerts, state3.synthesis.alerts), (1, 1));
}

#[test]
fn pass_reads_up_to_the_highest_event() {
    let events = vec![synth(7, true, true), synth(3, false, false)];
    let (state, max_id, _) = pass(None, &events);
    assert_eq!(max_id, Some(7));
    assert_eq!(state.last_consumed_event_id_calibration, 7);
    let (again, _, _) = pass(Some(state.clone()), &events);
    assert_eq!(again.overall.pairs, state.overall.pairs);
}

#[test]
fn windows_keep_the_newest_pairs() {
    let limits = CalibrationLimits { pairs_cap: 2, drift_min_pairs: 30 };
    let events = vec![synth(1, true, true), synth(2, true, false), synth(3, false, false)];
    let (state, pass) = recompute_judge_calibration_state(None, &events, NOW, &limits);
    assert_eq!(state.overall.pairs.len(), 2);
    assert_eq!((state.overall.pairs[0].0, state.overall.pairs[0].1), (true, false));
    assert_eq!(
        pass,
        CalibrationPass { max_event_id: Some(3), synthesis_touched: true, concept_touched: false }
    );
}

#[test]
fn malformed_events_move_the_watermark_only() {
    let mut broken = synth(1, true, true);
    broken.hits = None;
    let mut foreign = synth(2, true, true);
    foreign.event_type = "forget".to_string();
    let mut undated = synth(3, true, true);
    undated.ts = "yesterday".to_string();
    let (state, max_id, _) = pass(None, &vec![broken, foreign, undated]);
    assert_eq!(max_id, Some(3));
    assert_eq!(state.last_consumed_event_id_calibration, 3);
    assert_eq!(state.overall.pairs, vec![(true, true, NOW)]);
    assert_eq!(ts_to_unix("1970-01-01T00:01:00+00:00"), Some(60));
    assert_eq!(ts_to_unix("yesterday"), None);
}

#[test]
fn offset_is_committed_only_with_a_pass() {
    let mut adaptive = AdaptiveState { version: 7, judge_calibration_state: None };
    assert_eq!(run_judge_calibration_consumer(&mut adaptive, None), None);
    assert!(adaptive.judge_calibration_state.is_none());
    assert!(run_consumer_and_commit(None, JudgeCalibrationState::default(), None).is_none());
    let (saved, offset) =
        run_consumer_and_commit(Some(adaptive), JudgeCalibrationState::default(), Some(9))
            .expect("something to commit");
    assert_eq!(offset, 9);
    assert!(saved.judge_calibration_state.is_some());
}

#[test]
fn cron_archive_path_is_db_scoped() {
    let s = cron_archive_path("/base", 0xabc, &at("2026-05-01T00:00:00Z"), 0);
    assert!(s.contains("queue"));
    assert!(s.contains("synthesis_cron_archive_20260501_0.jsonl"));
    assert_eq!(s, "/base/queue/0000000000000abc/synthesis_cron_archive_20260501_0.jsonl");
    assert_eq!(db_scoped_queue_dir("/base", 1), "/base/queue/0000000000000001");
    assert!(bootstrap_priors_snapshot_path("/base", 1).ends_with("/bootstrap_priors.json"));
    assert!(queue_scoped_path("/base", 1, "judge").contains("0000000000000001"));
}

fn minted(id: &str, minted_at: i64) -> CronArchiveEntry {
    CronArchiveEntry {
        surface: CronArchiveSurface::Synthesis,
        id: id.to_string(),
        concept_id: String::new(),
        stamp_hash: "stamp".to_string(),
        query: "question".to_string(),
        sources: vec!["one".to_string(), "two".to_string()],
        candidate: "answer".to_string(),
        metadata: None,
        minted_at,
    }
}

#[test]
fn archive_files_are_read_by_day() {
    let day = at("2026-05-01T00:00:00Z").unix_secs();
    assert_eq!(archive_file_day("synthesis_cron_archive_20260501_0.jsonl"), Some(day));
    assert_eq!(archive_file_day("notes.jsonl"), None);
    assert_eq!(archive_file_day("synthesis_cron_archive_2026x501_0.jsonl"), None);
    assert!(reads_archive_day(day, day));
    assert!(!reads_archive_day(day - 86_400 * 30, day));
    let kept = retain_recent(vec![minted("old", NOW - 86_400 * 3), minted("new", NOW - 60)], NOW);
    assert_eq!(kept.len(), 1);
    assert_eq!(kept[0].id, "new");
}

#[test]
fn archive_files_have_their_day_in_their_name() {
    let name = archive_file_name("20260501", 3);
    assert_eq!(name, "synthesis_cron_archive_20260501_3.jsonl");
    assert_eq!(name_day_part(&name).as_deref(), Some("20260501"));
    assert_eq!(name_day_part("synthesis_cron_archive_20260501.jsonl"), None);
    assert_eq!(name_day_part("synthesis_cron_archive_20260501_3.json"), None);
    assert_eq!(name_day_part("other_20260501_3.jsonl"), None);
    assert_eq!(archive_file_day("synthesis_cron_archive_20261301_0.jsonl"), None);
}

#[test]
fn sample_point_depends_on_the_id_alone() {
    // The first eight bytes of the SHA-256 digest of "abc".
    assert_eq!(cron_sample_point("abc"), 0xba7816bf8f01cfea);
    assert_eq!(cron_sample_point("synth_abc123"), cron_sample_point("synth_abc123"));
    assert_ne!(cron_sample_point("a"), cron_sample_point("b"));
}

#[test]
fn sample_points_are_spread() {
    // At a rate of a fifth, about two hundred of a thousand are sampled.
    let sampled = (0..1000)
        .filter(|i| (cron_sample_point(&format!("synth_{i:08}")) as f64 / u64::MAX as f64) < 0.2)
        .count();
    assert!((150..=250).contains(&sampled), "got {sampled}");
}

/// Claims a text, and returns the token if the claim was won.
fn claim(
    claims: &mut Vec<CronClaim>,
    surface: &CronArchiveSurface,
    id: &str,
    stamp_hash: &str,
    token: &str,
    now: i64,
) -> Option<String> {
    if try_claim_cron(claims, surface, id, stamp_hash, token.to_string(), now) {
        Some(token.to_string())
    } else {
        None
    }
}

#[test]
fn try_claim_cron_first_winner_wins_loser_skips() {
    let mut claims = vec![];
    let surface = CronArchiveSurface::Synthesis;
    let first = claim(&mut claims, &surface, "synth-1", "stamp-A", "t1", NOW);
    assert!(first.is_some(), "first writer must win the claim");
    let second = claim(&mut claims, &surface, "synth-1", "stamp-A", "t2", NOW);
    assert!(second.is_none(), "second writer of identical tuple MUST observe the conflict");
    let fresh_stamp = claim(&mut claims, &surface, "synth-1", "stamp-B", "t3", NOW);
    assert!(fresh_stamp.is_some(), "different stamp_hash on same id MUST be a fresh tuple");
    let fresh_id = claim(&mut claims, &surface, "synth-2", "stamp-A", "t4", NOW);
    assert!(fresh_id.is_some(), "different surface_id MUST be a fresh tuple");
    let other = CronArchiveSurface::ConceptSummary;
    let fresh_surface = claim(&mut claims, &other, "synth-1", "stamp-A", "t5", NOW);
    assert!(fresh_surface.is_some(), "different event_type MUST be a fresh tuple");
    assert_eq!(claims.len(), 4, "only winning claims persist; losers are no-ops");
    assert_eq!(claims[0].claim_token, "t1");
    assert_eq!(claims[3].claim_token, "t5");
    assert_ne!(surface.offline_event_type(), other.offline_event_type());
}

#[test]
fn try_claim_cron_takes_over_stale_claim_after_crash_window() {
    let surface = CronArchiveSurface::Synthesis;
    let mut claims = vec![CronClaim {
        surface,
        surface_id: "synth-1".to_string(),
        stamp_hash: "stamp-A".to_string(),
        claim_token: "ORIGINAL_TOKEN".to_string(),
        claimed_at: 1_000_000,
    }];
    let taken = claim(&mut claims, &surface, "synth-1", "stamp-A", "NEW_TOKEN", NOW);
    assert!(taken.is_some(), "stale claim row MUST be reclaimable");
    assert_eq!(claims.len(), 1);
    assert_eq!(claims[0].claim_token, "NEW_TOKEN", "stored token MUST match returned");
    assert_eq!(claims[0].claimed_at, NOW);
    let peer = claim(&mut claims, &surface, "synth-1", "stamp-A", "PEER", NOW);
    assert!(peer.is_none(), "after takeover the new owner is fresh, peer MUST lose");
    release_cron_claim(&mut claims, &surface, "synth-1", "stamp-A", "ORIGINAL_TOKEN");
    assert_eq!(claims.len(), 1);
    assert_eq!(
        claims[0].claim_token, "NEW_TOKEN",
        "original-token release MUST NOT delete the fresh peer's row"
    );
}

#[test]
fn release_cron_claim_lets_a_future_cron_pass_retry() {
    let surface = CronArchiveSurface::Synthesis;
    let mut claims = vec![];
    let token = claim(&mut claims, &surface, "synth-1", "stamp-A", "token1", NOW);
    assert!(token.is_some());
    assert!(claim(&mut claims, &surface, "synth-1", "stamp-A", "peer", NOW).is_none());
    release_cron_claim(&mut claims, &surface, "synth-1", "stamp-A", "token1");
    let retry = claim(&mut claims, &surface, "synth-1", "stamp-A", "retry", NOW);
    assert!(retry.is_some(), "after release, future claim MUST succeed");
    release_cron_claim(&mut claims, &surface, "never-claimed", "stamp-X", "wrong-token");
    assert_eq!(claims.len(), 1);
    // A claim on another text is left alone.
    assert!(claim(&mut claims, &surface, "synth-2", "stamp-A", "other", NOW).is_some());
    reap_emitted_cron_claim(&mut claims, &surface, "synth-1", "stamp-A");
    assert_eq!(claims.len(), 1);
    assert_eq!(claims[0].surface_id, "synth-2");
}

#[test]
fn cron_run_with_empty_archive_returns_zero_report() {
    let (report, entries) = run_judge_calibration_cron(true, true, vec![], NOW);
    assert_eq!(report.considered, 0);
    assert_eq!(report.emitted, 0);
    assert!(entries.is_empty());
    let (report, entries) =
        run_judge_calibration_cron(true, false, vec![minted("a", NOW)], NOW);
    assert_eq!((report.considered, entries.len()), (0, 0), "switched off");
    let (report, entries) = run_judge_calibration_cron(true, true, vec![minted("a", NOW)], NOW);
    assert_eq!((report.considered, entries.len()), (1, 1));
}

#[test]
fn entry_is_judged_under_a_claim_and_written() {
    let entry = minted("s1", NOW);
    let mut run = EntryRun::new(&entry, 10_000);
    assert_eq!(run.phase(), EntryPhase::Checking);
    run.step(EntryEvent::AlreadyWritten(Some(false)));
    assert_eq!(run.phase(), EntryPhase::LookingUp);
    run.step(EntryEvent::Runtime(Some((true, "model-r".to_string()))));
    assert_eq!(run.phase(), EntryPhase::Claiming);
    run.step(EntryEvent::Claimed("token".to_string()));
    assert_eq!(run.claim().map(|s| s.as_str()), Some("token"));
    run.step(EntryEvent::AlreadyWritten(Some(false)));
    assert_eq!(run.phase(), EntryPhase::Reserving);
    run.step(EntryEvent::Reserved);
    assert_eq!(run.phase(), EntryPhase::Judging);
    run.step(EntryEvent::Judged {
        hit: false,
        reason: "no".to_string(),
        model: "model-c".to_string(),
    });
    assert_eq!(run.phase(), EntryPhase::Writing);
    let (runtime, nightly) = run.verdicts().expect("two verdicts");
    let written = offline_verdict(&entry, runtime, nightly);
    assert_eq!(written.event_type, "synthesis_llm_judge_offline_cron");
    assert_eq!((written.id.as_str(), written.runtime_hit, written.cron_hit), ("s1", true, false));
    assert_eq!(written.concept_id, None);
    run.step(EntryEvent::Written);
    while run.phase() == EntryPhase::Releasing {
        run.step(EntryEvent::Released);
    }
    assert!(matches!(run.into_outcome(), Some(ProcessOutcome::Emitted)));
}

#[test]
fn entry_without_a_runtime_verdict_is_skipped() {
    let mut run = EntryRun::new(&minted("s1", NOW), 10_000);
    run.step(EntryEvent::AlreadyWritten(Some(false)));
    run.step(EntryEvent::Runtime(None));
    assert!(run.claim().is_none());
    assert!(matches!(run.into_outcome(), Some(ProcessOutcome::SkippedNoRuntimeVerdict)));
}

/// Drives an entry up to the given phase, with everything going well.
fn run_until(phase: EntryPhase) -> EntryRun {
    let mut run = EntryRun::new(&minted("s1", NOW), 12);
    while run.phase() != phase {
        let event = match run.phase() {
            EntryPhase::Checking | EntryPhase::Rechecking => {
                EntryEvent::AlreadyWritten(Some(false))
            }
            EntryPhase::LookingUp => EntryEvent::Runtime(Some((true, "r".to_string()))),
            EntryPhase::Claiming => EntryEvent::Claimed("token".to_string()),
            EntryPhase::Reserving => EntryEvent::Reserved,
            EntryPhase::Judging => EntryEvent::Judged {
                hit: true,
                reason: "why".to_string(),
                model: "c".to_string(),
            },
            other => panic!("stuck in {other:?}"),
        };
        run.step(event);
    }
    run
}

#[test]
fn each_failure_ends_an_entry_and_releases_its_claim() {
    let cause = || "cause".to_string();
    let dropped = [
        (EntryPhase::LookingUp, EntryEvent::RuntimeFailed(cause()), "verdict lookup failed: cause"),
        (EntryPhase::Claiming, EntryEvent::ClaimFailed(cause()), "cron claim insert failed: cause"),
        (EntryPhase::Reserving, EntryEvent::ReserveFailed(cause()), "reserve_call: cause"),
        (EntryPhase::Judging, EntryEvent::JudgeFailed(cause()), "cron LLM call failed: cause"),
        (EntryPhase::Writing, EntryEvent::SerializeFailed(cause()), "payload serialize: cause"),
        (EntryPhase::Writing, EntryEvent::WriteFailed(cause()), "emit_event failed: cause"),
    ];
    for (phase, event, text) in dropped {
        let mut run = run_until(phase);
        let held = run.claim().is_some();
        run.step(event);
        assert_eq!(run.phase() == EntryPhase::Releasing, held, "{text}");
        if held {
            run.step(EntryEvent::Released);
        }
        assert_eq!(run.phase(), EntryPhase::Done);
        assert!(run.claim().is_none());
        match run.into_outcome() {
            Some(ProcessOutcome::Dropped(reason)) => assert_eq!(reason, text),
            other => panic!("got {other:?}"),
        }
    }
}

#[test]
fn entries_of_others_are_left_alone() {
    let mut run = run_until(EntryPhase::Claiming);
    run.step(EntryEvent::ClaimHeld);
    assert!(matches!(run.into_outcome(), Some(ProcessOutcome::SkippedDuplicate)));
    let mut run = run_until(EntryPhase::Checking);
    run.step(EntryEvent::AlreadyWritten(Some(true)));
    assert_eq!(run.phase(), EntryPhase::Reaping);
    run.step(EntryEvent::Reaped);
    assert!(matches!(run.into_outcome(), Some(ProcessOutcome::SkippedDuplicate)));
    let mut run = run_until(EntryPhase::Rechecking);
    run.step(EntryEvent::AlreadyWritten(Some(true)));
    assert_eq!(run.phase(), EntryPhase::Releasing);
    let mut run = run_until(EntryPhase::Writing);
    run.step(EntryEvent::WrittenByPeer);
    run.step(EntryEvent::Released);
    assert!(matches!(run.into_outcome(), Some(ProcessOutcome::SkippedDuplicate)));
    let mut run = run_until(EntryPhase::Reserving);
    run.step(EntryEvent::BudgetSpent);
    assert!(matches!(run.into_outcome(), Some(ProcessOutcome::DroppedCap)));
    // An unknown answer does not stop an entry.
    let mut run = run_until(EntryPhase::Checking);
    run.step(EntryEvent::AlreadyWritten(None));
    assert_eq!(run.phase(), EntryPhase::LookingUp);
}

#[test]
fn entry_over_the_ceiling_is_dropped_before_a_claim() {
    let mut run = EntryRun::new(&minted("s1", NOW), 11);
    run.step(EntryEvent::AlreadyWritten(Some(false)));
    run.step(EntryEvent::Runtime(Some((true, "r".to_string()))));
    assert_eq!(run.phase(), EntryPhase::Done);
    match run.into_outcome() {
        Some(ProcessOutcome::Dropped(reason)) => {
            assert_eq!(reason, "cron archive payload too large (12 chars > ceiling 11)");
        }
        other => panic!("got {other:?}"),
    }
}

#[test]
fn verdict_on_a_concept_summary_names_its_concept() {
    let mut entry = minted("cs1", NOW);
    entry.surface = CronArchiveSurface::ConceptSummary;
    entry.concept_id = "con-1".to_string();
    entry.metadata = Some(JudgeMetadata {
        query_type: Some("Semantic".to_string()),
        cluster_id: Some(4),
        source_count: Some(2),
        judge_latency_ms: Some(30),
    });
    let v = offline_verdict(
        &entry,
        (false, "r".to_string()),
        (true, "why".to_string(), "c".to_string()),
    );
    assert_eq!(v.event_type, "concept_summary_llm_judge_offline_cron");
    assert_eq!(v.concept_id.as_deref(), Some("con-1"));
    assert_eq!(v.query_type.as_deref(), Some("Semantic"));
    let m = v.metadata.expect("metadata");
    assert_eq!((m.cluster_id, m.source_count, m.judge_latency_ms), (Some(4), Some(2), Some(30)));
    assert_eq!((v.cron_judge_model.as_str(), v.cron_reason.as_str()), ("c", "why"));
}

#[test]
fn reports_account_for_every_entry() {
    let mut report = CronReport::default();
    report.considered = 4;
    report.tally(&ProcessOutcome::Emitted);
    report.tally(&ProcessOutcome::SkippedDuplicate);
    report.tally(&ProcessOutcome::Dropped("why".to_string()));
    report.tally(&ProcessOutcome::DroppedCap);
    assert_eq!(
        (report.emitted, report.skipped_duplicate, report.skipped_no_runtime_verdict),
        (1, 1, 0)
    );
    assert_eq!((report.dropped, report.dropped_cap), (1, 1));
}

#[test]
fn runtime_verdict_is_found_by_id() {
    let payloads = vec![
        "{\"synthesis_id\":\"other\",\"hit\":true,\"judge_model\":\"m0\"}".to_string(),
        "not json".to_string(),
        "{\"synthesis_id\":\"s1\",\"hit\":false,\"judge_model\":\"m1\"}".to_string(),
    ];
    assert_eq!(
        lookup_runtime_verdict(&payloads, &CronArchiveSurface::Synthesis, "s1"),
        Some((false, "m1".to_string()))
    );
    assert_eq!(lookup_runtime_verdict(&payloads, &CronArchiveSurface::ConceptSummary, "s1"), None);
    assert_eq!(payload_pattern("synthesis_id", "s1"), "%\"synthesis_id\":\"s1\"%");
}

#[test]
fn verdict_is_read_from_the_members_of_a_payload() {
    let text = |name: &str, value: &str| {
        (name.to_string(), JsonField::Text(value.to_string()))
    };
    let surface = CronArchiveSurface::ConceptSummary;
    let m = vec![text("concept_summary_id", "cs"), text("judge_model", "m")];
    assert_eq!(runtime_verdict_in(&m, &surface, "cs"), Some((false, "m".to_string())));
    assert_eq!(runtime_verdict_in(&m, &surface, "other"), None);
    assert_eq!(runtime_verdict_in(&m, &CronArchiveSurface::Synthesis, "cs"), None);
    let m = vec![
        text("concept_summary_id", "cs"),
        ("hit".to_string(), JsonField::Bool(true)),
    ];
    assert_eq!(runtime_verdict_in(&m, &surface, "cs"), Some((true, "unknown".to_string())));
    assert_eq!(surface.runtime_event_type(), "concept_summary_llm_judge");
    assert_eq!(surface.id_field(), "concept_summary_id");
    assert_eq!(join_path("a/", "b"), "a/b");
    assert_eq!(join_path("", "b"), "b");
}

#[test]
fn judge_sees_the_sources_in_order() {
    let entry = minted("s1", NOW);
    assert_eq!(cron_judge_sources(&entry), "one\ntwo");
    assert_eq!(combined_chars(&entry), "one".len() + "two".len() + "answer".len());
}

#[test]
fn first_weights_come_from_the_first_source_there_is() {
    assert_eq!(bootstrap_priors_step(false, None), PriorsStep::UseDefaults);
    assert_eq!(bootstrap_priors_step(false, Some(true)), PriorsStep::UseDefaults);
    assert_eq!(bootstrap_priors_step(true, None), PriorsStep::ReadSnapshot);
    assert_eq!(bootstrap_priors_step(true, Some(true)), PriorsStep::UseSnapshot);
    assert_eq!(bootstrap_priors_step(true, Some(false)), PriorsStep::DeriveFromHints);
    assert_eq!(replay_limit(1), 1);
    assert_eq!(replay_limit(60_000), 50_000);
    assert_eq!(replay_cutoff(&Timestamp::new(NOW, 5).unwrap()), NOW - 30 * 24 * 60 * 60);
    let counts = HintCounts { view: 1, click: 3, thumb: 2, request: 0, width: 3 };
    assert_eq!(counts.confidence(), 3);
}

#[test]
fn labels_come_from_runtime_verdicts_only() {
    assert_eq!(signal_hint_surface("synthesis_llm_judge"), Some(CronArchiveSurface::Synthesis));
    assert_eq!(
        signal_hint_surface("concept_summary_llm_judge"),
        Some(CronArchiveSurface::ConceptSummary)
    );
    assert_eq!(signal_hint_surface("synthesis_llm_judge_offline_cron"), None);
}
