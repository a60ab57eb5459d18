//! What living summaries are for: when one is shown, what is asked of the model,
//! what is stored, and what a judge is shown of it.

use crate::cold_archive_summary::escaping::stands_at;
use crate::concept_summary::gate::{
    ConceptSummaryDecision, ConceptSummarySkipReason, SummaryBucket, bucket_for, decision,
    is_warm,
};
use crate::concept_summary::judge_input::{
    JudgeJob, JudgePlan, JudgeRecord, is_archived, is_judge_plan, is_sampled_job, shown_candidate,
    shown_prompt,
};
use crate::concept_summary::prompt::{
    TRUNCATION_NOTICE, capped, full_prompt, history_text, revision_text,
};
use crate::concept_summary::refresh::{
    ConceptSummaryOutcome, RefreshSample, RefreshView, SummaryResult, due_positions, is_sample_of,
    is_start, is_stored, may_store, not_eligible_count, summary_id, summary_of, with_concept,
};
use crate::judge_calibration::archive::CronArchiveEntry;
use crate::laws::{cut_out, law_trimmed};
use crate::text::{decimal, is_whitespace, texts, trimmed};
use crate::time::{Timestamp, rfc3339_text};
use crate::types::{Concept, ConceptRevision, opt_text};
use vstd::prelude::*;
use vstd::string::*;

verus! {

/// Whether one bucket of this cluster and type of query says that summaries are
/// not useful, on so many signals: readers who viewed one, voted for or against
/// one, and the judge's verdicts where they have weight.
pub open spec fn speaks_against(
    b: SummaryBucket,
    cluster: Option<i64>,
    query_type: Seq<char>,
    enough: u64,
    judge_counts: bool,
) -> bool {
    &&& b.cluster_id == cluster
    &&& b.query_type@ == query_type
    &&& !b.useful
    &&& b.viewed_count + b.explicit_up + b.explicit_down + (if judge_counts {
        b.llm_judge_count as int
    } else {
        0
    }) >= enough
}

proof fn lemma_bucket_for(buckets: Seq<SummaryBucket>, cluster: Option<i64>, query_type: Seq<char>)
    ensures
        match bucket_for(buckets, cluster, query_type) {
            Some(b) => exists|k: int|
                0 <= k < buckets.len() && #[trigger] buckets[k] == b && b.cluster_id == cluster
                    && b.query_type@ == query_type && forall|q: int|
                    0 <= q < k ==> (#[trigger] buckets[q]).cluster_id != cluster
                        || buckets[q].query_type@ != query_type,
            None => forall|q: int|
                0 <= q < buckets.len() ==> (#[trigger] buckets[q]).cluster_id != cluster
                    || buckets[q].query_type@ != query_type,
        },
    decreases buckets.len(),
{
    if buckets.len() > 0 {
        let rest = buckets.skip(1);
        if buckets[0].cluster_id == cluster && buckets[0].query_type@ == query_type {
            assert(bucket_for(buckets, cluster, query_type) == Some(buckets[0]));
        } else {
            lemma_bucket_for(rest, cluster, query_type);
            match bucket_for(buckets, cluster, query_type) {
                Some(b) => {
                    let k = choose|k: int|
                        0 <= k < rest.len() && #[trigger] rest[k] == b && b.cluster_id == cluster
                            && b.query_type@ == query_type && forall|q: int|
                            0 <= q < k ==> (#[trigger] rest[q]).cluster_id != cluster
                                || rest[q].query_type@ != query_type;
                    assert(buckets[k + 1] == b);
                    assert forall|q: int| 0 <= q < k + 1 implies (#[trigger] buckets[q]).cluster_id
                        != cluster || buckets[q].query_type@ != query_type by {
                        if q > 0 {
                            assert(buckets[q] == rest[q - 1]);
                        }
                    }
                },
                None => {
                    assert forall|q: int| 0 <= q < buckets.len() implies (
                    #[trigger] buckets[q]).cluster_id != cluster || buckets[q].query_type@
                        != query_type by {
                        if q > 0 {
                            assert(buckets[q] == rest[q - 1]);
                        }
                    }
                },
            }
        }
    }
}

/// A summary is hidden as soon as the first bucket for its cluster and type of
/// query speaks against it on enough signals, counted one by one; and for no
/// other reason while the feature is on.
pub proof fn law_when_a_summary_is_hidden(
    cluster: Option<i64>,
    query_type: Seq<char>,
    buckets: Seq<SummaryBucket>,
    cold_start_n: u64,
    judge_counts: bool,
)
    ensures
        decision(true, cluster, query_type, Some(buckets), cold_start_n, judge_counts)
            == ConceptSummaryDecision::Skip(ConceptSummarySkipReason::AdaptiveDecision) <==> (
        cluster is Some && exists|k: int|
            0 <= k < buckets.len() && #[trigger] speaks_against(
                buckets[k],
                cluster,
                query_type,
                cold_start_n,
                judge_counts,
            ) && forall|q: int|
                0 <= q < k ==> (#[trigger] buckets[q]).cluster_id != cluster
                    || buckets[q].query_type@ != query_type),
        decision(true, cluster, query_type, Some(buckets), cold_start_n, judge_counts)
            == ConceptSummaryDecision::Yes || decision(
            true,
            cluster,
            query_type,
            Some(buckets),
            cold_start_n,
            judge_counts,
        ) == ConceptSummaryDecision::Skip(ConceptSummarySkipReason::AdaptiveDecision),
{
    lemma_bucket_for(buckets, cluster, query_type);
    match bucket_for(buckets, cluster, query_type) {
        Some(b) => {
            let k = choose|k: int|
                0 <= k < buckets.len() && #[trigger] buckets[k] == b && b.cluster_id == cluster
                    && b.query_type@ == query_type && forall|q: int|
                    0 <= q < k ==> (#[trigger] buckets[q]).cluster_id != cluster
                        || buckets[q].query_type@ != query_type;
            let against = speaks_against(
                buckets[k],
                cluster,
                query_type,
                cold_start_n,
                judge_counts,
            );
            assert forall|j: int|
                0 <= j < buckets.len() && #[trigger] speaks_against(
                    buckets[j],
                    cluster,
                    query_type,
                    cold_start_n,
                    judge_counts,
                ) && (forall|q: int|
                    0 <= q < j ==> (#[trigger] buckets[q]).cluster_id != cluster
                        || buckets[q].query_type@ != query_type) implies j == k by {
                if j < k {
                    assert(buckets[j].cluster_id != cluster || buckets[j].query_type@ != query_type);
                } else if k < j {
                    assert(buckets[k].cluster_id != cluster || buckets[k].query_type@ != query_type);
                }
            }
        },
        None => {
            assert forall|j: int| 0 <= j < buckets.len() implies !#[trigger] speaks_against(
                buckets[j],
                cluster,
                query_type,
                cold_start_n,
                judge_counts,
            ) by {
                assert(buckets[j].cluster_id != cluster || buckets[j].query_type@ != query_type);
            }
        },
    }
}

/// A switched-off feature hides every summary, and a missing state none.
pub proof fn law_switch_and_missing_state(
    cluster: Option<i64>,
    query_type: Seq<char>,
    buckets: Option<Seq<SummaryBucket>>,
    cold_start_n: u64,
    judge_counts: bool,
)
    ensures
        decision(false, cluster, query_type, buckets, cold_start_n, judge_counts)
            == ConceptSummaryDecision::Skip(ConceptSummarySkipReason::OperatorDisabled),
        buckets is None || cluster is None ==> decision(
            true,
            cluster,
            query_type,
            buckets,
            cold_start_n,
            judge_counts,
        ) == ConceptSummaryDecision::Yes,
{
}

/// The judge is shown the beginning of the candidate, at most a quarter of the
/// limit and at most 4096 characters, and the beginning of the prompt, with what
/// is left, but 1024 characters in any case. Nothing is cut that there is room for.
pub proof fn law_what_the_judge_is_shown(
    prompt: Seq<char>,
    candidate: Seq<char>,
    max_chars: usize,
)
    ensures
        ({
            let c = shown_candidate(candidate, max_chars);
            let p = shown_prompt(prompt, candidate, max_chars);
            &&& c.is_prefix_of(candidate) && p.is_prefix_of(prompt)
            &&& 4 * c.len() <= max_chars && c.len() <= 4096
            &&& c.len() < candidate.len() ==> c.len() == 4096 || 4 * (c.len() + 1) > max_chars
            &&& p.len() < prompt.len() ==> p.len() >= 1024 && p.len() + c.len() + 13 >= max_chars
            &&& p.len() > 1024 ==> p.len() + c.len() + 13 <= max_chars
        }),
{
    reveal_strlit("\n\nCandidate:\n");
}

/// The job and the archived entry of a summary carry its own ids, what the judge
/// is shown of it, and the stamp of that.
pub proof fn law_job_and_archive_agree(
    j: JudgeJob,
    e: CronArchiveEntry,
    r: JudgeRecord,
    now: i64,
)
    requires
        is_sampled_job(j, r),
        is_archived(e, r, now),
    ensures
        j.surface_id@ == r.summary_id@ && e.id@ == r.summary_id@,
        opt_text(j.concept_id) == Some(r.concept_id@) && e.concept_id@ == r.concept_id@,
        j.stamp_hash@ == r.stamp_hash@ && e.stamp_hash@ == r.stamp_hash@,
        j.prompt@ == r.prompt@ && e.sources@.len() == 1 && e.sources@[0]@ == r.prompt@,
        j.candidate@ == r.candidate@ && e.candidate@ == r.candidate@,
        e.minted_at == now,
        e.surface is ConceptSummary && j.kind@ == "concept_summary"@,
        j.source@ == "AutoSampled"@ && j.judge_model_override is None,
{
    assert(texts(e.sources@).len() == 1);
    assert(texts(e.sources@)[0] == e.sources@[0]@);
}

/// Whether `part` stands somewhere in a text.
pub open spec fn stands_in(text: Seq<char>, part: Seq<char>) -> bool {
    exists|i: int| #[trigger] stands_at(text, part, i)
}

pub(crate) proof fn lemma_stands_in(a: Seq<char>, part: Seq<char>, b: Seq<char>)
    ensures
        stands_in((a + part) + b, part),
{
    let text = (a + part) + b;
    assert(text.subrange(a.len() as int, (a.len() + part.len()) as int) =~= part);
    assert(stands_at(text, part, a.len() as int));
}

/// The prompt holds the concept's name and definition, and every revision with
/// its number, its date and its text.
pub proof fn law_prompt_tells_everything(
    concept: Concept,
    revisions: Seq<ConceptRevision>,
    k: int,
)
    requires
        0 <= k < revisions.len(),
    ensures
        stands_in(full_prompt(concept, revisions), concept.name@),
        stands_in(full_prompt(concept, revisions), concept.definition@),
        stands_in(
            full_prompt(concept, revisions),
            "--- Revision #"@ + decimal(revisions[k].revision as nat) + " (created "@
                + rfc3339_text(
                revisions[k].created_at.seconds(),
                revisions[k].created_at.nanoseconds(),
            ) + ") ---\n"@ + revisions[k].definition@,
        ),
{
    let head = "Concept: "@ + concept.name@ + "\n\nCurrent definition (revision "@ + decimal(
        concept.revision as nat,
    ) + "):\n"@ + concept.definition@ + "\n\nRevision history (oldest first):\n"@;
    let history = history_text(revisions);
    let tail = "\nNow produce the 3-to-5-sentence current-state summary."@;
    let whole = full_prompt(concept, revisions);
    let after_name = "\n\nCurrent definition (revision "@ + decimal(concept.revision as nat)
        + "):\n"@ + concept.definition@ + "\n\nRevision history (oldest first):\n"@ + history + tail;
    assert(whole =~= ("Concept: "@ + concept.name@) + after_name);
    lemma_stands_in("Concept: "@, concept.name@, after_name);
    let before_definition = "Concept: "@ + concept.name@ + "\n\nCurrent definition (revision "@
        + decimal(concept.revision as nat) + "):\n"@;
    let after_definition = "\n\nRevision history (oldest first):\n"@ + history + tail;
    assert(whole =~= (before_definition + concept.definition@) + after_definition);
    lemma_stands_in(before_definition, concept.definition@, after_definition);
    let shown = "--- Revision #"@ + decimal(revisions[k].revision as nat) + " (created "@
        + rfc3339_text(revisions[k].created_at.seconds(), revisions[k].created_at.nanoseconds())
        + ") ---\n"@ + revisions[k].definition@;
    let (before, behind) = lemma_history_holds(revisions, k);
    assert(whole =~= ((head + before) + shown) + (behind + tail));
    lemma_stands_in(head + before, shown, behind + tail);
}

proof fn lemma_history_holds(revisions: Seq<ConceptRevision>, k: int) -> (r: (
    Seq<char>,
    Seq<char>,
))
    requires
        0 <= k < revisions.len(),
    ensures
        history_text(revisions) == (r.0 + ("--- Revision #"@ + decimal(revisions[k].revision as nat)
            + " (created "@ + rfc3339_text(
            revisions[k].created_at.seconds(),
            revisions[k].created_at.nanoseconds(),
        ) + ") ---\n"@ + revisions[k].definition@)) + r.1,
    decreases revisions.len(),
{
    let front = revisions.drop_last();
    let shown = "--- Revision #"@ + decimal(revisions[k].revision as nat) + " (created "@
        + rfc3339_text(revisions[k].created_at.seconds(), revisions[k].created_at.nanoseconds())
        + ") ---\n"@ + revisions[k].definition@;
    if k == revisions.len() - 1 {
        let behind = if revision_text(revisions[k]) == shown {
            Seq::<char>::empty()
        } else {
            "\n"@
        };
        assert(history_text(revisions) =~= (history_text(front) + shown) + behind);
        (history_text(front), behind)
    } else {
        assert(front[k] == revisions[k]);
        let (a, b) = lemma_history_holds(front, k);
        let last = revision_text(revisions.last());
        assert(history_text(revisions) =~= (a + shown) + (b + last));
        (a, b + last)
    }
}

/// Revisions are shown in the order in which they come, each ending its line.
pub proof fn law_history_is_in_order(a: Seq<ConceptRevision>, b: Seq<ConceptRevision>)
    ensures
        history_text(a + b) == history_text(a) + history_text(b),
        a.len() > 0 ==> history_text(a).len() > 0 && history_text(a).last() == '\n',
    decreases b.len(),
{
    reveal_strlit("\n");
    if b.len() == 0 {
        assert(a + b =~= a);
        assert(history_text(a) + history_text(b) =~= history_text(a));
    } else {
        law_history_is_in_order(a, b.drop_last());
        assert((a + b).drop_last() =~= a + b.drop_last());
        assert(history_text(a + b) =~= history_text(a) + history_text(b));
    }
}

/// A prompt within its limit is sent whole. One over it is cut to exactly the
/// limit and ends with the notice, where there is room for more than that.
pub proof fn law_prompt_is_capped(prompt: Seq<char>, max_chars: int)
    requires
        0 <= max_chars,
    ensures
        max_chars == 0 || prompt.len() <= max_chars ==> capped(prompt, max_chars) == prompt,
        0 < max_chars < prompt.len() ==> capped(prompt, max_chars).len() == max_chars,
        TRUNCATION_NOTICE@.len() < max_chars < prompt.len() ==> {
            let kept = max_chars - TRUNCATION_NOTICE@.len();
            &&& capped(prompt, max_chars).take(kept) == prompt.take(kept)
            &&& capped(prompt, max_chars).skip(kept) == TRUNCATION_NOTICE@
        },
        0 < max_chars < prompt.len() && max_chars <= TRUNCATION_NOTICE@.len() ==> capped(
            prompt,
            max_chars,
        ).is_prefix_of(prompt),
{
    if TRUNCATION_NOTICE@.len() < max_chars < prompt.len() {
        let kept = max_chars - TRUNCATION_NOTICE@.len();
        assert(capped(prompt, max_chars).take(kept) =~= prompt.take(kept));
        assert(capped(prompt, max_chars).skip(kept) =~= TRUNCATION_NOTICE@);
    }
}

/// The concepts that are due are all those, in order.
pub proof fn law_due_positions(due: Seq<bool>)
    ensures
        forall|i: int| #[trigger] due_positions(due).contains(i) <==> 0 <= i < due.len() && due[i],
        forall|a: int, b: int|
            0 <= a < b < due_positions(due).len() ==> due_positions(due)[a] < due_positions(due)[b],
    decreases due.len(),
{
    let v = due_positions(due);
    if due.len() > 0 {
        let front = due.drop_last();
        law_due_positions(front);
        let u = due_positions(front);
        assert forall|i: int| #[trigger] v.contains(i) <==> 0 <= i < due.len() && due[i] by {
            if 0 <= i < front.len() {
                assert(front[i] == due[i]);
            }
            if v.contains(i) {
                let q = choose|q: int| 0 <= q < v.len() && v[q] == i;
                if q < u.len() {
                    assert(u[q] == i);
                    assert(u.contains(i));
                }
            }
            if u.contains(i) {
                let q = choose|q: int| 0 <= q < u.len() && u[q] == i;
                assert(v[q] == i);
            }
            if i == due.len() - 1 && due[i] {
                assert(v[v.len() - 1] == i);
            }
        }
        assert forall|a: int, b: int| 0 <= a < b < v.len() implies v[a] < v[b] by {
            assert(v[a] == u[a]);
            assert(u.contains(u[a]));
            if b < u.len() {
                assert(v[b] == u[b]);
            }
        }
    }
}

/// A refresh takes concepts on only where the feature is on, it is no dry run and
/// there is a model: as many as are due, up to the batch, and at least one. A
/// switched-off feature says so and nothing else; a dry run tells how many are due.
pub proof fn law_what_a_refresh_takes_on(
    r: (ConceptSummaryOutcome, usize),
    enabled: bool,
    due: usize,
    not_eligible: u32,
    dry_run: bool,
    has_llm: bool,
    batch_size: usize,
)
    requires
        is_start(r, enabled, due, not_eligible, dry_run, has_llm, batch_size),
    ensures
        r.1 <= due,
        r.1 > 0 ==> enabled && !dry_run && has_llm,
        enabled && !dry_run && has_llm && due > 0 ==> r.1 >= 1,
        enabled && !dry_run && has_llm && r.1 < due ==> r.1 == batch_size || (batch_size == 0
            && r.1 == 1),
        batch_size >= 1 ==> r.1 <= batch_size,
        r.0.skipped_disabled == !enabled,
        r.0.skipped_no_llm == (enabled && !dry_run && !has_llm),
        r.0.dry_run == dry_run,
        r.0.succeeded == 0 && r.0.llm_failed == 0 && r.0.minted_summary_ids@.len() == 0,
        enabled ==> r.0.skipped_not_eligible == not_eligible,
        !enabled ==> r.0.skipped_not_eligible == 0,
        enabled && dry_run && due <= u32::MAX ==> r.0.attempted == due,
        !enabled || !dry_run ==> r.0.attempted == 0,
{
    assert(r.0@.minted.len() == r.0.minted_summary_ids@.len());
}

/// Each concept that is taken on is attempted once; it succeeds, fails at the model
/// or fails at the store, and the ids of those that succeed are kept in order.
pub proof fn law_each_concept_counts_once(o: RefreshView, result: SummaryResult)
    ensures
        ({
            let n = with_concept(o, result);
            &&& n.attempted == o.attempted + 1
            &&& n.succeeded == o.succeeded + (if result is Stored { 1int } else { 0int })
            &&& n.llm_failed == o.llm_failed + (if result is LlmFailed { 1int } else { 0int })
            &&& n.skipped_not_eligible == o.skipped_not_eligible
            &&& n.skipped_disabled == o.skipped_disabled && n.skipped_no_llm == o.skipped_no_llm
            &&& n.dry_run == o.dry_run
            &&& o.minted.is_prefix_of(n.minted)
            &&& result matches SummaryResult::Stored(id) ==> (id@.len() > 0 ==> n.minted.len()
                == o.minted.len() + 1 && n.minted.last() == id@)
            &&& result matches SummaryResult::Stored(id) ==> (id@.len() == 0 ==> n.minted
                == o.minted)
            &&& !(result is Stored) ==> n.minted == o.minted
        }),
{
}

/// A stored summary changes the four columns of the summary and nothing else, and
/// was stored on a concept that had not changed since.
pub proof fn law_storing_touches_the_summary_only(
    before: Concept,
    after: Concept,
    source_revision: u32,
    prior: Option<u32>,
    prior_id: Option<Seq<char>>,
    summary: Seq<char>,
    id: Seq<char>,
    now: Timestamp,
)
    requires
        may_store(before, source_revision, prior, prior_id),
        is_stored(after, before, source_revision, summary, id, now),
    ensures
        before.revision == source_revision && after.revision == source_revision,
        before.living_summary_source_revision == prior,
        opt_text(before.living_summary_id) == prior_id,
        after.living_summary matches Some(s) && s@ == summary,
        after.living_summary_id matches Some(s) && s@ == id,
        after.living_summary_source_revision == Some(source_revision),
        after.living_summary_updated_at == Some(now),
        after.id == before.id && after.definition == before.definition && after.name
            == before.name && after.memoir_id == before.memoir_id && after.labels == before.labels
            && after.source_memory_ids == before.source_memory_ids && after.updated_at
            == before.updated_at && after.created_at == before.created_at && after.last_episode_id
            == before.last_episode_id,
{
}

/// A sample counts the revisions since the last summary, or all of them where there
/// was none, and never a negative age.
pub proof fn law_refresh_sample(r: RefreshSample, concept: Concept, age: int, id: Seq<char>)
    requires
        is_sample_of(r, concept, age, id),
    ensures
        concept.living_summary_source_revision is None ==> r.first_refresh
            && r.revisions_since_last == concept.revision,
        concept.living_summary_source_revision matches Some(p) ==> !r.first_refresh && (p
            <= concept.revision ==> p + r.revisions_since_last == concept.revision) && (p
            > concept.revision ==> r.revisions_since_last == 0),
        age >= 0 ==> r.age_secs_since_last == age,
        age < 0 ==> r.age_secs_since_last == 0,
        r.summary_id@ == id,
{
}

/// A bucket is warm once people viewed it or voted on it, up or down, often enough;
/// what a judge said does not warm it, and a bucket that is not there is warm only
/// where nothing is asked of it.
pub proof fn law_when_a_bucket_is_warm(b: SummaryBucket, threshold: u64)
    ensures
        is_warm(Some(b), threshold) <==> b.viewed_count + b.explicit_up + b.explicit_down
            >= threshold,
        is_warm(None, threshold) <==> threshold == 0,
{
}

/// A concept asked for by name is reported as not eligible exactly where it is not
/// due; a run over all of them reports none.
pub proof fn law_when_a_concept_is_not_eligible(due: Seq<bool>, single: bool)
    ensures
        !single ==> not_eligible_count(due, single) == 0,
        single ==> (not_eligible_count(due, single) == 1 <==> forall|i: int|
            0 <= i < due.len() ==> !#[trigger] due[i]),
        0 <= not_eligible_count(due, single) <= 1,
{
    law_due_positions(due);
    let v = due_positions(due);
    if v.len() > 0 {
        assert(v.contains(v[0]));
        assert(due[v[0]]);
    } else {
        assert forall|i: int| 0 <= i < due.len() implies !#[trigger] due[i] by {
            if due[i] {
                assert(v.contains(i));
            }
        }
    }
}

/// A blank answer gives no summary; any other gives itself, without the white space
/// around it.
pub proof fn law_summary_of_an_answer(answer: Seq<char>)
    ensures
        summary_of(answer) is None <==> forall|i: int|
            0 <= i < answer.len() ==> is_whitespace(#[trigger] answer[i]),
        summary_of(answer) matches Some(s) ==> exists|i: int, j: int| #[trigger]
            cut_out(answer, s, i, j),
{
    law_trimmed(answer);
    let (i, j) = choose|i: int, j: int| #[trigger] cut_out(answer, trimmed(answer), i, j);
    if trimmed(answer).len() > 0 {
        assert(answer[i] == trimmed(answer)[0]);
        assert(cut_out(answer, summary_of(answer)->0, i, j));
    }
}

/// What is cached of a fresh summary is what the judge is shown, and is cached
/// always; it is queued exactly where it is sampled, and archived exactly where
/// nights are judged, each time as it is cached.
pub proof fn law_what_is_kept_of_a_summary(
    r: JudgePlan,
    summary_id: Seq<char>,
    concept_id: Seq<char>,
    prompt: Seq<char>,
    candidate: Seq<char>,
    max_chars: usize,
    stamp_hash: Seq<char>,
    sampled: bool,
    nightly: bool,
    now: i64,
)
    requires
        is_judge_plan(
            r,
            summary_id,
            concept_id,
            prompt,
            candidate,
            max_chars,
            stamp_hash,
            sampled,
            nightly,
            now,
        ),
    ensures
        r.cached.summary_id@ == summary_id && r.cached.concept_id@ == concept_id
            && r.cached.stamp_hash@ == stamp_hash,
        r.cached.candidate@ == shown_candidate(candidate, max_chars) && r.cached.prompt@
            == shown_prompt(prompt, candidate, max_chars),
        r.job is Some <==> sampled,
        r.archived is Some <==> nightly,
        r.job matches Some(j) ==> j.surface_id@ == summary_id && j.candidate@
            == r.cached.candidate@ && j.prompt@ == r.cached.prompt@ && j.stamp_hash@ == stamp_hash,
        r.archived matches Some(e) ==> e.id@ == summary_id && e.candidate@ == r.cached.candidate@
            && e.minted_at == now && e.stamp_hash@ == stamp_hash,
{
}

} // verus!
