//! Resolving a suspected duplicate: the gates before a verdict is asked for,
//! and what each verdict does to the two memories.

use crate::dedup::merge::{
    MergeNotes, absorb_memory, clean_facts, copy_memory, extract_unique_lines, is_merge_of,
    keyword_union, merge_keywords, merged_summary, same_identity, unique_lines, usable_facts,
};
use crate::text::{
    contains_text, decimal, join, lines, lines_of, pieces, prefix, push_decimal, str_eq,
    string_of, take_chars, texts, trim, trimmed,
};
use crate::time::Timestamp;
use crate::types::{DedupRelation, Memory, clone_strings, higher_importance, opt_text};
use vstd::prelude::*;
use vstd::string::*;

verus! {

/// A judge's answer on a pair of memories.
#[derive(Clone, Debug)]
pub struct DedupVerdict {
    pub relation: DedupRelation,
    pub merged_summary: String,
    pub novel_facts: Vec<String>,
    pub conflict_detected: bool,
    pub suggested_topic: Option<String>,
}

/// The record kept of a decision, but for its scores and its time.
#[derive(Clone, Debug)]
pub struct DedupDecision {
    pub winner_id: Option<String>,
    pub loser_id: Option<String>,
    pub canonical_id: Option<String>,
    pub relation: DedupRelation,
    pub reason: String,
    pub operator: String,
    pub reversible: bool,
    pub merged_summary: Option<String>,
    pub novel_facts: Vec<String>,
    pub conflict_detected: bool,
}

/// What is to be written for a pair.
#[derive(Clone, Debug)]
pub enum DedupPlan {
    /// The existing memory absorbed the new one, which it supersedes.
    Absorb { winner: Memory, loser_id: String },
    /// The new memory takes over from the existing one, which it supersedes.
    Replace { winner: Memory, loser_id: String },
    /// The memories are linked to each other; a side is given where it changed.
    Link { left: Option<Memory>, right: Option<Memory>, decision: DedupDecision },
    /// Both memories stay as they are.
    Keep { decision: DedupDecision },
}

/// The relation a plan settles on.
pub open spec fn plan_relation(p: DedupPlan) -> DedupRelation {
    match p {
        DedupPlan::Absorb { .. } => DedupRelation::Duplicate,
        DedupPlan::Replace { .. } => DedupRelation::Update,
        DedupPlan::Link { .. } => DedupRelation::Related,
        DedupPlan::Keep { .. } => DedupRelation::Distinct,
    }
}

/// What settles a pair before a judge is asked: a memory that is gone or superseded
/// is distinct from everything.
pub open spec fn settled_by_state(existing: Option<&Memory>, new_memory: Option<&Memory>) -> Option<
    DedupRelation,
> {
    if existing is None || new_memory is None || existing->0.superseded_by is Some
        || new_memory->0.superseded_by is Some {
        Some(DedupRelation::Distinct)
    } else {
        None
    }
}

/// Whether a pair is settled before a judge is asked.
pub fn dedup_job_gate(existing: Option<&Memory>, new_memory: Option<&Memory>) -> (r: Option<
    DedupRelation,
>)
    ensures
        r == settled_by_state(existing, new_memory),
{
    match (existing, new_memory) {
        (Some(a), Some(b)) => {
            if a.superseded_by.is_some() || b.superseded_by.is_some() {
                Some(DedupRelation::Distinct)
            } else {
                None
            }
        },
        _ => Some(DedupRelation::Distinct),
    }
}

/// What settles a pair by its canonical memories: two memories of one canonical are
/// duplicates already.
pub open spec fn settled_by_canonical(a: Seq<char>, b: Seq<char>) -> Option<DedupRelation> {
    if a == b {
        Some(DedupRelation::Duplicate)
    } else {
        None
    }
}

/// Whether a pair is settled by its canonical memories.
pub fn dedup_canonical_gate(existing: &str, new_canonical: &str) -> (r: Option<DedupRelation>)
    ensures
        r == settled_by_canonical(existing@, new_canonical@),
{
    if str_eq(existing, new_canonical) {
        Some(DedupRelation::Duplicate)
    } else {
        None
    }
}

/// Whether `r` is the verdict, or a distinct one that says nothing where there is none.
pub open spec fn is_verdict_to_use(r: DedupVerdict, verdict: Option<DedupVerdict>) -> bool {
    match verdict {
        Some(v) => r == v,
        None => {
            &&& r.relation is Distinct
            &&& r.merged_summary@.len() == 0
            &&& r.novel_facts@.len() == 0
            &&& !r.conflict_detected
            &&& r.suggested_topic is None
        },
    }
}

/// The verdict, or a distinct one where none could be had.
pub fn verdict_or_distinct(verdict: Option<DedupVerdict>) -> (r: DedupVerdict)
    ensures
        is_verdict_to_use(r, verdict),
{
    match verdict {
        Some(v) => v,
        None => DedupVerdict {
            relation: DedupRelation::Distinct,
            merged_summary: String::new(),
            novel_facts: Vec::new(),
            conflict_detected: false,
            suggested_topic: None,
        },
    }
}

/// The memory that takes over from an outdated one.
pub open spec fn is_update_of(
    r: Memory,
    newer: Memory,
    older: Memory,
    summary: Seq<char>,
    now: Timestamp,
    max_chars: int,
) -> bool {
    &&& same_identity(r, newer)
    &&& r.content@ == newer.content@
    &&& r.summary@ == (if trimmed(summary).len() > 0 {
        prefix(summary, max_chars)
    } else {
        newer.summary@
    })
    &&& texts(r.keywords@) == keyword_union(texts(newer.keywords@), texts(older.keywords@))
    &&& r.access_count == newer.access_count
    &&& r.importance == higher_importance(newer.importance, older.importance)
    &&& r.tier == newer.tier
    &&& r.last_accessed == newer.last_accessed
    &&& r.updated_at == now
}

/// Carries keywords and importance of an outdated memory into the newer one.
pub fn update_from_older(
    newer: &Memory,
    older: &Memory,
    summary: &str,
    now: Timestamp,
    summary_max_chars: usize,
) -> (r: Memory)
    ensures
        is_update_of(r, *newer, *older, summary@, now, summary_max_chars as int),
{
    let mut m: Memory = copy_memory(newer);
    merge_keywords(&mut m.keywords, &older.keywords);
    m.importance = newer.importance.greater(older.importance);
    if !trim(summary).as_str().is_empty() {
        m.summary = take_chars(summary, summary_max_chars);
    }
    m.updated_at = now;
    m
}

/// A memory with one more related memory.
pub open spec fn is_link_of(r: Option<Memory>, m: Memory, other: Seq<char>) -> bool {
    if texts(m.related_ids@).contains(other) {
        r is None
    } else {
        r matches Some(l) && {
            &&& texts(l.related_ids@) == texts(m.related_ids@).push(other)
            &&& l.id@ == m.id@
            &&& l.topic@ == m.topic@
            &&& l.summary@ == m.summary@
            &&& l.content@ == m.content@
            &&& texts(l.keywords@) == texts(m.keywords@)
            &&& l.importance == m.importance
            &&& l.access_count == m.access_count
            &&& l.superseded_by == m.superseded_by
            &&& l.canonical_id == m.canonical_id
            &&& l.status == m.status
            &&& l.tier == m.tier
            &&& l.cluster_id == m.cluster_id
            &&& l.created_at == m.created_at
            &&& l.updated_at == m.updated_at
            &&& l.last_accessed == m.last_accessed
        }
    }
}

/// Relates `m` to another memory; `None` where it already is.
pub fn link_to(m: &Memory, other: &str) -> (r: Option<Memory>)
    ensures
        is_link_of(r, *m, other@),
{
    if contains_text(&m.related_ids, other) {
        None
    } else {
        let mut l: Memory = copy_memory(m);
        let ghost before = l.related_ids@;
        l.related_ids.push(other.to_owned());
        assert(texts(l.related_ids@) =~= texts(before).push(other@));
        Some(l)
    }
}

/// The record of a verdict that supersedes nothing.
pub open spec fn is_verdict_record(
    d: DedupDecision,
    relation: DedupRelation,
    new_id: Seq<char>,
    verdict: DedupVerdict,
    reason: Seq<char>,
) -> bool {
    &&& d.winner_id is None
    &&& opt_text(d.loser_id) == Some(new_id)
    &&& d.canonical_id is None
    &&& d.relation == relation
    &&& d.reason@ == reason
    &&& d.operator@ == "auto"@
    &&& d.reversible
    &&& opt_text(d.merged_summary) == (if trimmed(verdict.merged_summary@).len() > 0 {
        Some(verdict.merged_summary@)
    } else {
        None
    })
    &&& texts(d.novel_facts@) == texts(verdict.novel_facts@)
    &&& d.conflict_detected == verdict.conflict_detected
}

fn verdict_record(
    relation: DedupRelation,
    new_id: &str,
    verdict: &DedupVerdict,
    reason: &str,
) -> (d: DedupDecision)
    ensures
        is_verdict_record(d, relation, new_id@, *verdict, reason@),
{
    let summary: Option<String> = if trim(verdict.merged_summary.as_str()).as_str().is_empty() {
        None
    } else {
        Some(verdict.merged_summary.clone())
    };
    DedupDecision {
        winner_id: None,
        loser_id: Some(new_id.to_owned()),
        canonical_id: None,
        relation,
        reason: reason.to_owned(),
        operator: "auto".to_owned(),
        reversible: true,
        merged_summary: summary,
        novel_facts: clone_strings(&verdict.novel_facts),
        conflict_detected: verdict.conflict_detected,
    }
}

/// Whether `p` is what the verdict asks to be written for the pair.
pub open spec fn is_plan_of(
    p: DedupPlan,
    existing: Memory,
    new_memory: Memory,
    verdict: DedupVerdict,
    reason: Seq<char>,
    now: Timestamp,
    max_chars: int,
) -> bool {
    &&& plan_relation(p) == verdict.relation
    &&& match p {
        DedupPlan::Absorb { winner, loser_id } => {
            &&& loser_id@ == new_memory.id@
            &&& is_merge_of(
                winner,
                existing,
                new_memory,
                texts(verdict.novel_facts@),
                Some(verdict.merged_summary@),
                now,
                max_chars,
            )
        },
        DedupPlan::Replace { winner, loser_id } => {
            &&& loser_id@ == existing.id@
            &&& is_update_of(
                winner,
                new_memory,
                existing,
                verdict.merged_summary@,
                now,
                max_chars,
            )
        },
        DedupPlan::Link { left, right, decision } => {
            &&& is_link_of(left, existing, new_memory.id@)
            &&& is_link_of(right, new_memory, existing.id@)
            &&& is_verdict_record(
                decision,
                DedupRelation::Related,
                new_memory.id@,
                verdict,
                reason,
            )
        },
        DedupPlan::Keep { decision } => is_verdict_record(
            decision,
            DedupRelation::Distinct,
            new_memory.id@,
            verdict,
            reason,
        ),
    }
}

/// What a verdict asks to be written for a pair of memories.
///
/// A duplicate is absorbed by the existing memory, an update takes over from
/// it, related memories are linked, and distinct ones are left alone.
pub fn resolve_dedup_job(
    existing: &Memory,
    new_memory: &Memory,
    verdict: &DedupVerdict,
    reason: &str,
    now: Timestamp,
    summary_max_chars: usize,
) -> (r: DedupPlan)
    ensures
        is_plan_of(r, *existing, *new_memory, *verdict, reason@, now, summary_max_chars as int),
{
    match verdict.relation {
        DedupRelation::Duplicate => {
            let notes: MergeNotes = MergeNotes {
                novel_facts: clone_strings(&verdict.novel_facts),
                merged_summary: Some(verdict.merged_summary.clone()),
            };
            let winner: Memory = absorb_memory(
                existing,
                new_memory,
                &notes,
                now,
                summary_max_chars,
            );
            DedupPlan::Absorb { winner, loser_id: new_memory.id.clone() }
        },
        DedupRelation::Update => {
            let winner: Memory = update_from_older(
                new_memory,
                existing,
                verdict.merged_summary.as_str(),
                now,
                summary_max_chars,
            );
            DedupPlan::Replace { winner, loser_id: existing.id.clone() }
        },
        DedupRelation::Related => {
            DedupPlan::Link {
                left: link_to(existing, new_memory.id.as_str()),
                right: link_to(new_memory, existing.id.as_str()),
                decision: verdict_record(
                    DedupRelation::Related,
                    new_memory.id.as_str(),
                    verdict,
                    reason,
                ),
            }
        },
        DedupRelation::Distinct => {
            DedupPlan::Keep {
                decision: verdict_record(
                    DedupRelation::Distinct,
                    new_memory.id.as_str(),
                    verdict,
                    reason,
                ),
            }
        },
    }
}

/// Whether `d` records that `winner` took over from `loser`.
pub open spec fn is_merge_record(
    d: DedupDecision,
    winner: Seq<char>,
    canonical: Option<Seq<char>>,
    loser: Seq<char>,
    relation: DedupRelation,
) -> bool {
    &&& opt_text(d.winner_id) == Some(winner)
    &&& opt_text(d.loser_id) == Some(loser)
    &&& opt_text(d.canonical_id) == Some(
        match canonical {
            Some(c) => c,
            None => winner,
        },
    )
    &&& d.relation == relation
    &&& d.reversible
    &&& d.conflict_detected == (relation is Update)
}

/// The record of a merge that supersedes `loser`.
///
/// The canonical memory falls back to the winner where it is unknown, and an
/// update counts as a conflict.
pub fn record_dedup_artifacts(
    winner_id: &str,
    canonical_id: Option<String>,
    loser_id: &str,
    relation: DedupRelation,
    reason: &str,
    winner_summary: Option<String>,
) -> (d: DedupDecision)
    ensures
        is_merge_record(d, winner_id@, opt_text(canonical_id), loser_id@, relation),
        d.reason@ == reason@,
        d.operator@ == "auto"@,
        d.merged_summary == winner_summary,
        d.novel_facts@.len() == 0,
{
    let canonical: String = match canonical_id {
        Some(c) => c,
        None => winner_id.to_owned(),
    };
    DedupDecision {
        winner_id: Some(winner_id.to_owned()),
        loser_id: Some(loser_id.to_owned()),
        canonical_id: Some(canonical),
        relation,
        reason: reason.to_owned(),
        operator: "auto".to_owned(),
        reversible: true,
        merged_summary: winner_summary,
        novel_facts: Vec::new(),
        conflict_detected: match relation {
            DedupRelation::Update => true,
            _ => false,
        },
    }
}

/// The name of the savepoint that guards the merge with this number.
pub open spec fn savepoint_text(number: u32) -> Seq<char> {
    "dedup_"@ + decimal(number as nat)
}

/// The name of the savepoint that guards the merge with this number.
pub fn savepoint_name(number: u32) -> (r: String)
    ensures
        r@ == savepoint_text(number),
{
    let mut s: String = "dedup_".to_owned();
    push_decimal(&mut s, number as u64);
    s
}

/// The error with which a batch run ends when a merge cannot be committed.
pub fn commit_failure(number: u32, cause: &str) -> (r: String)
    ensures
        r@ == "dedup: RELEASE "@ + savepoint_text(number) + " (commit) failed: "@ + cause@,
{
    let mut s: String = "dedup: RELEASE ".to_owned();
    s.append(savepoint_name(number).as_str());
    s.append(" (commit) failed: ");
    s.append(cause);
    s
}

/// The lines of the loser that the winner lacks, as facts.
pub open spec fn facts_taken_over(loser: Seq<char>, winner: Seq<char>) -> Seq<Seq<char>> {
    usable_facts(lines(join(unique_lines(loser, winner), "\n"@)))
}

/// The record of a merge made by the batch scan.
pub fn batch_decision(
    winner: &Memory,
    canonical_id: Option<String>,
    loser: &Memory,
    relation: DedupRelation,
) -> (d: DedupDecision)
    ensures
        is_merge_record(d, winner.id@, opt_text(canonical_id), loser.id@, relation),
        d.reason@ == "batch_dedup"@,
        d.operator@ == "manual"@,
        opt_text(d.merged_summary) == Some(winner.summary@),
        texts(d.novel_facts@) == facts_taken_over(loser.content@, winner.content@),
{
    let unique: String = extract_unique_lines(loser.content.as_str(), winner.content.as_str());
    let pieces_of: Vec<Vec<char>> = lines_of(unique.as_str());
    let mut facts: Vec<String> = Vec::new();
    let mut i: usize = 0;
    while i < pieces_of.len()
        invariant
            i <= pieces_of@.len(),
            texts(facts@) == pieces(pieces_of@).take(i as int),
        decreases pieces_of@.len() - i,
    {
        let ghost before = facts@;
        facts.push(string_of(&pieces_of[i]));
        assert(texts(facts@) =~= texts(before).push(pieces_of@[i as int]@));
        assert(pieces(pieces_of@).take(i + 1) =~= pieces(pieces_of@).take(i as int).push(
            pieces_of@[i as int]@,
        ));
        i = i + 1;
    }
    assert(pieces(pieces_of@).take(i as int) =~= pieces(pieces_of@));
    let canonical: String = match canonical_id {
        Some(c) => c,
        None => winner.id.clone(),
    };
    DedupDecision {
        winner_id: Some(winner.id.clone()),
        loser_id: Some(loser.id.clone()),
        canonical_id: Some(canonical),
        relation,
        reason: "batch_dedup".to_owned(),
        operator: "manual".to_owned(),
        reversible: true,
        merged_summary: Some(winner.summary.clone()),
        novel_facts: clean_facts(&facts),
        conflict_detected: match relation {
            DedupRelation::Update => true,
            _ => false,
        },
    }
}

} // verus!
