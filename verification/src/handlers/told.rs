//! What the answers in words tell: every item of a list, in order, and of each item
//! what it is about.

use crate::cold_archive_summary::contract::{
    ContractViolation, hundredths, hundredths_text, trigram_coverage, violation_text,
};
use crate::cold_archive_summary::escaping::stands_at;
use crate::cold_archive_summary::refresh::{current_reason, short_reason, tier_reason};
use crate::concept_summary::laws::stands_in;
use crate::concept_summary::refresh::ConceptSummaryOutcome;
use crate::handlers::adaptive::{ArsAccelerationReleaseGateReport, gate_text, gate_word, json_type};
use crate::handlers::cold_archive::{ArchiveSummaryRefreshOutput, refresh_text};
use crate::handlers::diagnostics::{
    ConfigSnapshot, HealthOutput, HealthReportItem, QueueCounts, StatsOutput, SurfaceKind,
    config_text, health_text, issue_lines, queue_text, stats_text, topic_line, topic_lines,
};
use crate::handlers::judge::{JudgeEnqueueResult, enqueue_text};
use crate::handlers::knowledge::{
    ConceptAddOutput, ConceptCard, ConceptRefineOutput, ConceptSearchOutput, ConceptStateOutput,
    LinkOutput, MemoirCreateOutput, MemoirInspectOutput, MemoirListOutput, MemoirShowOutput,
    added_text, cluster_sql, concept_line, concept_lines, concept_search_text, concept_state_text,
    created_text, heading, inspect_text, link_line, link_lines, linked_text, memoir_line,
    memoir_lines, memoir_list_text, memoir_text, neighbor_line, neighbor_lines, placeholders,
    refined_text, source_clusters, summary_note, summary_refresh_text,
};
use crate::handlers::maintenance::{
    CanonicalItem, EvidenceOutput, GcOutput, IntelligentMergeTryOutput, MergeVerdict,
    canonical_line, canonical_lines, canonicals_text, evidence_line, evidence_lines,
    evidence_text, gc_cli_text, gc_text, merge_try_cli_text, merge_try_text, verdict_name,
};
use crate::handlers::memory::{
    ConceptHistoryOutput, ConceptRevisionSummary, RecentMemory, RecentOutput, age_text,
    history_parts, recent_cli_line, recent_cli_text, recent_line, recent_text, revision_entry,
    short_line,
};
use crate::handlers::session::{IngestSessionOutput, ingest_line, ingest_list, surface_label};
use crate::handlers::timeline::{
    EpisodeRow, RevisionRow, TimelineOutput, TimelineWindow, episode_text, event_line, memory_sql,
    memory_text, revision_sql, revision_text, timeline_text, window_conditions,
};
use crate::inventory::{AuthPolicy, policy_name};
use crate::json::FieldView;
use crate::text::{bool_text, decimal, join, prefix, text_or, texts};
use crate::time::{Timestamp, formatted, span_secs};
use crate::types::{
    Concept, ConceptLink, Importance, Memoir, MemoryEvidence, MemoryTier, importance_word,
};
use vstd::prelude::*;
use vstd::string::*;

verus! {

broadcast proof fn lemma_stands_at_the_end(a: Seq<char>, part: Seq<char>)
    ensures
        #[trigger] stands_in(a + part, part),
{
    assert((a + part).subrange(a.len() as int, (a.len() + part.len()) as int) =~= part);
    assert(stands_at(a + part, part, a.len() as int));
}

broadcast proof fn lemma_stands_for_itself(part: Seq<char>)
    ensures
        #[trigger] stands_in(part, part),
{
    assert(part.subrange(0, part.len() as int) =~= part);
    assert(stands_at(part, part, 0));
}

broadcast proof fn lemma_stands_before(a: Seq<char>, b: Seq<char>, part: Seq<char>)
    requires
        stands_in(a, part),
    ensures
        #[trigger] stands_in(a + b, part),
{
    let i = choose|i: int| #[trigger] stands_at(a, part, i);
    assert((a + b).subrange(i, i + part.len()) =~= a.subrange(i, i + part.len()));
    assert(stands_at(a + b, part, i));
}

broadcast proof fn lemma_stands_with_its_label(a: Seq<char>, label: Seq<char>, part: Seq<char>)
    ensures
        #[trigger] stands_in((a + label) + part, label + part),
{
    assert((a + label) + part =~= a + (label + part));
    lemma_stands_at_the_end(a, label + part);
}

proof fn lemma_part_of_a_join(parts: Seq<Seq<char>>, sep: Seq<char>, k: int)
    requires
        0 <= k < parts.len(),
    ensures
        stands_in(join(parts, sep), parts[k]),
    decreases parts.len(),
{
    if parts.len() == 1 {
        lemma_stands_for_itself(parts[0]);
    } else if k == parts.len() - 1 {
        lemma_stands_at_the_end(join(parts.drop_last(), sep) + sep, parts[k]);
    } else {
        lemma_part_of_a_join(parts.drop_last(), sep, k);
        assert(parts.drop_last()[k] == parts[k]);
        lemma_stands_before(join(parts.drop_last(), sep), sep, parts[k]);
        lemma_stands_before(join(parts.drop_last(), sep) + sep, parts.last(), parts[k]);
    }
}

proof fn lemma_part_of_a_part(text: Seq<char>, middle: Seq<char>, part: Seq<char>)
    requires
        stands_in(text, middle),
        stands_in(middle, part),
    ensures
        stands_in(text, part),
{
    let i = choose|i: int| #[trigger] stands_at(text, middle, i);
    let j = choose|j: int| #[trigger] stands_at(middle, part, j);
    assert(text.subrange(i + j, i + j + part.len()) =~= middle.subrange(j, j + part.len())) by {
        assert forall|q: int| 0 <= q < part.len() implies #[trigger] text.subrange(
            i + j,
            i + j + part.len(),
        )[q] == middle.subrange(j, j + part.len())[q] by {
            assert(text.subrange(i, i + middle.len())[j + q] == middle[j + q]);
        }
    }
    assert(stands_at(text, part, i + j));
}

/// Memoirs are listed in order, one after another, each with its own line.
pub proof fn law_memoir_lines(a: Seq<Memoir>, b: Seq<Memoir>, x: Memoir, compact: bool)
    ensures
        memoir_lines(a + b, compact) == memoir_lines(a, compact) + memoir_lines(b, compact),
        memoir_lines(seq![x], compact) == memoir_line(x, compact),
        memoir_lines(Seq::<Memoir>::empty(), compact).len() == 0,
    decreases b.len(),
{
    assert(seq![x].drop_last() =~= Seq::<Memoir>::empty());
    assert(memoir_lines(seq![x].drop_last(), compact) =~= Seq::<char>::empty());
    assert(seq![x].last() == x);
    assert(memoir_lines(seq![x], compact) =~= memoir_line(x, compact));
    if b.len() == 0 {
        assert(a + b =~= a);
        assert(memoir_lines(a, compact) + memoir_lines(b, compact) =~= memoir_lines(a, compact));
    } else {
        law_memoir_lines(a, b.drop_last(), x, compact);
        assert((a + b).drop_last() =~= a + b.drop_last());
        assert(memoir_lines(a + b, compact) =~= memoir_lines(a, compact) + memoir_lines(b, compact));
    }
}

/// Neighbours are listed in order, one after another, each with its own line.
pub proof fn law_neighbor_lines(a: Seq<ConceptCard>, b: Seq<ConceptCard>, x: ConceptCard, compact: bool)
    ensures
        neighbor_lines(a + b, compact) == neighbor_lines(a, compact) + neighbor_lines(b, compact),
        neighbor_lines(seq![x], compact) == neighbor_line(x, compact),
        neighbor_lines(Seq::<ConceptCard>::empty(), compact).len() == 0,
    decreases b.len(),
{
    assert(seq![x].drop_last() =~= Seq::<ConceptCard>::empty());
    assert(neighbor_lines(seq![x].drop_last(), compact) =~= Seq::<char>::empty());
    assert(seq![x].last() == x);
    assert(neighbor_lines(seq![x], compact) =~= neighbor_line(x, compact));
    if b.len() == 0 {
        assert(a + b =~= a);
        assert(neighbor_lines(a, compact) + neighbor_lines(b, compact) =~= neighbor_lines(a, compact));
    } else {
        law_neighbor_lines(a, b.drop_last(), x, compact);
        assert((a + b).drop_last() =~= a + b.drop_last());
        assert(neighbor_lines(a + b, compact) =~= neighbor_lines(a, compact) + neighbor_lines(b, compact));
    }
}

/// Links are listed in order, one after another, each with its own line.
pub proof fn law_link_lines(a: Seq<ConceptLink>, b: Seq<ConceptLink>, x: ConceptLink, compact: bool)
    ensures
        link_lines(a + b, compact) == link_lines(a, compact) + link_lines(b, compact),
        link_lines(seq![x], compact) == link_line(x, compact),
        link_lines(Seq::<ConceptLink>::empty(), compact).len() == 0,
    decreases b.len(),
{
    assert(seq![x].drop_last() =~= Seq::<ConceptLink>::empty());
    assert(link_lines(seq![x].drop_last(), compact) =~= Seq::<char>::empty());
    assert(seq![x].last() == x);
    assert(link_lines(seq![x], compact) =~= link_line(x, compact));
    if b.len() == 0 {
        assert(a + b =~= a);
        assert(link_lines(a, compact) + link_lines(b, compact) =~= link_lines(a, compact));
    } else {
        law_link_lines(a, b.drop_last(), x, compact);
        assert((a + b).drop_last() =~= a + b.drop_last());
        assert(link_lines(a + b, compact) =~= link_lines(a, compact) + link_lines(b, compact));
    }
}

/// Concepts are listed in order, one after another, each with its own line.
pub proof fn law_concept_lines(a: Seq<ConceptCard>, b: Seq<ConceptCard>, x: ConceptCard, compact: bool)
    ensures
        concept_lines(a + b, compact) == concept_lines(a, compact) + concept_lines(b, compact),
        concept_lines(seq![x], compact) == concept_line(x, compact),
        concept_lines(Seq::<ConceptCard>::empty(), compact).len() == 0,
    decreases b.len(),
{
    assert(seq![x].drop_last() =~= Seq::<ConceptCard>::empty());
    assert(concept_lines(seq![x].drop_last(), compact) =~= Seq::<char>::empty());
    assert(seq![x].last() == x);
    assert(concept_lines(seq![x], compact) =~= concept_line(x, compact));
    if b.len() == 0 {
        assert(a + b =~= a);
        assert(concept_lines(a, compact) + concept_lines(b, compact) =~= concept_lines(a, compact));
    } else {
        law_concept_lines(a, b.drop_last(), x, compact);
        assert((a + b).drop_last() =~= a + b.drop_last());
        assert(concept_lines(a + b, compact) =~= concept_lines(a, compact) + concept_lines(b, compact));
    }
}

/// Canonical memories are listed in order, one after another, each with its own line.
pub proof fn law_canonical_lines(a: Seq<CanonicalItem>, b: Seq<CanonicalItem>, x: CanonicalItem)
    ensures
        canonical_lines(a + b) == canonical_lines(a) + canonical_lines(b),
        canonical_lines(seq![x]) == canonical_line(x),
        canonical_lines(Seq::<CanonicalItem>::empty()).len() == 0,
    decreases b.len(),
{
    assert(seq![x].drop_last() =~= Seq::<CanonicalItem>::empty());
    assert(canonical_lines(seq![x].drop_last()) =~= Seq::<char>::empty());
    assert(seq![x].last() == x);
    assert(canonical_lines(seq![x]) =~= canonical_line(x));
    if b.len() == 0 {
        assert(a + b =~= a);
        assert(canonical_lines(a) + canonical_lines(b) =~= canonical_lines(a));
    } else {
        law_canonical_lines(a, b.drop_last(), x);
        assert((a + b).drop_last() =~= a + b.drop_last());
        assert(canonical_lines(a + b) =~= canonical_lines(a) + canonical_lines(b));
    }
}

/// Rows of evidence are listed in order, one after another, each with its own line.
pub proof fn law_evidence_lines(a: Seq<MemoryEvidence>, b: Seq<MemoryEvidence>, x: MemoryEvidence)
    ensures
        evidence_lines(a + b) == evidence_lines(a) + evidence_lines(b),
        evidence_lines(seq![x]) == evidence_line(x),
        evidence_lines(Seq::<MemoryEvidence>::empty()).len() == 0,
    decreases b.len(),
{
    assert(seq![x].drop_last() =~= Seq::<MemoryEvidence>::empty());
    assert(evidence_lines(seq![x].drop_last()) =~= Seq::<char>::empty());
    assert(seq![x].last() == x);
    assert(evidence_lines(seq![x]) =~= evidence_line(x));
    if b.len() == 0 {
        assert(a + b =~= a);
        assert(evidence_lines(a) + evidence_lines(b) =~= evidence_lines(a));
    } else {
        law_evidence_lines(a, b.drop_last(), x);
        assert((a + b).drop_last() =~= a + b.drop_last());
        assert(evidence_lines(a + b) =~= evidence_lines(a) + evidence_lines(b));
    }
}

/// Topics are listed in order, one after another, each with its own line.
pub proof fn law_topic_lines(a: Seq<HealthReportItem>, b: Seq<HealthReportItem>, x: HealthReportItem)
    ensures
        topic_lines(a + b) == topic_lines(a) + topic_lines(b),
        topic_lines(seq![x]) == topic_line(x),
        topic_lines(Seq::<HealthReportItem>::empty()).len() == 0,
    decreases b.len(),
{
    assert(seq![x].drop_last() =~= Seq::<HealthReportItem>::empty());
    assert(topic_lines(seq![x].drop_last()) =~= Seq::<char>::empty());
    assert(seq![x].last() == x);
    assert(topic_lines(seq![x]) =~= topic_line(x));
    if b.len() == 0 {
        assert(a + b =~= a);
        assert(topic_lines(a) + topic_lines(b) =~= topic_lines(a));
    } else {
        law_topic_lines(a, b.drop_last(), x);
        assert((a + b).drop_last() =~= a + b.drop_last());
        assert(topic_lines(a + b) =~= topic_lines(a) + topic_lines(b));
    }
}

/// A line tells what its item is about.
pub proof fn law_lines_tell_their_items(
    memoir: Memoir,
    card: ConceptCard,
    link: ConceptLink,
    item: CanonicalItem,
    evidence: MemoryEvidence,
    topic: HealthReportItem,
    compact: bool,
)
    ensures
        stands_in(memoir_line(memoir, compact), memoir.name@),
        stands_in(memoir_line(memoir, compact), memoir.description@),
        stands_in(concept_line(card, compact), card.name@),
        stands_in(concept_line(card, compact), card.definition@),
        stands_in(concept_line(card, compact), card.confidence@),
        stands_in(concept_line(card, compact), decimal(card.revision as nat)),
        stands_in(neighbor_line(card, compact), card.name@),
        stands_in(neighbor_line(card, compact), card.confidence@),
        stands_in(link_line(link, compact), link.source_id@),
        stands_in(link_line(link, compact), link.target_id@),
        stands_in(link_line(link, compact), link.relation@),
        stands_in(canonical_line(item), item.id@),
        stands_in(canonical_line(item), item.summary@),
        stands_in(canonical_line(item), decimal(item.support_count as nat)),
        stands_in(canonical_line(item), decimal(item.merge_count as nat)),
        stands_in(canonical_line(item), item.source_diversity@),
        stands_in(canonical_line(item), item.dedup_confidence@),
        stands_in(evidence_line(evidence), evidence.id@),
        stands_in(evidence_line(evidence), evidence.source_topic@),
        stands_in(evidence_line(evidence), evidence.summary@),
        stands_in(evidence_line(evidence), evidence.content@),
        stands_in(topic_line(topic), topic.topic@),
        stands_in(topic_line(topic), decimal(topic.count as nat)),
        stands_in(topic_line(topic), topic.avg_strength@),
        stands_in(topic_line(topic), decimal(topic.stale_count as nat)),
        stands_in(topic_line(topic), bool_text(topic.needs_consolidation)),
{
    broadcast use {
        lemma_stands_at_the_end,
        lemma_stands_for_itself,
        lemma_stands_before,
    };
    if compact {
        assert(stands_in(memoir_line(memoir, compact), memoir.name@));
        assert(stands_in(memoir_line(memoir, compact), memoir.description@));
        assert(stands_in(concept_line(card, compact), card.name@));
        assert(stands_in(concept_line(card, compact), card.definition@));
        assert(stands_in(concept_line(card, compact), card.confidence@));
        assert(stands_in(concept_line(card, compact), decimal(card.revision as nat)));
        assert(stands_in(neighbor_line(card, compact), card.name@));
        assert(stands_in(neighbor_line(card, compact), card.confidence@));
        assert(stands_in(link_line(link, compact), link.source_id@));
        assert(stands_in(link_line(link, compact), link.target_id@));
        assert(stands_in(link_line(link, compact), link.relation@));
    } else {
        assert(stands_in(memoir_line(memoir, compact), memoir.name@));
        assert(stands_in(memoir_line(memoir, compact), memoir.description@));
        assert(stands_in(concept_line(card, compact), card.name@));
        assert(stands_in(concept_line(card, compact), card.definition@));
        assert(stands_in(concept_line(card, compact), card.confidence@));
        assert(stands_in(concept_line(card, compact), decimal(card.revision as nat)));
        assert(stands_in(neighbor_line(card, compact), card.name@));
        assert(stands_in(neighbor_line(card, compact), card.confidence@));
        assert(stands_in(link_line(link, compact), link.source_id@));
        assert(stands_in(link_line(link, compact), link.target_id@));
        assert(stands_in(link_line(link, compact), link.relation@));
    }
}

/// A concept is told with its name, its definition, its revision and, where it is
/// shown, its living summary.
pub proof fn law_concept_state_is_told(o: ConceptStateOutput)
    ensures
        stands_in(concept_state_text(o), o.name@),
        stands_in(concept_state_text(o), o.definition@),
        stands_in(concept_state_text(o), decimal(o.revision as nat)),
        o.living_summary matches Some(s) ==> stands_in(concept_state_text(o), s@),
{
    broadcast use {
        lemma_stands_at_the_end,
        lemma_stands_for_itself,
        lemma_stands_before,
    };

    let head = "## "@ + o.name@ + " (r"@ + decimal(o.revision as nat) + ")\n"@ + o.definition@
        + "\n"@;
    if let Some(s) = o.living_summary {
        let tail = "\n"@ + summary_note(o);
        assert(concept_state_text(o) =~= head + "\n### Living summary\n"@ + s@ + "\n"@
            + summary_note(o));
        assert(stands_in(head + "\n### Living summary\n"@ + s@ + "\n"@ + summary_note(o), s@));
        assert(stands_in(head + "\n### Living summary\n"@ + s@ + "\n"@ + summary_note(o), o.name@));
        assert(stands_in(
            head + "\n### Living summary\n"@ + s@ + "\n"@ + summary_note(o),
            o.definition@,
        ));
        assert(stands_in(
            head + "\n### Living summary\n"@ + s@ + "\n"@ + summary_note(o),
            decimal(o.revision as nat),
        ));
    }
}

/// Events of a timeline are told with what they are about.
pub proof fn law_events_tell_what_happened(
    episode: EpisodeRow,
    revision: RevisionRow,
    topic: Seq<char>,
    summary: Seq<char>,
)
    ensures
        stands_in(episode_text(episode), episode.title@),
        stands_in(episode_text(episode), decimal(episode.concept_ids@.len())),
        stands_in(episode_text(episode), decimal(episode.memory_ids@.len())),
        episode.decisions@.len() > 0 ==> stands_in(
            episode_text(episode),
            join(texts(episode.decisions@), ", "@),
        ),
        stands_in(revision_text(revision), revision.name@),
        stands_in(revision_text(revision), decimal(revision.revision as nat)),
        revision.definition@.len() <= 80 ==> stands_in(
            revision_text(revision),
            revision.definition@,
        ),
        revision.definition@.len() > 80 ==> stands_in(
            revision_text(revision),
            revision.definition@.take(80),
        ),
        stands_in(memory_text(topic, summary), topic),
        stands_in(memory_text(topic, summary), summary),
{
    broadcast use {
        lemma_stands_at_the_end,
        lemma_stands_for_itself,
        lemma_stands_before,
    };

    if revision.definition@.len() <= 80 {
        assert(prefix(revision.definition@, 80) =~= revision.definition@);
    }
    if episode.decisions@.len() > 0 {
        let head = "[episode] "@ + episode.title@ + " — "@ + decimal(episode.concept_ids@.len())
            + " concepts, "@ + decimal(episode.memory_ids@.len()) + " memories"@;
        let all = join(texts(episode.decisions@), ", "@);
        assert(episode_text(episode) =~= head + " | decisions: "@ + all);
        assert(stands_in(head + " | decisions: "@ + all, all));
    }
}

/// Garbage collection tells how much decayed and how much went.
pub proof fn law_gc_is_told(o: GcOutput)
    ensures
        stands_in(gc_text(o), decimal(o.pruned as nat)),
        stands_in(gc_text(o), o.threshold@),
        stands_in(gc_cli_text(o), decimal(o.pruned as nat)),
        stands_in(gc_cli_text(o), decimal(o.decayed as nat)),
        stands_in(gc_cli_text(o), o.threshold@),
        !o.dry_run ==> stands_in(gc_text(o), decimal(o.decayed as nat)),
        o.concepts > 0 ==> stands_in(gc_text(o), decimal(o.concepts as nat)) && stands_in(
            gc_cli_text(o),
            decimal(o.concepts as nat),
        ),
{
    broadcast use {
        lemma_stands_at_the_end,
        lemma_stands_for_itself,
        lemma_stands_before,
    };

}

/// A refresh tells what it counted.
pub proof fn law_summary_refresh_is_told(o: ConceptSummaryOutcome)
    requires
        !o.skipped_disabled,
        !o.skipped_no_llm,
    ensures
        stands_in(summary_refresh_text(o), decimal(o.attempted as nat)),
        stands_in(summary_refresh_text(o), decimal(o.succeeded as nat)),
        stands_in(summary_refresh_text(o), decimal(o.skipped_not_eligible as nat)),
        stands_in(summary_refresh_text(o), decimal(o.llm_failed as nat)),
        o.dry_run ==> stands_in(summary_refresh_text(o), " (dry run)"@),
{
    broadcast use {
        lemma_stands_at_the_end,
        lemma_stands_for_itself,
        lemma_stands_before,
    };

}

/// The state of the service tells every count.
pub proof fn law_stats_are_told(o: StatsOutput)
    ensures
        stands_in(stats_text(o), decimal(o.total_memories as nat)),
        stands_in(stats_text(o), decimal(o.ltm_count as nat)),
        stands_in(stats_text(o), decimal(o.stm_count as nat)),
        stands_in(stats_text(o), decimal(o.topic_count as nat)),
        stands_in(stats_text(o), o.avg_strength@),
        stands_in(stats_text(o), decimal(o.hot_count as nat)),
        stands_in(stats_text(o), decimal(o.warm_count as nat)),
        stands_in(stats_text(o), decimal(o.cold_count as nat)),
        stands_in(stats_text(o), decimal(o.memoir_count as nat)),
        stands_in(stats_text(o), decimal(o.concept_count as nat)),
        stands_in(stats_text(o), decimal(o.link_count as nat)),
{
    broadcast use {
        lemma_stands_at_the_end,
        lemma_stands_for_itself,
        lemma_stands_before,
    };

}

/// A list with nothing in it says so; any other is its lines and nothing else.
pub proof fn law_empty_list_is_told(
    memoirs: MemoirListOutput,
    concepts: ConceptSearchOutput,
    canonicals: Seq<CanonicalItem>,
    evidence: EvidenceOutput,
)
    ensures
        memoirs.memoirs@.len() == 0 ==> memoir_list_text(memoirs) == (if memoirs.compact {
            "none"@
        } else {
            "No memoirs found."@
        }),
        memoirs.memoirs@.len() > 0 ==> memoir_list_text(memoirs) == memoir_lines(
            memoirs.memoirs@,
            memoirs.compact,
        ),
        concepts.concepts@.len() == 0 ==> concept_search_text(concepts) == (if concepts.compact {
            "none"@
        } else {
            "No concepts found."@
        }),
        concepts.concepts@.len() > 0 ==> concept_search_text(concepts) == concept_lines(
            concepts.concepts@,
            concepts.compact,
        ),
        canonicals.len() == 0 ==> canonicals_text(canonicals) == "No canonical memories found"@,
        canonicals.len() > 0 ==> canonicals_text(canonicals) == canonical_lines(canonicals),
        evidence.evidence@.len() == 0 ==> stands_in(
            evidence_text(evidence),
            "No evidence found for canonical '"@ + evidence.canonical_id@,
        ),
        evidence.evidence@.len() > 0 ==> evidence_text(evidence) == evidence_lines(
            evidence.evidence@,
        ),
{
    broadcast use {
        lemma_stands_at_the_end,
        lemma_stands_for_itself,
        lemma_stands_before,
        lemma_stands_with_its_label,
    };

    let head = Seq::<char>::empty() + "No evidence found for canonical '"@ + evidence.canonical_id@;
    assert(head =~= "No evidence found for canonical '"@ + evidence.canonical_id@);
}

/// The line of a recent memory tells topic and summary; the long form also its
/// importance and its age, and for a caller that goes on its strength and its id.
pub proof fn law_recent_memory_is_told(m: RecentMemory, compact: bool, age: int)
    ensures
        stands_in(recent_line(m, compact, age), "["@ + m.topic@),
        stands_in(recent_line(m, compact, age), "] "@ + m.summary@),
        stands_in(recent_cli_line(m, compact, age), "["@ + m.topic@),
        stands_in(recent_cli_line(m, compact, age), "] "@ + m.summary@),
        compact ==> recent_line(m, true, age) == recent_cli_line(m, true, age),
        !compact ==> {
            &&& stands_in(recent_line(m, compact, age), " ("@ + importance_word(m.importance))
            &&& stands_in(recent_line(m, compact, age), ", "@ + age_text(age))
            &&& stands_in(recent_line(m, compact, age), ", str:"@ + m.strength@)
            &&& stands_in(recent_line(m, compact, age), ")\n  id: "@ + m.id@)
            &&& stands_in(recent_cli_line(m, compact, age), " ("@ + importance_word(m.importance))
            &&& stands_in(recent_cli_line(m, compact, age), ", "@ + age_text(age))
        },
{
    broadcast use {
        lemma_stands_at_the_end,
        lemma_stands_for_itself,
        lemma_stands_before,
        lemma_stands_with_its_label,
    };

    let head = "["@ + m.topic@;
    assert(stands_in(head, "["@ + m.topic@));
    assert(stands_in(head + "] "@ + m.summary@, "] "@ + m.summary@));
    assert(stands_in(head + "] "@ + m.summary@, "["@ + m.topic@));
    assert(short_line(m) == head + "] "@ + m.summary@);
}

/// A list of recent memories or of events grows by a line at its end for each further
/// item; with one item it is the item's line.
pub proof fn law_lists_grow_by_lines(
    o: RecentOutput,
    more: RecentOutput,
    m: RecentMemory,
    now: Timestamp,
    t: TimelineOutput,
    longer: TimelineOutput,
    e: (Timestamp, String),
)
    requires
        more.memories@ == o.memories@.push(m),
        more.compact == o.compact,
        longer.events@ == t.events@.push(e),
    ensures
        ({
            let age = span_secs(now, m.created_at);
            &&& o.memories@.len() == 0 ==> recent_text(o, now) == "No memories found."@
                && recent_cli_text(o, now) == "No memories found."@
            &&& o.memories@.len() == 0 ==> recent_text(more, now) == recent_line(m, o.compact, age)
                && recent_cli_text(more, now) == recent_cli_line(m, o.compact, age)
            &&& o.memories@.len() > 0 ==> recent_text(more, now) == recent_text(o, now) + "\n"@
                + recent_line(m, o.compact, age) && recent_cli_text(more, now) == recent_cli_text(
                o,
                now,
            ) + "\n"@ + recent_cli_line(m, o.compact, age)
        }),
        ({
            let line = formatted(e.0, "%Y-%m-%d %H:%M"@) + " "@ + e.1@;
            &&& t.events@.len() == 0 ==> timeline_text(t)
                == "No events found in the specified range."@
            &&& t.events@.len() == 0 ==> timeline_text(longer) == line
            &&& t.events@.len() > 0 ==> timeline_text(longer) == timeline_text(t) + "\n"@ + line
        }),
{
    let f = |m: RecentMemory| recent_line(m, o.compact, span_secs(now, m.created_at));
    let g = |m: RecentMemory| recent_cli_line(m, o.compact, span_secs(now, m.created_at));
    let h = |e: (Timestamp, String)| event_line(e);
    assert(more.memories@.map_values(f) =~= o.memories@.map_values(f).push(f(m)));
    assert(more.memories@.map_values(g) =~= o.memories@.map_values(g).push(g(m)));
    assert(longer.events@.map_values(h) =~= t.events@.map_values(h).push(h(e)));
    assert(o.memories@.map_values(f).push(f(m)).drop_last() =~= o.memories@.map_values(f));
    assert(o.memories@.map_values(g).push(g(m)).drop_last() =~= o.memories@.map_values(g));
    assert(t.events@.map_values(h).push(h(e)).drop_last() =~= t.events@.map_values(h));
}

proof fn lemma_current_concept_is_told(o: ConceptHistoryOutput)
    ensures
        stands_in(history_parts(o)[0], "## "@ + o.current_name@),
        stands_in(history_parts(o)[0], " (current: r"@ + decimal(o.current_revision as nat)),
        stands_in(history_parts(o)[0], ", confidence: "@ + o.current_confidence@),
        stands_in(history_parts(o)[0], ")\n"@ + o.current_definition@),
{
    broadcast use {
        lemma_stands_at_the_end,
        lemma_stands_for_itself,
        lemma_stands_before,
        lemma_stands_with_its_label,
    };

    let name = "## "@ + o.current_name@;
    assert(stands_in(name, name));
    assert(history_parts(o)[0] == name + " (current: r"@ + decimal(o.current_revision as nat)
        + ", confidence: "@ + o.current_confidence@ + ")\n"@ + o.current_definition@ + "\n"@);
}

proof fn lemma_revision_is_told(rev: ConceptRevisionSummary)
    ensures
        stands_in(revision_entry(rev), "- **r"@ + decimal(rev.revision as nat)),
        stands_in(
            revision_entry(rev),
            "** ("@ + formatted(rev.created_at, "%Y-%m-%d %H:%M"@),
        ),
        stands_in(revision_entry(rev), ") [episode: "@ + text_or(rev.episode_id, "none"@)),
        stands_in(revision_entry(rev), "]\n  "@ + prefix(rev.definition@, 200)),
{
    broadcast use {
        lemma_stands_at_the_end,
        lemma_stands_for_itself,
        lemma_stands_before,
        lemma_stands_with_its_label,
    };

    let number = "- **r"@ + decimal(rev.revision as nat);
    assert(stands_in(number, number));
}

proof fn lemma_summary_is_told(o: ConceptHistoryOutput)
    ensures
        o.living_summary matches Some(s) ==> stands_in(
            join(history_parts(o), "\n"@),
            "### Living summary\n"@ + s@,
        ),
{
    if let Some(s) = o.living_summary {
        let parts = history_parts(o);
        let living = "### Living summary\n"@ + s@;
        lemma_part_of_a_join(parts, "\n"@, 1);
        assert(parts[1] == living + "\n"@);
        lemma_stands_for_itself(living);
        lemma_stands_before(living, "\n"@, living);
        lemma_part_of_a_part(join(parts, "\n"@), living + "\n"@, living);
    }
}

/// A history tells the concept as it is now, its summary where it has one, and how
/// many revisions there are.
pub proof fn law_history_is_told(o: ConceptHistoryOutput)
    ensures
        ({
            let text = join(history_parts(o), "\n"@);
            &&& stands_in(text, "## "@ + o.current_name@)
            &&& stands_in(text, " (current: r"@ + decimal(o.current_revision as nat))
            &&& stands_in(text, ", confidence: "@ + o.current_confidence@)
            &&& stands_in(text, ")\n"@ + o.current_definition@)
            &&& o.living_summary matches Some(s) ==> stands_in(text, "### Living summary\n"@ + s@)
            &&& o.history@.len() > 0 ==> stands_in(
                text,
                "### Revision History ("@ + decimal(o.history@.len()),
            )
            &&& o.history@.len() == 0 ==> stands_in(
                text,
                "No revision history (concept has not been refined yet)."@,
            )
        }),
{
    let text = join(history_parts(o), "\n"@);
    let parts = history_parts(o);
    let shift = if o.living_summary is Some { 2int } else { 1int };
    lemma_part_of_a_join(parts, "\n"@, 0);
    lemma_current_concept_is_told(o);
    lemma_part_of_a_part(text, parts[0], "## "@ + o.current_name@);
    lemma_part_of_a_part(text, parts[0], " (current: r"@ + decimal(o.current_revision as nat));
    lemma_part_of_a_part(text, parts[0], ", confidence: "@ + o.current_confidence@);
    lemma_part_of_a_part(text, parts[0], ")\n"@ + o.current_definition@);
    lemma_summary_is_told(o);
    lemma_part_of_a_join(parts, "\n"@, shift);
    if o.history@.len() > 0 {
        let count = "### Revision History ("@ + decimal(o.history@.len());
        assert(parts[shift] == count + " entries)\n"@);
        lemma_stands_for_itself(count);
        lemma_stands_before(count, " entries)\n"@, count);
        lemma_part_of_a_part(text, count + " entries)\n"@, count);
    }
}

/// Each revision is told by its number, its minute, its episode and its definition,
/// cut at two hundred characters.
pub proof fn law_each_revision_is_told(o: ConceptHistoryOutput, k: int)
    requires
        0 <= k < o.history@.len(),
    ensures
        ({
            let text = join(history_parts(o), "\n"@);
            let rev = o.history@[k];
            &&& stands_in(text, "- **r"@ + decimal(rev.revision as nat))
            &&& stands_in(text, "** ("@ + formatted(rev.created_at, "%Y-%m-%d %H:%M"@))
            &&& stands_in(text, ") [episode: "@ + text_or(rev.episode_id, "none"@))
            &&& rev.definition@.len() <= 200 ==> stands_in(text, "]\n  "@ + rev.definition@)
            &&& rev.definition@.len() > 200 ==> stands_in(
                text,
                "]\n  "@ + rev.definition@.take(200),
            )
        }),
{
    let parts = history_parts(o);
    let text = join(parts, "\n"@);
    let at = k + (if o.living_summary is Some { 3int } else { 2int });
    let rev = o.history@[k];
    let entry = revision_entry(rev);
    assert(parts[at] == entry);
    lemma_part_of_a_join(parts, "\n"@, at);
    lemma_revision_is_told(rev);
    if rev.definition@.len() <= 200 {
        assert(prefix(rev.definition@, 200) =~= rev.definition@);
    }
    lemma_part_of_a_part(text, entry, "- **r"@ + decimal(rev.revision as nat));
    lemma_part_of_a_part(text, entry, "** ("@ + formatted(rev.created_at, "%Y-%m-%d %H:%M"@));
    lemma_part_of_a_part(text, entry, ") [episode: "@ + text_or(rev.episode_id, "none"@));
    lemma_part_of_a_part(text, entry, "]\n  "@ + prefix(rev.definition@, 200));
}

/// What came of a session is told count by count, each under its name.
pub proof fn law_session_is_told(o: IngestSessionOutput)
    ensures
        stands_in(ingest_list(o), "**Ingested session**\n\n- queued: "@ + bool_text(o.queued)),
        stands_in(ingest_list(o), "\n- artifact: "@ + text_or(o.artifact_id, "-"@)),
        stands_in(ingest_list(o), "\n- episode: "@ + text_or(o.episode_id, "-"@)),
        stands_in(ingest_list(o), "\n- memories: "@ + decimal(o.memory_count as nat)),
        stands_in(ingest_list(o), "\n- concepts: "@ + decimal(o.concept_count as nat)),
        stands_in(ingest_list(o), "\n- links: "@ + decimal(o.link_count as nat)),
        stands_in(ingest_list(o), "\n- turns: "@ + decimal(o.turn_count as nat)),
        stands_in(ingest_list(o), "\n- filtered: "@ + decimal(o.filtered_count as nat)),
        stands_in(ingest_list(o), " ("@ + decimal(o.secret_filtered_count as nat)),
        stands_in(ingest_line(o), "ok queued:"@ + bool_text(o.queued)),
        stands_in(ingest_line(o), " memories:"@ + decimal(o.memory_count as nat)),
        stands_in(ingest_line(o), " concepts:"@ + decimal(o.concept_count as nat)),
        stands_in(ingest_line(o), " links:"@ + decimal(o.link_count as nat)),
        stands_in(ingest_line(o), " artifact:"@ + text_or(o.artifact_id, "-"@)),
        stands_in(ingest_line(o), " episode:"@ + text_or(o.episode_id, "-"@)),
{
    broadcast use {
        lemma_stands_at_the_end,
        lemma_stands_for_itself,
        lemma_stands_before,
        lemma_stands_with_its_label,
    };

    let short = "ok queued:"@ + bool_text(o.queued);
    let long = "**Ingested session**\n\n- queued: "@ + bool_text(o.queued);
    assert(stands_in(short, short));
    assert(stands_in(long, long));
}

/// A memoir is told by its picture, and in the long form by its name and description
/// too.
pub proof fn law_memoir_is_told(o: MemoirShowOutput)
    ensures
        stands_in(memoir_text(o), o.ascii@),
        o.compact ==> memoir_text(o) == o.ascii@,
        !o.compact ==> stands_in(memoir_text(o), "Memoir: "@ + o.memoir.name@) && stands_in(
            memoir_text(o),
            o.memoir.description@,
        ),
{
    broadcast use {
        lemma_stands_at_the_end,
        lemma_stands_for_itself,
        lemma_stands_before,
        lemma_stands_with_its_label,
    };

    let head = "Memoir: "@ + o.memoir.name@;
    assert(stands_in(head, head));
}

/// An inspection tells its centre, then each neighbour and each link; a heading stands
/// only over what there is, and only in the long form.
pub proof fn law_inspection_is_told(o: MemoirInspectOutput)
    ensures
        o.compact ==> stands_in(inspect_text(o), "center:"@ + o.center.name@),
        o.compact ==> stands_in(inspect_text(o), ":c"@ + o.center.confidence@),
        o.compact ==> stands_in(inspect_text(o), ":r"@ + decimal(o.center.revision as nat)),
        !o.compact ==> stands_in(inspect_text(o), "Center: "@ + o.center.name@),
        !o.compact ==> stands_in(inspect_text(o), " (conf:"@ + o.center.confidence@),
        !o.compact ==> stands_in(inspect_text(o), ", rev:"@ + decimal(o.center.revision as nat)),
        !o.compact ==> stands_in(inspect_text(o), ")\n  "@ + o.center.definition@),
        stands_in(inspect_text(o), neighbor_lines(o.neighbors@, o.compact)),
        stands_in(inspect_text(o), link_lines(o.links@, o.compact)),
        !o.compact && o.neighbors@.len() > 0 ==> stands_in(inspect_text(o), "Neighbors:\n"@),
        !o.compact && o.links@.len() > 0 ==> stands_in(inspect_text(o), "\nLinks:\n"@),
        heading("Links:"@, 0, o.compact).len() == 0,
        heading("Links:"@, o.links@.len(), true).len() == 0,
{
    broadcast use {
        lemma_stands_at_the_end,
        lemma_stands_for_itself,
        lemma_stands_before,
        lemma_stands_with_its_label,
    };

    let short = "center:"@ + o.center.name@;
    let long = "Center: "@ + o.center.name@;
    assert(stands_in(short, short));
    assert(stands_in(long, long));
}

/// A trial of a merge tells both summaries in their roles, and what the model said,
/// as far as it said anything.
pub proof fn law_merge_trial_is_told(o: IntelligentMergeTryOutput)
    ensures
        stands_in(merge_try_text(o), "**existing**: "@ + o.existing_summary@),
        stands_in(merge_try_text(o), "\n**incoming**: "@ + o.incoming_summary@),
        stands_in(merge_try_cli_text(o), "→ existing: "@ + o.existing_summary@),
        stands_in(merge_try_cli_text(o), "\n→ incoming: "@ + o.incoming_summary@),
        o.verdict matches Some(v) ==> {
            &&& stands_in(merge_try_text(o), "\n**verdict**: "@ + v@)
            &&& stands_in(merge_try_cli_text(o), "verdict  : "@ + v@)
            &&& o.reasoning matches Some(t) ==> stands_in(merge_try_text(o), "**reason**: "@ + t@)
                && stands_in(merge_try_cli_text(o), "reason   : "@ + t@)
            &&& o.synthesis matches Some(t) ==> stands_in(
                merge_try_text(o),
                "**synthesis**: "@ + t@,
            ) && stands_in(merge_try_cli_text(o), "synthesis: "@ + t@)
        },
{
    broadcast use {
        lemma_stands_at_the_end,
        lemma_stands_for_itself,
        lemma_stands_before,
        lemma_stands_with_its_label,
    };

    let a = "**existing**: "@ + o.existing_summary@;
    let b = "→ existing: "@ + o.existing_summary@;
    assert(stands_in(a, a));
    assert(stands_in(b, b));
}

/// A request to the judge is told to be queued exactly where it was, with its place or
/// the reason.
pub proof fn law_judge_request_is_told(r: JudgeEnqueueResult)
    ensures
        r.enqueued ==> (r.queue_position matches Some(n) ==> stands_in(
            enqueue_text(r),
            "judge enqueued (queue position: "@ + decimal(n as nat),
        )),
        r.enqueued && r.queue_position is None ==> enqueue_text(r)
            =~= "judge enqueued (queue position: "@ + "?"@ + ")"@,
        !r.enqueued ==> (r.skipped_reason matches Some(why) ==> enqueue_text(r)
            == "judge skipped: "@ + why@),
        !r.enqueued && r.skipped_reason is None ==> enqueue_text(r)
            == "judge skipped (unknown reason)"@,
{
    broadcast use {
        lemma_stands_at_the_end,
        lemma_stands_for_itself,
        lemma_stands_before,
        lemma_stands_with_its_label,
    };

    if let Some(n) = r.queue_position {
        let head = "judge enqueued (queue position: "@ + decimal(n as nat);
        assert(stands_in(head, head));
    }
}

/// A refresh of an archival summary tells its memory and the reason it was skipped
/// for, or version and length of what it made.
pub proof fn law_archive_refresh_is_told(o: ArchiveSummaryRefreshOutput)
    ensures
        o.skipped_reason matches Some(why) ==> stands_in(
            refresh_text(o),
            "Cap C archive_summary_refresh skipped for "@ + o.memory_id@,
        ) && stands_in(refresh_text(o), ": "@ + why@),
        o.skipped_reason is None ==> {
            &&& stands_in(
                refresh_text(o),
                "Cap C archive_summary_refresh: memory "@ + o.memory_id@,
            )
            &&& stands_in(refresh_text(o), " generated v"@ + decimal(o.version as nat))
            &&& stands_in(refresh_text(o), " ("@ + decimal(o.summary_chars as nat))
        },
{
    broadcast use {
        lemma_stands_at_the_end,
        lemma_stands_for_itself,
        lemma_stands_before,
        lemma_stands_with_its_label,
    };

    let a = "Cap C archive_summary_refresh skipped for "@ + o.memory_id@;
    let b = "Cap C archive_summary_refresh: memory "@ + o.memory_id@;
    assert(stands_in(a, a));
    assert(stands_in(b, b));
}

/// The configuration is told setting by setting, each under its name.
pub proof fn law_configuration_is_told(head: Seq<char>, bullet: Seq<char>, c: ConfigSnapshot)
    ensures
        ({
            let text = config_text(head, bullet, c);
            &&& stands_in(text, "Database path: "@ + c.database_path@)
            &&& stands_in(text, "Embedding provider: "@ + c.embedding_provider@)
            &&& stands_in(text, "Embedding dimensions: "@ + decimal(c.embedding_dimensions as nat))
            &&& stands_in(text, "Extract provider: "@ + c.extract_provider@)
            &&& stands_in(text, "Extract model: "@ + c.extract_model@)
            &&& stands_in(text, "Compact mode: "@ + bool_text(c.compact_mode))
            &&& stands_in(text, "SSE enabled: "@ + bool_text(c.sse_enabled))
            &&& stands_in(text, "Decay base_lambda: "@ + c.decay_base_lambda@)
            &&& stands_in(text, "Dedup similarity: "@ + c.dedup_similarity@)
        }),
{
    broadcast use {
        lemma_stands_at_the_end,
        lemma_stands_for_itself,
        lemma_stands_before,
        lemma_stands_with_its_label,
    };

}

/// The health of the system tells whether it is well, each issue, and the state of
/// each queue under its name.
pub proof fn law_health_is_told(o: HealthOutput)
    ensures
        o.reports@.len() > 0 ==> stands_in(
            health_text(o),
            "**Topic health**\n"@ + topic_lines(o.reports@),
        ),
        o.reports@.len() == 0 ==> stands_in(health_text(o), "(no topic reports)\n"@),
        stands_in(health_text(o), "\n**System**: "@ + (if o.status.ok {
            "OK"@
        } else {
            "DEGRADED"@
        })),
        o.status.issues@.len() > 0 ==> stands_in(
            health_text(o),
            "\nIssues:"@ + issue_lines(texts(o.status.issues@)),
        ),
        stands_in(health_text(o), "\n**Queues**: memory "@ + queue_text(o.queues.memory)),
        stands_in(health_text(o), " | cleanup "@ + queue_text(o.queues.cleanup)),
        stands_in(health_text(o), " | dedup "@ + queue_text(o.queues.dedup)),
        stands_in(health_text(o), " | merge_refine "@ + queue_text(o.queues.merge_refinement)),
        stands_in(
            health_text(o),
            "\n**Grayzone pending**: "@ + decimal(o.grayzone_pending as nat),
        ),
{
    broadcast use {
        lemma_stands_at_the_end,
        lemma_stands_for_itself,
        lemma_stands_before,
        lemma_stands_with_its_label,
    };

    let topics = "**Topic health**\n"@ + topic_lines(o.reports@);
    assert(stands_in(topics, topics));
}

/// A queue is told by three counts, each under its own letter; issues are listed in
/// order, one to a line.
pub proof fn law_queue_and_issues_are_told(
    q: QueueCounts,
    v: Seq<Seq<char>>,
    issue: Seq<char>,
)
    ensures
        stands_in(queue_text(q), "p="@ + decimal(q.pending as nat)),
        stands_in(queue_text(q), " i="@ + decimal(q.inflight as nat)),
        stands_in(queue_text(q), " d="@ + decimal(q.dead_letters as nat)),
        issue_lines(v.push(issue)) == issue_lines(v) + ("\n- "@ + issue),
        issue_lines(Seq::<Seq<char>>::empty()).len() == 0,
{
    broadcast use {
        lemma_stands_at_the_end,
        lemma_stands_for_itself,
        lemma_stands_before,
        lemma_stands_with_its_label,
    };

    let p = "p="@ + decimal(q.pending as nat);
    assert(stands_in(p, p));
    assert(v.push(issue).drop_last() =~= v);
}

/// The release gate tells for both ways of running whether they are allowed, what
/// blocks each, and the policy.
pub proof fn law_release_gate_is_told(r: ArsAccelerationReleaseGateReport)
    ensures
        stands_in(
            gate_text(r),
            "ARS acceleration release gate\ncanary: "@ + (if r.canary.allowed {
                "allowed"@
            } else {
                "blocked"@
            }),
        ),
        stands_in(gate_text(r), "\ndefault-on: "@ + (if r.default_on.allowed {
            "allowed"@
        } else {
            "blocked"@
        })),
        r.canary.blockers@.len() > 0 ==> stands_in(
            gate_text(r),
            "\ncanary blockers: "@ + join(texts(r.canary.blockers@), ", "@),
        ),
        r.default_on.blockers@.len() > 0 ==> stands_in(
            gate_text(r),
            "\ndefault-on blockers: "@ + join(texts(r.default_on.blockers@), ", "@),
        ),
        r.canary.warnings@.len() > 0 ==> stands_in(
            gate_text(r),
            "\nwarnings: "@ + join(texts(r.canary.warnings@), ", "@),
        ),
        stands_in(gate_text(r), "\npolicy: status="@ + r.signals.policy_status@),
        stands_in(gate_text(r), " mode="@ + text_or(r.signals.policy_mode, "unknown"@)),
        stands_in(gate_text(r), " live_allowed="@ + bool_text(r.signals.policy_allows_runtime)),
{
    broadcast use {
        lemma_stands_at_the_end,
        lemma_stands_for_itself,
        lemma_stands_before,
        lemma_stands_with_its_label,
    };

    let head = "ARS acceleration release gate\ncanary: "@ + gate_word(r.canary.allowed);
    assert(stands_in(head, head));
    assert(texts(r.canary.blockers@).len() == r.canary.blockers@.len());
    assert(texts(r.default_on.blockers@).len() == r.default_on.blockers@.len());
    assert(texts(r.canary.warnings@).len() == r.canary.warnings@.len());
}

/// What was written is told by its id; the long form also tells what it was.
pub proof fn law_writes_are_told(
    created: MemoirCreateOutput,
    added: ConceptAddOutput,
    refined: ConceptRefineOutput,
    linked: LinkOutput,
)
    ensures
        created.compact ==> created_text(created) == "ok:"@ + created.id@,
        !created.compact ==> stands_in(
            created_text(created),
            "Created memoir '"@ + created.name@,
        ) && stands_in(created_text(created), "': "@ + created.id@),
        added.compact ==> added_text(added) == "ok:"@ + added.id@,
        !added.compact ==> stands_in(added_text(added), "Added concept '"@ + added.name@)
            && stands_in(added_text(added), "' to memoir '"@ + added.memoir@) && stands_in(
            added_text(added),
            "': "@ + added.id@,
        ),
        refined.compact ==> refined_text(refined) == "ok:"@ + refined.name@,
        !refined.compact ==> stands_in(
            refined_text(refined),
            "Refined concept '"@ + refined.name@,
        ) && stands_in(refined_text(refined), "' in memoir '"@ + refined.memoir@),
        linked.compact ==> linked_text(linked) == "ok:"@ + linked.id@,
        !linked.compact ==> stands_in(linked_text(linked), "Linked '"@ + linked.from@) && stands_in(
            linked_text(linked),
            "' --"@ + linked.relation@,
        ) && stands_in(linked_text(linked), "-> '"@ + linked.to@) && stands_in(
            linked_text(linked),
            "': "@ + linked.id@,
        ),
{
    broadcast use {
        lemma_stands_at_the_end,
        lemma_stands_for_itself,
        lemma_stands_before,
        lemma_stands_with_its_label,
    };

    let a = "Created memoir '"@ + created.name@;
    let b = "Added concept '"@ + added.name@;
    let c = "Refined concept '"@ + refined.name@;
    let d = "Linked '"@ + linked.from@;
    assert(stands_in(a, a) && stands_in(b, b) && stands_in(c, c) && stands_in(d, d));
}

/// The words for what can be one of a few.
pub proof fn law_words()
    ensures
        importance_word(Importance::Low) == "low"@,
        importance_word(Importance::Medium) == "medium"@,
        importance_word(Importance::High) == "high"@,
        importance_word(Importance::Critical) == "critical"@,
        verdict_name(MergeVerdict::Ignore) == "Ignore"@,
        verdict_name(MergeVerdict::Update) == "Update"@,
        verdict_name(MergeVerdict::Merge) == "Merge"@,
        verdict_name(MergeVerdict::CreateNew) == "CreateNew"@,
        surface_label(SurfaceKind::Mcp) == "mcp"@,
        surface_label(SurfaceKind::Rest) == "rest"@,
        surface_label(SurfaceKind::Cli) == "cli"@,
        policy_name(AuthPolicy::Public) == "public"@,
        policy_name(AuthPolicy::MutationMarker) == "mutation_marker"@,
        policy_name(AuthPolicy::ReadToken) == "read_token"@,
{
}

/// The type of a JSON value is named by what it is, whatever its content.
pub proof fn law_names_of_json_types(v: FieldView)
    ensures
        v is Null ==> json_type(v) == "null"@,
        v is Bool ==> json_type(v) == "bool"@,
        v is Number ==> json_type(v) == "number"@,
        v is Text ==> json_type(v) == "string"@,
        v is Array ==> json_type(v) == "array"@,
        v is Object ==> json_type(v) == "object"@,
{
}

/// Clusters are asked for with one placeholder for each source memory, and not at all
/// where there is none; nothing is then known of them.
pub proof fn law_cluster_query(n: nat, c: Concept, clusters: Seq<i64>)
    ensures
        cluster_sql(0) is None,
        placeholders(1) == "?"@,
        n > 0 ==> placeholders(n + 1) == placeholders(n) + ","@ + "?"@,
        n > 0 ==> (cluster_sql(n) matches Some(q) && stands_in(
            q,
            " WHERE id IN ("@ + placeholders(n) + ")"@,
        )),
        c.source_memory_ids@.len() == 0 ==> source_clusters(c, clusters).len() == 0,
        c.source_memory_ids@.len() > 0 ==> source_clusters(c, clusters) == clusters,
{
    let one = Seq::new(1, |i: int| "?"@);
    let few = Seq::new(n, |i: int| "?"@);
    let more = Seq::new((n + 1) as nat, |i: int| "?"@);
    assert(more.drop_last() =~= few);
    if n > 0 {
        let q = cluster_sql(n)->0;
        reveal_strlit("SELECT cluster_id FROM memories WHERE id IN (");
        reveal_strlit(" WHERE id IN (");
        reveal_strlit(")");
        reveal_strlit(") AND cluster_id IS NOT NULL");
        let head = "SELECT cluster_id FROM memories WHERE id IN ("@;
        let part = " WHERE id IN ("@ + placeholders(n) + ")"@;
        assert(head.skip(31) =~= " WHERE id IN ("@);
        assert(q.subrange(31, 31int + part.len()) =~= part);
        assert(stands_at(q, part, 31));
    }
}

/// Revisions and memories are asked for under each condition of the window, newest
/// first, and at most as many as the window shows.
pub proof fn law_timeline_queries(w: TimelineWindow, k: int)
    ensures
        ({
            let conditions = window_conditions(w, "r.created_at"@);
            &&& 0 <= k < conditions.len() ==> stands_in(revision_sql(w), conditions[k])
            &&& stands_in(
                revision_sql(w),
                " ORDER BY r.created_at DESC LIMIT "@ + decimal(w.limit as nat),
            )
            &&& conditions.len() > 0 ==> stands_in(
                revision_sql(w),
                " WHERE "@ + join(conditions, " AND "@),
            )
        }),
        ({
            let conditions = window_conditions(w, "created_at"@);
            &&& 0 <= k < conditions.len() ==> stands_in(memory_sql(w), conditions[k])
            &&& stands_in(
                memory_sql(w),
                " ORDER BY created_at DESC LIMIT "@ + decimal(w.limit as nat),
            )
        }),
{
    broadcast use {
        lemma_stands_at_the_end,
        lemma_stands_for_itself,
        lemma_stands_before,
        lemma_stands_with_its_label,
    };

    let a = window_conditions(w, "r.created_at"@);
    let b = window_conditions(w, "created_at"@);
    if a.len() > 0 {
        let filter = " WHERE "@ + join(a, " AND "@);
        assert(stands_in(revision_sql(w), filter));
        if 0 <= k < a.len() {
            lemma_part_of_a_join(a, " AND "@, k);
            assert(stands_in(filter, join(a, " AND "@)));
            lemma_part_of_a_part(revision_sql(w), filter, join(a, " AND "@));
            lemma_part_of_a_part(revision_sql(w), join(a, " AND "@), a[k]);
        }
    }
    if 0 <= k < b.len() {
        lemma_part_of_a_join(b, " AND "@, k);
        assert(stands_in(memory_sql(w), join(b, " AND "@)));
        lemma_part_of_a_part(memory_sql(w), join(b, " AND "@), b[k]);
    }
}

/// A refused summary is told by the clause it breaks and by the numbers that show it;
/// a refresh that is skipped, by its reason.
pub proof fn law_refusals_are_told(v: ContractViolation, tier: MemoryTier, target: usize)
    ensures
        v matches ContractViolation::BoundedLength { chars, max_chars } ==> stands_in(
            violation_text(v),
            "bounded_length: summary "@ + decimal(chars as nat),
        ) && stands_in(violation_text(v), "target ("@ + decimal(max_chars as nat)),
        v matches ContractViolation::ScriptPreservation {
            source_cjk,
            source_chars,
            summary_cjk,
            summary_chars,
        } ==> stands_in(
            violation_text(v),
            hundredths_text(hundredths(source_cjk as int, source_chars as int)) + "-"@
                + hundredths_text(hundredths(summary_cjk as int, summary_chars as int)),
        ),
        v matches ContractViolation::TrigramCoverage { hits, total } ==> stands_in(
            violation_text(v),
            "trigram_coverage: "@ + hundredths_text(hundredths(hits as int, total as int)),
        ),
        tier is Hot ==> stands_in(tier_reason(tier), "Hot"@),
        tier is Warm ==> stands_in(tier_reason(tier), "Warm"@),
        stands_in(short_reason(target), decimal(target as nat)),
        stands_in(current_reason(), decimal(100)),
{
    broadcast use {
        lemma_stands_at_the_end,
        lemma_stands_for_itself,
        lemma_stands_before,
        lemma_stands_with_its_label,
    };

    match v {
        ContractViolation::BoundedLength { chars, max_chars } => {
            let a = "Cap C contract INV-3 bounded_length: summary "@;
            let b = " chars exceeds 1.5×target ("@;
            reveal_strlit("Cap C contract INV-3 bounded_length: summary ");
            reveal_strlit("bounded_length: summary ");
            reveal_strlit(" chars exceeds 1.5×target (");
            reveal_strlit("target (");
            assert(a =~= a.take(21) + "bounded_length: summary "@);
            assert(b =~= b.take(19) + "target ("@);
            let n = decimal(chars as nat);
            let m = decimal(max_chars as nat);
            assert(a + n =~= a.take(21) + ("bounded_length: summary "@ + n));
            assert(a + n + b + m =~= (a + n + b.take(19)) + ("target ("@ + m));
            assert(stands_in(a + n, "bounded_length: summary "@ + n));
            assert(stands_in(a + n + b + m, "target ("@ + m));
        },
        ContractViolation::ScriptPreservation {
            source_cjk,
            source_chars,
            summary_cjk,
            summary_chars,
        } => {
            let a = "Cap C contract INV-5 script_preservation: CJK ratio drift |"@;
            let n = hundredths_text(hundredths(source_cjk as int, source_chars as int));
            let m = hundredths_text(hundredths(summary_cjk as int, summary_chars as int));
            assert(a + n + "-"@ + m =~= a + (n + "-"@ + m));
            assert(stands_in(a + n + "-"@ + m, n + "-"@ + m));
        },
        ContractViolation::TrigramCoverage { hits, total } => {
            let a = "Cap C contract INV-1 trigram_coverage: "@;
            let n = hundredths_text(hundredths(hits as int, total as int));
            reveal_strlit("Cap C contract INV-1 trigram_coverage: ");
            reveal_strlit("trigram_coverage: ");
            assert(a =~= a.take(21) + "trigram_coverage: "@);
            assert(a + n =~= a.take(21) + ("trigram_coverage: "@ + n));
            assert(stands_in(a + n, "trigram_coverage: "@ + n));
        },
    }
}

} // verus!
