//! What deduplication is for: which of two memories survives, what is kept of the
//! other, and when nothing is done.

use crate::dedup::lossless::{
    law_batch_merge_loses_no_line, law_merge_keeps_winner_lines, law_merge_loses_no_line,
    law_vector_merge_loses_no_line, lemma_body_empty, lemma_filter_keeps,
};
use crate::dedup::merge::{
    MergeNotes, absorbed_content, has_line, is_batch_merge_of, is_merge_of, is_merge_outcome,
    is_superseded, is_unique_line, is_vector_merge_of, keyword_union, line_key, provenance,
    unique_lines, usable_facts,
};
use crate::dedup::resolve::{
    DedupDecision, DedupPlan, DedupVerdict, is_link_of, is_merge_record, is_plan_of, is_update_of,
    is_verdict_record, is_verdict_to_use, plan_relation, savepoint_text, settled_by_canonical,
    settled_by_state,
};
use crate::dedup::scan::{
    DedupTally, ScanAction, ScanEvent, ScanPhase, ScanState, ann_in_range, bucket_rows,
    candidate_pairs, candidate_pairs_to, clusters_of, expects, fresh_scan, later_members,
    later_neighbours, law_scan_step_keeps_invariant, lemma_bucket_in_pairs,
    lemma_bucket_is_opened, lemma_row_in_bucket, live_memories, next_live, opens_bucket, row,
    scan_action, scan_invariant, scan_step, sizes_of, unclustered,
};
use crate::dedup::sweep::{
    CandidateInfo, RowAction, RowEvent, RowPhase, RowState, SweepTally, VecCandidate, VecSweep,
    candidate_kept, class_of, discarded_at, is_sweep_of, new_row, next_decision, row_action,
    row_expects, row_invariant, row_step,
};
use crate::dedup::vector::{
    DedupLimits, VecDedupItem, VectorHits, ann_threshold, are_neighbours, ascending, hit,
    is_large_bucket, neighbor_limit, pending_limit, position_of, uncached,
};
use crate::error::OpsError;
use crate::laws::law_decimal;
use crate::text::{byte_len, decimal, join, lines, lowercase, texts, trimmed};
use crate::time::{Timestamp, formatted, older_than};
use crate::types::{DedupRelation, Memory};
use vstd::prelude::*;
use vstd::string::*;

verus! {

/// Whether `i` and `j` are the two members of a pair, in either order.
pub open spec fn is_pair(p: (int, int), i: int, j: int) -> bool {
    (i == p.0 && j == p.1) || (i == p.1 && j == p.0)
}

/// A merge is of the two members of the current pair. The survivor's content has
/// at least as many bytes as the other's, and of two equally long ones the later
/// survives. It bears the relation that was found and the number of the find.
pub proof fn law_longer_memory_survives(s: ScanState, memories: Seq<Memory>)
    requires
        scan_invariant(s),
        s.sizes == sizes_of(memories),
        s.found <= u32::MAX,
    ensures
        scan_action(s) matches ScanAction::Merge { winner, loser, relation, number } ==> {
            &&& 0 <= s.at < s.pairs.len()
            &&& is_pair(s.pairs[s.at], winner as int, loser as int)
            &&& winner < memories.len() && loser < memories.len()
            &&& byte_len(memories[winner as int].content@) >= byte_len(
                memories[loser as int].content@,
            )
            &&& byte_len(memories[winner as int].content@) == byte_len(
                memories[loser as int].content@,
            ) ==> winner as int == s.pairs[s.at].1
            &&& relation == s.relation
            &&& number == s.found
        },
        s.phase is Merging <==> scan_action(s) is Merge,
{
    if s.phase is Merging {
        let p = s.pairs[s.at];
        assert(0 <= p.0 < s.sizes.len() && 0 <= p.1 < s.sizes.len());
        assert(s.sizes[p.0] == byte_len(memories[p.0].content@));
        assert(s.sizes[p.1] == byte_len(memories[p.1].content@));
    }
}

/// After a merge, written or rolled back, it is exactly the loser that was asked
/// for that is done with; the survivor is compared further. A merge that was
/// never begun leaves both.
pub proof fn law_merge_settles_the_loser(s: ScanState, event: ScanEvent)
    requires
        scan_invariant(s),
        expects(s.phase, event),
        s.phase is Merging,
    ensures
        scan_action(s) matches ScanAction::Merge { loser, .. } && {
            &&& event is Merged || event is MergeFailed ==> scan_step(s, event).processed
                == s.processed.insert(loser as int)
            &&& event is SavepointFailed ==> scan_step(s, event).processed == s.processed
        },
        scan_step(s, event).merged == s.merged + (if event is Merged { 1int } else { 0int }),
        scan_step(s, event).found == s.found,
        scan_step(s, event).llm_calls == s.llm_calls,
{
    let p = s.pairs[s.at];
    assert(0 <= p.0 < s.sizes.len() && 0 <= p.1 < s.sizes.len());
    assert(p.0 as usize == p.0 && p.1 as usize == p.1);
}

/// Two memories are merged where their similarity reaches the threshold, as
/// duplicates, or where the judge finds a duplicate or an update, as that; a dry
/// run only counts them. Any other pair is left alone.
pub proof fn law_when_the_scan_merges(s: ScanState, event: ScanEvent)
    requires
        scan_invariant(s),
        expects(s.phase, event),
        s.phase is Comparing || s.phase is Judging,
    ensures
        ({
            let same = event matches ScanEvent::Score { duplicate, .. } && duplicate || event
                == ScanEvent::Verdict(DedupRelation::Duplicate) || event == ScanEvent::Verdict(
                DedupRelation::Update,
            );
            let t = scan_step(s, event);
            &&& t.found == s.found + (if same { 1int } else { 0int })
            &&& t.merged == s.merged
            &&& (scan_action(t) is Merge) == (same && !s.dry_run)
            &&& same && !s.dry_run ==> t.at == s.at && t.processed == s.processed
            &&& same ==> t.relation == (if event == ScanEvent::Verdict(DedupRelation::Update) {
                DedupRelation::Update
            } else {
                DedupRelation::Duplicate
            })
            &&& !same ==> t.processed == s.processed
        }),
{
}

/// In a dry run a pair that would be merged is done with in the same way: the
/// shorter content is passed over from then on, the first of two equally long.
pub proof fn law_dry_run_follows_the_merge(s: ScanState, memories: Seq<Memory>)
    requires
        scan_invariant(s),
        s.sizes == sizes_of(memories),
        s.phase is Comparing,
        s.dry_run,
    ensures
        ({
            let p = s.pairs[s.at];
            let t = scan_step(s, ScanEvent::Score { duplicate: true, gray_zone: false });
            let gone = if byte_len(memories[p.0].content@) > byte_len(memories[p.1].content@) {
                p.1
            } else {
                p.0
            };
            t.processed == s.processed.insert(gone)
        }),
{
    let p = s.pairs[s.at];
    assert(0 <= p.0 < s.sizes.len() && 0 <= p.1 < s.sizes.len());
    assert(s.sizes[p.0] == byte_len(memories[p.0].content@));
    assert(s.sizes[p.1] == byte_len(memories[p.1].content@));
}

/// The judge is asked about a pair exactly where its similarity lies in the gray
/// zone, the run is no dry run and the budget is not used up; each question counts.
pub proof fn law_when_the_scan_asks(s: ScanState, duplicate: bool, gray_zone: bool)
    requires
        scan_invariant(s),
        s.phase is Comparing,
    ensures
        ({
            let t = scan_step(s, ScanEvent::Score { duplicate, gray_zone });
            let asks = !duplicate && gray_zone && !s.dry_run && s.llm_calls < s.llm_budget;
            &&& (scan_action(t) is Judge) == asks
            &&& t.llm_calls == s.llm_calls + (if asks { 1int } else { 0int })
            &&& asks ==> scan_action(t) == (ScanAction::Judge {
                first: s.pairs[s.at].0 as usize,
                second: s.pairs[s.at].1 as usize,
            })
        }),
{
}

/// Whether a pair still has both its members.
pub open spec fn is_open(s: ScanState, k: int) -> bool {
    !s.processed.contains(s.pairs[k].0) && !s.processed.contains(s.pairs[k].1)
}

proof fn lemma_next_live_is_first(pairs: Seq<(int, int)>, processed: Set<int>, from: int)
    requires
        0 <= from <= pairs.len(),
    ensures
        from <= next_live(pairs, processed, from) <= pairs.len(),
        next_live(pairs, processed, from) < pairs.len() ==> !processed.contains(
            pairs[next_live(pairs, processed, from)].0,
        ) && !processed.contains(pairs[next_live(pairs, processed, from)].1),
        forall|k: int|
            from <= k < next_live(pairs, processed, from) ==> processed.contains(
                (#[trigger] pairs[k]).0,
            ) || processed.contains(pairs[k].1),
    decreases pairs.len() - from,
{
    if from < pairs.len() && (processed.contains(pairs[from].0) || processed.contains(
        pairs[from].1,
    )) {
        lemma_next_live_is_first(pairs, processed, from + 1);
    }
}

/// The scan goes through its pairs in order and compares every one that still has
/// both its members; it ends only where no such pair is left.
pub proof fn law_scan_skips_no_open_pair(s: ScanState, event: ScanEvent)
    requires
        scan_invariant(s),
        expects(s.phase, event),
    ensures
        ({
            let t = scan_step(s, event);
            let from = if event is Start { 0int } else { s.at + 1 };
            &&& scan_action(t) matches ScanAction::Compare { first, second } ==> {
                &&& from <= t.at < t.pairs.len()
                &&& first == s.pairs[t.at].0 as usize && second == s.pairs[t.at].1 as usize
                &&& is_open(t, t.at)
                &&& forall|k: int| from <= k < t.at ==> !#[trigger] is_open(t, k)
            }
            &&& scan_action(t) is Finish ==> forall|k: int|
                from <= k < t.pairs.len() ==> !#[trigger] is_open(t, k)
            &&& scan_action(t) is Judge || scan_action(t) is Merge ==> t.at == s.at
        }),
{
    let t = scan_step(s, event);
    law_scan_step_keeps_invariant(s, event);
    if event is Start {
        lemma_next_live_is_first(s.pairs, t.processed, 0);
    } else {
        lemma_next_live_is_first(s.pairs, t.processed, s.at + 1);
    }
}

/// Whether the vector neighbours of a memory say whom it is compared with.
pub open spec fn is_narrowed(clusters: Seq<Option<u32>>, ann: Seq<Seq<int>>, i: int) -> bool {
    clusters[i] is None && i < ann.len() && ann[i].len() > 0
}

/// Whether `j` is a later memory that `i` is to be compared with: a vector
/// neighbour where those are known, and else one of its cluster.
pub open spec fn belong_together(
    clusters: Seq<Option<u32>>,
    ann: Seq<Seq<int>>,
    i: int,
    j: int,
) -> bool {
    &&& 0 <= i < j < clusters.len()
    &&& if is_narrowed(clusters, ann, i) {
        ann[i].contains(j)
    } else {
        clusters[i] == clusters[j]
    }
}

/// Whether `a` may stand before `b` among the pairs of one cluster: with an
/// earlier first memory, or the same and an earlier second.
pub open spec fn in_turn(
    clusters: Seq<Option<u32>>,
    ann: Seq<Seq<int>>,
    a: (int, int),
    b: (int, int),
) -> bool {
    a.0 < b.0 || (a.0 == b.0 && (is_narrowed(clusters, ann, a.0) || a.1 < b.1))
}

proof fn lemma_members(clusters: Seq<Option<u32>>, i: int, end: int)
    requires
        0 <= i < clusters.len(),
        end <= clusters.len(),
    ensures
        ({
            let v = later_members(clusters, i, end);
            &&& forall|k: int|
                0 <= k < v.len() ==> (#[trigger] v[k]).0 == i && i < v[k].1 < end
                    && clusters[v[k].1] == clusters[i]
            &&& forall|a: int, b: int|
                0 <= a < b < v.len() ==> (#[trigger] v[a]).1 < (#[trigger] v[b]).1
        }),
    decreases end - i,
{
    if end > i + 1 {
        lemma_members(clusters, i, end - 1);
        let rest = later_members(clusters, i, end - 1);
        let v = later_members(clusters, i, end);
        assert forall|k: int| 0 <= k < v.len() implies (#[trigger] v[k]).0 == i && i < v[k].1 < end
            && clusters[v[k].1] == clusters[i] by {
            if k < rest.len() {
                assert(v[k] == rest[k]);
            }
        }
        assert forall|a: int, b: int| 0 <= a < b < v.len() implies (#[trigger] v[a]).1 < (
        #[trigger] v[b]).1 by {
            assert(v[a] == rest[a]);
            if b < rest.len() {
                assert(v[b] == rest[b]);
            }
        }
    }
}

proof fn lemma_neighbours(near: Seq<int>, i: int)
    ensures
        ({
            let v = later_neighbours(near, i);
            forall|k: int|
                0 <= k < v.len() ==> (#[trigger] v[k]).0 == i && i < v[k].1 && near.contains(v[k].1)
        }),
    decreases near.len(),
{
    if near.len() > 0 {
        lemma_neighbours(near.drop_last(), i);
        let rest = later_neighbours(near.drop_last(), i);
        let v = later_neighbours(near, i);
        assert forall|k: int| 0 <= k < v.len() implies (#[trigger] v[k]).0 == i && i < v[k].1
            && near.contains(v[k].1) by {
            if k < rest.len() {
                assert(v[k] == rest[k]);
                let q = choose|q: int|
                    0 <= q < near.drop_last().len() && near.drop_last()[q] == rest[k].1;
                assert(near[q] == v[k].1);
            } else {
                assert(near[near.len() - 1] == v[k].1);
            }
        }
    }
}

proof fn lemma_row_pairs(clusters: Seq<Option<u32>>, ann: Seq<Seq<int>>, i: int)
    requires
        ann_in_range(ann, clusters.len() as int),
        0 <= i < clusters.len(),
    ensures
        ({
            let v = row(clusters, ann, i);
            &&& forall|k: int|
                0 <= k < v.len() ==> (#[trigger] v[k]).0 == i && belong_together(
                    clusters,
                    ann,
                    i,
                    v[k].1,
                )
            &&& forall|a: int, b: int|
                0 <= a < b < v.len() ==> in_turn(clusters, ann, #[trigger] v[a], #[trigger] v[b])
        }),
{
    lemma_members(clusters, i, clusters.len() as int);
    if is_narrowed(clusters, ann, i) {
        lemma_neighbours(ann[i], i);
        let v = row(clusters, ann, i);
        assert forall|k: int| 0 <= k < v.len() implies (#[trigger] v[k]).0 == i && belong_together(
            clusters,
            ann,
            i,
            v[k].1,
        ) by {
            let q = choose|q: int| 0 <= q < ann[i].len() && ann[i][q] == v[k].1;
            assert(0 <= ann[i][q] < clusters.len());
        }
    }
}

proof fn lemma_bucket_pairs(clusters: Seq<Option<u32>>, ann: Seq<Seq<int>>, first: int, end: int)
    requires
        ann_in_range(ann, clusters.len() as int),
        0 <= first < clusters.len(),
        end <= clusters.len(),
    ensures
        ({
            let v = bucket_rows(clusters, ann, first, end);
            &&& forall|k: int|
                0 <= k < v.len() ==> first <= (#[trigger] v[k]).0 < end && clusters[v[k].0]
                    == clusters[first] && belong_together(clusters, ann, v[k].0, v[k].1)
            &&& forall|a: int, b: int|
                0 <= a < b < v.len() ==> in_turn(clusters, ann, #[trigger] v[a], #[trigger] v[b])
        }),
    decreases end - first,
{
    if end > first {
        lemma_bucket_pairs(clusters, ann, first, end - 1);
        lemma_row_pairs(clusters, ann, end - 1);
        let rest = bucket_rows(clusters, ann, first, end - 1);
        let more = row(clusters, ann, end - 1);
        let v = bucket_rows(clusters, ann, first, end);
        if clusters[end - 1] == clusters[first] {
            assert forall|k: int| 0 <= k < v.len() implies first <= (#[trigger] v[k]).0 < end
                && clusters[v[k].0] == clusters[first] && belong_together(
                clusters,
                ann,
                v[k].0,
                v[k].1,
            ) by {
                if k < rest.len() {
                    assert(v[k] == rest[k]);
                } else {
                    assert(v[k] == more[k - rest.len()]);
                }
            }
            assert forall|a: int, b: int| 0 <= a < b < v.len() implies in_turn(
                clusters,
                ann,
                #[trigger] v[a],
                #[trigger] v[b],
            ) by {
                if b < rest.len() {
                    assert(v[a] == rest[a] && v[b] == rest[b]);
                } else if a < rest.len() {
                    assert(v[a] == rest[a] && v[b] == more[b - rest.len()]);
                } else {
                    assert(v[a] == more[a - rest.len()] && v[b] == more[b - rest.len()]);
                }
            }
        }
    }
}

proof fn lemma_all_pairs(clusters: Seq<Option<u32>>, ann: Seq<Seq<int>>, end: int)
    requires
        ann_in_range(ann, clusters.len() as int),
        0 <= end <= clusters.len(),
    ensures
        ({
            let v = candidate_pairs_to(clusters, ann, end);
            &&& forall|k: int|
                0 <= k < v.len() ==> belong_together(clusters, ann, (#[trigger] v[k]).0, v[k].1)
                    && exists|f: int| 0 <= f < end && #[trigger] clusters[f] == clusters[v[k].0]
            &&& forall|a: int, b: int|
                0 <= a < b < v.len() && clusters[(#[trigger] v[a]).0] == clusters[(
                #[trigger] v[b]).0] ==> in_turn(clusters, ann, v[a], v[b])
        }),
    decreases end,
{
    if end > 0 {
        lemma_all_pairs(clusters, ann, end - 1);
        let rest = candidate_pairs_to(clusters, ann, end - 1);
        let v = candidate_pairs_to(clusters, ann, end);
        if opens_bucket(clusters, end - 1) {
            lemma_bucket_pairs(clusters, ann, end - 1, clusters.len() as int);
            let more = bucket_rows(clusters, ann, end - 1, clusters.len() as int);
            assert forall|k: int| 0 <= k < v.len() implies belong_together(
                clusters,
                ann,
                (#[trigger] v[k]).0,
                v[k].1,
            ) && exists|f: int| 0 <= f < end && #[trigger] clusters[f] == clusters[v[k].0] by {
                if k < rest.len() {
                    assert(v[k] == rest[k]);
                    let f = choose|f: int|
                        0 <= f < end - 1 && #[trigger] clusters[f] == clusters[rest[k].0];
                    assert(clusters[f] == clusters[v[k].0]);
                } else {
                    assert(v[k] == more[k - rest.len()]);
                    assert(clusters[end - 1] == clusters[v[k].0]);
                }
            }
            assert forall|a: int, b: int|
                0 <= a < b < v.len() && clusters[(#[trigger] v[a]).0] == clusters[(
                #[trigger] v[b]).0] implies in_turn(clusters, ann, v[a], v[b]) by {
                if b < rest.len() {
                    assert(v[a] == rest[a] && v[b] == rest[b]);
                } else if a < rest.len() {
                    assert(v[a] == rest[a] && v[b] == more[b - rest.len()]);
                    let f = choose|f: int|
                        0 <= f < end - 1 && #[trigger] clusters[f] == clusters[rest[a].0];
                    assert(clusters[f] != clusters[end - 1]);
                } else {
                    assert(v[a] == more[a - rest.len()] && v[b] == more[b - rest.len()]);
                }
            }
        } else {
            assert forall|k: int| 0 <= k < v.len() implies exists|f: int|
                0 <= f < end && #[trigger] clusters[f] == clusters[(#[trigger] v[k]).0] by {
                let f = choose|f: int|
                    0 <= f < end - 1 && #[trigger] clusters[f] == clusters[rest[k].0];
                assert(clusters[f] == clusters[v[k].0]);
            }
        }
    }
}

/// Only different memories of the group are compared, the earlier first: two of
/// one cluster, or two vector neighbours where the first has no cluster and its
/// neighbours are known.
pub proof fn law_who_is_compared(clusters: Seq<Option<u32>>, ann: Seq<Seq<int>>, k: int)
    requires
        ann_in_range(ann, clusters.len() as int),
        0 <= k < candidate_pairs(clusters, ann).len(),
    ensures
        ({
            let (i, j) = candidate_pairs(clusters, ann)[k];
            &&& 0 <= i < j < clusters.len()
            &&& if clusters[i] is None && i < ann.len() && ann[i].len() > 0 {
                ann[i].contains(j)
            } else {
                clusters[i] == clusters[j]
            }
        }),
{
    lemma_all_pairs(clusters, ann, clusters.len() as int);
}

/// Within a cluster pairs are compared in order of their first memory, and then
/// of their second, so each once; vector neighbours come in their own order.
pub proof fn law_pairs_are_compared_in_order(
    clusters: Seq<Option<u32>>,
    ann: Seq<Seq<int>>,
    a: int,
    b: int,
)
    requires
        ann_in_range(ann, clusters.len() as int),
        0 <= a < b < candidate_pairs(clusters, ann).len(),
        clusters[candidate_pairs(clusters, ann)[a].0] == clusters[candidate_pairs(
            clusters,
            ann,
        )[b].0],
    ensures
        ({
            let (i, j) = candidate_pairs(clusters, ann)[a];
            let (k, l) = candidate_pairs(clusters, ann)[b];
            i < k || (i == k && (j < l || (clusters[i] is None && i < ann.len() && ann[i].len()
                > 0)))
        }),
{
    lemma_all_pairs(clusters, ann, clusters.len() as int);
}

proof fn lemma_neighbour_kept(near: Seq<int>, i: int, j: int)
    requires
        near.contains(j),
        i < j,
    ensures
        later_neighbours(near, i).contains((i, j)),
    decreases near.len(),
{
    let q = choose|q: int| 0 <= q < near.len() && near[q] == j;
    let v = later_neighbours(near, i);
    let rest = later_neighbours(near.drop_last(), i);
    if q == near.len() - 1 {
        assert(v[v.len() - 1] == (i, j));
    } else {
        assert(near.drop_last()[q] == j);
        lemma_neighbour_kept(near.drop_last(), i, j);
        let k = choose|k: int| 0 <= k < rest.len() && rest[k] == (i, j);
        assert(v[k] == (i, j));
    }
}

/// A memory without a cluster is compared with every later vector neighbour.
pub proof fn law_neighbours_are_compared(
    clusters: Seq<Option<u32>>,
    ann: Seq<Seq<int>>,
    i: int,
    j: int,
)
    requires
        0 <= i < j < clusters.len(),
        i < ann.len(),
        clusters[i] is None,
        ann[i].contains(j),
    ensures
        candidate_pairs(clusters, ann).contains((i, j)),
{
    let n = clusters.len() as int;
    lemma_neighbour_kept(ann[i], i, j);
    assert(row(clusters, ann, i).contains((i, j)));
    let first = lemma_bucket_is_opened(clusters, i);
    lemma_row_in_bucket(clusters, ann, first, i, n, (i, j));
    lemma_bucket_in_pairs(clusters, ann, first, n, (i, j));
}

/// The scan sees of a group the bytes of each content and the cluster of each
/// memory, under its own position.
pub proof fn law_group_is_seen_in_order(memories: Seq<Memory>, k: int)
    requires
        0 <= k < memories.len(),
    ensures
        sizes_of(memories).len() == memories.len(),
        clusters_of(memories).len() == memories.len(),
        sizes_of(memories)[k] == byte_len(memories[k].content@),
        clusters_of(memories)[k] == memories[k].cluster_id,
{
}

/// The memories without a cluster are all those that have none, in order.
pub proof fn law_unclustered(memories: Seq<Memory>)
    ensures
        forall|i: int|
            #[trigger] unclustered(memories).contains(i) <==> 0 <= i < memories.len()
                && memories[i].cluster_id is None,
        forall|a: int, b: int|
            0 <= a < b < unclustered(memories).len() ==> unclustered(memories)[a] < unclustered(
                memories,
            )[b],
    decreases memories.len(),
{
    let v = unclustered(memories);
    if memories.len() > 0 {
        let front = memories.drop_last();
        law_unclustered(front);
        let u = unclustered(front);
        assert forall|i: int| v.contains(i) <==> 0 <= i < memories.len() && memories[
            i
        ].cluster_id is None by {
            if 0 <= i < front.len() {
                assert(front[i] == memories[i]);
            }
            if v.contains(i) {
                let q = choose|q: int| 0 <= q < v.len() && v[q] == i;
                if q < u.len() {
                    assert(u[q] == i);
                    assert(u.contains(i));
                }
            }
            if u.contains(i) {
                let q = choose|q: int| 0 <= q < u.len() && u[q] == i;
                assert(v[q] == i);
            }
            if i == memories.len() - 1 && memories[i].cluster_id is None {
                assert(v[v.len() - 1] == i);
            }
        }
        assert forall|a: int, b: int| 0 <= a < b < v.len() implies v[a] < v[b] by {
            assert(a < u.len());
            assert(v[a] == u[a]);
            assert(u.contains(u[a]));
            if b < u.len() {
                assert(v[b] == u[b]);
            }
        }
    }
}

/// A line of the source is taken over exactly where it is not blank, is no marker
/// of an earlier merge, and its whole text, without the white space around it and
/// in lower case, is that of no line of the target; the order is kept.
pub proof fn law_which_lines_are_unique(source: Seq<char>, target: Seq<char>)
    ensures
        unique_lines(source, target) == lines(source).filter(
            |line: Seq<char>|
                trimmed(line).len() > 0 && !"[merged from "@.is_prefix_of(trimmed(line))
                    && !"[merged on "@.is_prefix_of(trimmed(line)) && forall|i: int|
                    0 <= i < lines(target).len() ==> lowercase(trimmed(#[trigger] lines(target)[i]))
                        != lowercase(trimmed(line)),
        ),
        forall|line: Seq<char>|
            lines(source).contains(line) && trimmed(line).len() > 0 && !"[merged from "@.is_prefix_of(
                trimmed(line),
            ) && !"[merged on "@.is_prefix_of(trimmed(line)) && (forall|i: int|
                0 <= i < lines(target).len() ==> lowercase(trimmed(#[trigger] lines(target)[i]))
                    != lowercase(trimmed(line))) ==> unique_lines(source, target).contains(line),
{
    let told = |line: Seq<char>|
        trimmed(line).len() > 0 && !"[merged from "@.is_prefix_of(trimmed(line))
            && !"[merged on "@.is_prefix_of(trimmed(line)) && forall|i: int|
            0 <= i < lines(target).len() ==> lowercase(trimmed(#[trigger] lines(target)[i]))
                != lowercase(trimmed(line));
    let compared = |line: Seq<char>| is_unique_line(line, target);
    assert forall|line: Seq<char>| #[trigger] told(line) == compared(line) by {
        assert forall|i: int| 0 <= i < lines(target).len() implies line_key(
            #[trigger] lines(target)[i],
        ) == lowercase(trimmed(lines(target)[i])) by {}
        if !told(line) && trimmed(line).len() > 0 && !"[merged from "@.is_prefix_of(trimmed(line))
            && !"[merged on "@.is_prefix_of(trimmed(line)) {
            let i = choose|i: int|
                0 <= i < lines(target).len() && lowercase(trimmed(#[trigger] lines(target)[i]))
                    == lowercase(trimmed(line));
            assert(line_key(lines(target)[i]) == line_key(line));
            assert(has_line(target, line_key(line)));
        }
    }
    lemma_same_filter(lines(source), told, compared);
    assert forall|line: Seq<char>| lines(source).contains(line) && told(line) implies unique_lines(
        source,
        target,
    ).contains(line) by {
        let k = choose|k: int| 0 <= k < lines(source).len() && lines(source)[k] == line;
        assert(compared(lines(source)[k]));
        lemma_filter_keeps(lines(source), compared, k);
    }
}

proof fn lemma_same_filter(
    s: Seq<Seq<char>>,
    p: spec_fn(Seq<char>) -> bool,
    q: spec_fn(Seq<char>) -> bool,
)
    requires
        forall|x: Seq<char>| #[trigger] p(x) == q(x),
    ensures
        s.filter(p) == s.filter(q),
    decreases s.len(),
{
    reveal(Seq::filter);
    if s.len() > 0 {
        lemma_same_filter(s.drop_last(), p, q);
        assert(p(s.last()) == q(s.last()));
    }
}

/// Whether some line of a text is this one, but for white space around it and
/// the case of its letters.
pub open spec fn says(text: Seq<char>, line: Seq<char>) -> bool {
    exists|k: int|
        0 <= k < lines(text).len() && lowercase(trimmed(#[trigger] lines(text)[k])) == lowercase(
            trimmed(line),
        )
}

proof fn lemma_has_line_says(text: Seq<char>, line: Seq<char>)
    ensures
        has_line(text, line_key(line)) == says(text, line),
{
    if has_line(text, line_key(line)) {
        let k = choose|k: int|
            0 <= k < lines(text).len() && line_key(#[trigger] lines(text)[k]) == line_key(line);
        assert(lowercase(trimmed(lines(text)[k])) == lowercase(trimmed(line)));
    }
    if says(text, line) {
        let k = choose|k: int|
            0 <= k < lines(text).len() && lowercase(trimmed(#[trigger] lines(text)[k]))
                == lowercase(trimmed(line));
        assert(line_key(lines(text)[k]) == line_key(line));
    }
}

/// After a merge without facts of a judge, the survivor says what each content
/// line of the other says, word for word; and it still says what it said.
pub proof fn law_survivor_says_what_both_said(
    r: Memory,
    winner: Memory,
    loser: Memory,
    facts: Seq<Seq<char>>,
    summary: Option<Seq<char>>,
    now: Timestamp,
    max_chars: int,
    line: Seq<char>,
)
    requires
        is_merge_of(r, winner, loser, facts, summary, now, max_chars),
        trimmed(line).len() > 0,
    ensures
        (forall|k: int| 0 <= k < facts.len() ==> trimmed(#[trigger] facts[k]).len() == 0) && lines(
            loser.content@,
        ).contains(line) && !"[merged from "@.is_prefix_of(trimmed(line))
            && !"[merged on "@.is_prefix_of(trimmed(line)) ==> says(r.content@, line),
        lines(winner.content@).contains(line) ==> says(r.content@, line),
        winner.content@.is_prefix_of(r.content@),
{
    let date = formatted(loser.created_at, "%Y-%m-%d"@);
    lemma_has_line_says(r.content@, line);
    if lines(winner.content@).contains(line) {
        law_merge_keeps_winner_lines(
            winner.content@,
            loser.id@,
            loser.content@,
            date,
            facts,
            line,
        );
    }
    if (forall|k: int| 0 <= k < facts.len() ==> trimmed(#[trigger] facts[k]).len() == 0) && lines(
        loser.content@,
    ).contains(line) && !"[merged from "@.is_prefix_of(trimmed(line))
        && !"[merged on "@.is_prefix_of(trimmed(line)) {
        lemma_blank_facts(facts);
        law_merge_loses_no_line(winner.content@, loser.id@, loser.content@, date, facts, line);
    }
}

proof fn lemma_blank_facts(facts: Seq<Seq<char>>)
    requires
        forall|k: int| 0 <= k < facts.len() ==> trimmed(#[trigger] facts[k]).len() == 0,
    ensures
        usable_facts(facts).len() == 0,
    decreases facts.len(),
{
    if facts.len() > 0 {
        assert forall|k: int| 0 <= k < facts.drop_last().len() implies trimmed(
            #[trigger] facts.drop_last()[k],
        ).len() == 0 by {
            assert(facts.drop_last()[k] == facts[k]);
        }
        lemma_blank_facts(facts.drop_last());
        assert(facts.last() == facts[facts.len() - 1]);
    }
}

/// The facts that are taken over are those of the judge without the white space
/// around them, blank ones left out, in order.
pub proof fn law_usable_facts(facts: Seq<Seq<char>>)
    ensures
        usable_facts(facts) == facts.map_values(|f: Seq<char>| trimmed(f)).filter(
            |f: Seq<char>| f.len() > 0,
        ),
    decreases facts.len(),
{
    reveal(Seq::filter);
    let all = facts.map_values(|f: Seq<char>| trimmed(f));
    if facts.len() > 0 {
        law_usable_facts(facts.drop_last());
        assert(all.drop_last() =~= facts.drop_last().map_values(|f: Seq<char>| trimmed(f)));
        assert(all.last() == trimmed(facts.last()));
    } else {
        assert(usable_facts(facts) =~= all.filter(|f: Seq<char>| f.len() > 0));
    }
}

/// What a merge appends stands in a block of its own that names the memory it
/// comes from and its day: the facts of the judge where there are any, else the
/// lines that the survivor lacks, and no block where there is neither.
pub proof fn law_merge_names_its_source(
    winner: Seq<char>,
    id: Seq<char>,
    loser: Seq<char>,
    date: Seq<char>,
    facts: Seq<Seq<char>>,
)
    ensures
        usable_facts(facts).len() > 0 ==> absorbed_content(winner, id, loser, date, facts) == winner
            + "\n\n[merged from "@ + id + " on "@ + date + "]\n"@ + join(usable_facts(facts), "\n"@),
        usable_facts(facts).len() == 0 && unique_lines(loser, winner).len() > 0
            ==> absorbed_content(winner, id, loser, date, facts) == winner + "\n\n[merged from "@ + id
            + " on "@ + date + "]\n"@ + join(unique_lines(loser, winner), "\n"@),
        usable_facts(facts).len() == 0 && unique_lines(loser, winner).len() == 0
            ==> absorbed_content(winner, id, loser, date, facts) == winner,
{
    lemma_body_empty(loser, winner);
    let block = "\n\n[merged from "@ + id + " on "@ + date + "]\n"@;
    let told = join(usable_facts(facts), "\n"@);
    let lacking = join(unique_lines(loser, winner), "\n"@);
    assert(winner + (block + told) =~= winner + "\n\n[merged from "@ + id + " on "@ + date
        + "]\n"@ + told);
    assert(winner + (block + lacking) =~= winner + "\n\n[merged from "@ + id + " on "@ + date
        + "]\n"@ + lacking);
}

/// What else a merge combines: keywords of both, the accesses of both and one
/// more, the higher importance, the hotter tier, the later access. The survivor
/// stays the memory it was, under its own id.
pub proof fn law_merge_combines(
    r: Memory,
    winner: Memory,
    loser: Memory,
    facts: Seq<Seq<char>>,
    summary: Option<Seq<char>>,
    now: Timestamp,
    max_chars: int,
)
    requires
        is_merge_of(r, winner, loser, facts, summary, now, max_chars),
    ensures
        r.id@ == winner.id@ && r.topic@ == winner.topic@ && r.status == winner.status
            && r.superseded_by == winner.superseded_by && r.canonical_id == winner.canonical_id
            && r.cluster_id == winner.cluster_id && r.created_at == winner.created_at,
        r.updated_at == now,
        texts(winner.keywords@).is_prefix_of(texts(r.keywords@)),
        forall|w: Seq<char>|
            texts(r.keywords@).contains(w) <==> texts(winner.keywords@).contains(w) || texts(
                loser.keywords@,
            ).contains(w),
        r.access_count < u32::MAX ==> r.access_count == winner.access_count + loser.access_count
            + 1,
        r.access_count == u32::MAX ==> winner.access_count + loser.access_count + 1 >= u32::MAX,
        r.importance == winner.importance || r.importance == loser.importance,
        winner.importance is Critical || loser.importance is Critical ==> r.importance is Critical,
        r.importance is Low ==> winner.importance is Low && loser.importance is Low,
        winner.tier is Hot || loser.tier is Hot ==> r.tier is Hot,
        r.tier is Cold ==> winner.tier is Cold && loser.tier is Cold,
        r.last_accessed == winner.last_accessed || r.last_accessed == loser.last_accessed,
        r.last_accessed.seconds() >= winner.last_accessed.seconds(),
        r.last_accessed.seconds() >= loser.last_accessed.seconds(),
{
    lemma_union(texts(winner.keywords@), texts(loser.keywords@));
}

/// Keywords that are added are added once, and not where they are there already.
pub proof fn law_keywords_are_added_once(a: Seq<Seq<char>>, b: Seq<Seq<char>>, i: int, j: int)
    requires
        0 <= i < j < keyword_union(a, b).len(),
        a.len() <= j,
    ensures
        keyword_union(a, b)[i] != keyword_union(a, b)[j],
    decreases b.len(),
{
    lemma_union(a, b);
    if b.len() > 0 {
        let so_far = keyword_union(a, b.drop_last());
        let all = keyword_union(a, b);
        lemma_union(a, b.drop_last());
        if j < so_far.len() {
            law_keywords_are_added_once(a, b.drop_last(), i, j);
            assert(all[i] == so_far[i] && all[j] == so_far[j]);
        } else {
            assert(all[i] == so_far[i]);
            assert(so_far.contains(so_far[i]));
        }
    }
}

proof fn lemma_union(a: Seq<Seq<char>>, b: Seq<Seq<char>>)
    ensures
        a.is_prefix_of(keyword_union(a, b)),
        forall|w: Seq<char>| keyword_union(a, b).contains(w) <==> a.contains(w) || b.contains(w),
    decreases b.len(),
{
    if b.len() > 0 {
        let front = b.drop_last();
        let so_far = keyword_union(a, front);
        let all = keyword_union(a, b);
        lemma_union(a, front);
        assert forall|w: Seq<char>| all.contains(w) <==> a.contains(w) || b.contains(w) by {
            if all.contains(w) {
                let k = choose|k: int| 0 <= k < all.len() && all[k] == w;
                if k < so_far.len() {
                    assert(so_far[k] == w);
                    assert(so_far.contains(w));
                    if front.contains(w) {
                        let q = choose|q: int| 0 <= q < front.len() && front[q] == w;
                        assert(b[q] == w);
                    }
                } else {
                    assert(b[b.len() - 1] == w);
                }
            }
            if a.contains(w) || b.contains(w) {
                if b.contains(w) {
                    let q = choose|q: int| 0 <= q < b.len() && b[q] == w;
                    if q < front.len() {
                        assert(front[q] == w);
                        assert(front.contains(w));
                    }
                }
                if so_far.contains(w) {
                    let k = choose|k: int| 0 <= k < so_far.len() && so_far[k] == w;
                    assert(all[k] == w);
                } else {
                    assert(all[all.len() - 1] == w);
                }
            }
        }
        assert(a =~= all.subrange(0, a.len() as int)) by {
            assert forall|k: int| 0 <= k < a.len() implies a[k] == all[k] by {
                assert(a[k] == so_far.subrange(0, a.len() as int)[k]);
            }
        }
    }
}

/// The summary of a merged memory is the judge's where that is not blank, without
/// the white space around it, and else the beginning of the merged content.
pub proof fn law_merged_summary(
    r: Memory,
    winner: Memory,
    loser: Memory,
    facts: Seq<Seq<char>>,
    summary: Option<Seq<char>>,
    now: Timestamp,
    max_chars: int,
)
    requires
        is_merge_of(r, winner, loser, facts, summary, now, max_chars),
        0 <= max_chars,
    ensures
        summary is Some && trimmed(summary->0).len() > 0 ==> r.summary@ == trimmed(summary->0),
        summary is None || trimmed(summary->0).len() == 0 ==> r.summary@.is_prefix_of(r.content@)
            && r.summary@.len() <= max_chars && (r.summary@.len() < max_chars ==> r.summary@
            == r.content@),
{
}

proof fn lemma_block_in_place(winner: Seq<char>, id: Seq<char>, date: Seq<char>, body: Seq<char>)
    ensures
        winner + provenance(id, date, body) == winner + "\n\n[merged from "@ + id + " on "@ + date
            + "]\n"@ + body,
{
    assert(winner + provenance(id, date, body) =~= winner + "\n\n[merged from "@ + id + " on "@
        + date + "]\n"@ + body);
}

/// A batch merge combines in the same way, but leaves the summary and counts as an
/// access of its own.
pub proof fn law_batch_merge_combines(
    r: Memory,
    winner: Memory,
    seen: Seq<char>,
    loser: Memory,
    now: Timestamp,
    line: Seq<char>,
)
    requires
        is_batch_merge_of(r, winner, seen, loser, now),
    ensures
        r.id@ == winner.id@ && r.topic@ == winner.topic@ && r.status == winner.status
            && r.superseded_by == winner.superseded_by && r.canonical_id == winner.canonical_id
            && r.cluster_id == winner.cluster_id && r.created_at == winner.created_at,
        r.summary@ == winner.summary@,
        r.updated_at == now && r.last_accessed == now,
        winner.content@.is_prefix_of(r.content@),
        unique_lines(loser.content@, seen).len() == 0 ==> r.content@ == winner.content@,
        unique_lines(loser.content@, seen).len() > 0 ==> r.content@ == winner.content@
            + "\n\n[merged from "@ + loser.id@ + " on "@ + formatted(
            loser.created_at,
            "%Y-%m-%d"@,
        ) + "]\n"@ + join(unique_lines(loser.content@, seen), "\n"@),
        trimmed(line).len() > 0 && !"[merged from "@.is_prefix_of(trimmed(line))
            && !"[merged on "@.is_prefix_of(trimmed(line)) && lines(loser.content@).contains(line)
            && (says(seen, line) ==> says(winner.content@, line)) ==> says(r.content@, line),
        texts(winner.keywords@).is_prefix_of(texts(r.keywords@)),
        forall|w: Seq<char>|
            texts(r.keywords@).contains(w) <==> texts(winner.keywords@).contains(w) || texts(
                loser.keywords@,
            ).contains(w),
        r.access_count < u32::MAX ==> r.access_count == winner.access_count + loser.access_count
            + 1,
        r.access_count == u32::MAX ==> winner.access_count + loser.access_count + 1 >= u32::MAX,
        winner.importance is Critical || loser.importance is Critical ==> r.importance is Critical,
        r.importance is Low ==> winner.importance is Low && loser.importance is Low,
        winner.tier is Hot || loser.tier is Hot ==> r.tier is Hot,
        r.tier is Cold ==> winner.tier is Cold && loser.tier is Cold,
{
    lemma_union(texts(winner.keywords@), texts(loser.keywords@));
    lemma_body_empty(loser.content@, seen);
    lemma_block_in_place(
        winner.content@,
        loser.id@,
        formatted(loser.created_at, "%Y-%m-%d"@),
        join(unique_lines(loser.content@, seen), "\n"@),
    );
    lemma_has_line_says(seen, line);
    lemma_has_line_says(winner.content@, line);
    lemma_has_line_says(r.content@, line);
    law_batch_merge_loses_no_line(r, winner, seen, loser, now, line);
}

/// A merge by the vector sweep combines in the same way, and the summary is the
/// beginning of the merged content.
pub proof fn law_vector_merge_combines(
    r: Memory,
    kept: Memory,
    discarded: Memory,
    discarded_content: Seq<char>,
    date: Seq<char>,
    now: Timestamp,
    max_chars: int,
    line: Seq<char>,
)
    requires
        is_vector_merge_of(r, kept, discarded, discarded_content, date, now, max_chars),
        0 <= max_chars,
    ensures
        r.id@ == kept.id@ && r.topic@ == kept.topic@ && r.status == kept.status && r.superseded_by
            == kept.superseded_by && r.canonical_id == kept.canonical_id && r.cluster_id
            == kept.cluster_id && r.created_at == kept.created_at,
        r.updated_at == now,
        r.summary@.is_prefix_of(r.content@) && r.summary@.len() <= max_chars && (r.summary@.len()
            < max_chars ==> r.summary@ == r.content@),
        kept.content@.is_prefix_of(r.content@),
        unique_lines(discarded_content, kept.content@).len() == 0 ==> r.content@ == kept.content@,
        unique_lines(discarded_content, kept.content@).len() > 0 ==> r.content@ == kept.content@
            + "\n\n[merged from "@ + discarded.id@ + " on "@ + date + "]\n"@ + join(
            unique_lines(discarded_content, kept.content@),
            "\n"@,
        ),
        trimmed(line).len() > 0 && !"[merged from "@.is_prefix_of(trimmed(line))
            && !"[merged on "@.is_prefix_of(trimmed(line)) && lines(discarded_content).contains(line)
            ==> says(r.content@, line),
        texts(kept.keywords@).is_prefix_of(texts(r.keywords@)),
        forall|w: Seq<char>|
            texts(r.keywords@).contains(w) <==> texts(kept.keywords@).contains(w) || texts(
                discarded.keywords@,
            ).contains(w),
        r.access_count < u32::MAX ==> r.access_count == kept.access_count + discarded.access_count
            + 1,
        r.access_count == u32::MAX ==> kept.access_count + discarded.access_count + 1 >= u32::MAX,
        kept.importance is Critical || discarded.importance is Critical ==> r.importance is Critical,
        r.importance is Low ==> kept.importance is Low && discarded.importance is Low,
        kept.tier is Hot || discarded.tier is Hot ==> r.tier is Hot,
        r.tier is Cold ==> kept.tier is Cold && discarded.tier is Cold,
        r.last_accessed.seconds() >= kept.last_accessed.seconds(),
        r.last_accessed.seconds() >= discarded.last_accessed.seconds(),
{
    lemma_union(texts(kept.keywords@), texts(discarded.keywords@));
    lemma_body_empty(discarded_content, kept.content@);
    lemma_block_in_place(
        kept.content@,
        discarded.id@,
        date,
        join(unique_lines(discarded_content, kept.content@), "\n"@),
    );
    lemma_has_line_says(r.content@, line);
    law_vector_merge_loses_no_line(
        r,
        kept,
        discarded,
        discarded_content,
        date,
        now,
        max_chars,
        line,
    );
}

/// Whether a neighbour can be acted on: it is not the row itself, is still in the
/// store, is superseded by none, and is active or updated.
pub open spec fn is_usable(c: VecCandidate) -> bool {
    &&& !c.is_source
    &&& c.info is Some
    &&& !(c.info->0).superseded
    &&& (c.info->0).status is Active || (c.info->0).status is Updated
}

/// Whether the search through the neighbours ends at one: it lies under the floor.
pub open spec fn ends_search(c: VecCandidate) -> bool {
    !c.is_source && c.below_floor
}

/// Whether a neighbour has to be acted on: it can be, and is a strong match, or a
/// judge may still be asked.
pub open spec fn decides(c: VecCandidate, may_ask: bool) -> bool {
    !ends_search(c) && is_usable(c) && (c.strong || may_ask)
}

proof fn lemma_next_is_first(c: Seq<VecCandidate>, may_ask: bool, from: int)
    requires
        0 <= from <= c.len(),
    ensures
        from <= next_decision(c, may_ask, from) <= c.len(),
        next_decision(c, may_ask, from) < c.len() ==> ends_search(
            c[next_decision(c, may_ask, from)],
        ) || decides(c[next_decision(c, may_ask, from)], may_ask),
        forall|k: int|
            from <= k < next_decision(c, may_ask, from) ==> !ends_search(#[trigger] c[k])
                && !decides(c[k], may_ask),
    decreases c.len() - from,
{
    if from < c.len() && (class_of(c[from]) is Skip || (class_of(c[from]) is Gray && !may_ask)) {
        lemma_next_is_first(c, may_ask, from + 1);
    }
}

/// Whether the row, at neighbour `at` now, has looked at all from `from` on: none
/// before it had to be acted on, and none ended the search.
pub open spec fn passed_over(c: Seq<VecCandidate>, may_ask: bool, from: int, at: int) -> bool {
    forall|k: int| from <= k < at ==> !ends_search(#[trigger] c[k]) && !decides(c[k], may_ask)
}

/// The row acts on the first neighbour that it has to: it merges with a strong
/// match and puts any other before the judge, which counts. Where none is left, or
/// one lies under the floor before, it is done.
pub open spec fn goes_on(s: RowState, t: RowState, from: int) -> bool {
    let may_ask = s.llm_calls < s.llm_budget;
    &&& from <= t.at <= s.candidates.len()
    &&& passed_over(s.candidates, may_ask, from, t.at)
    &&& t.merged == s.merged && t.clear_flag == s.clear_flag
    &&& match row_action(t) {
        RowAction::Merge { candidate } => candidate == t.at && t.at < s.candidates.len() && decides(
            s.candidates[t.at],
            may_ask,
        ) && s.candidates[t.at].strong && t.llm_calls == s.llm_calls,
        RowAction::Judge { candidate } => candidate == t.at && t.at < s.candidates.len() && decides(
            s.candidates[t.at],
            may_ask,
        ) && !s.candidates[t.at].strong && may_ask && t.llm_calls == s.llm_calls + 1,
        RowAction::Supersede { .. } => false,
        RowAction::Finish { clear_flag } => clear_flag == s.clear_flag && t.llm_calls == s.llm_calls
            && (t.at == s.candidates.len() || ends_search(s.candidates[t.at])),
    }
}

/// A row begins with its nearest neighbour and acts on the first that it has to.
pub proof fn law_row_begins_with_the_nearest(s: RowState)
    requires
        row_invariant(s),
        s.phase is Ready,
    ensures
        goes_on(s, row_step(s, RowEvent::Start), 0),
{
    lemma_next_is_first(s.candidates, s.llm_calls < s.llm_budget, 0);
}

/// A row is superseded exactly where the judge finds a duplicate or an update in
/// the neighbour it was asked about, and by that one. After any other verdict the
/// row goes on behind it.
pub proof fn law_verdict_decides_the_row(s: RowState, relation: DedupRelation)
    requires
        row_invariant(s),
        s.phase is Judging,
    ensures
        ({
            let t = row_step(s, RowEvent::Verdict(relation));
            &&& row_action(s) == (RowAction::Judge { candidate: s.at as usize })
            &&& relation == DedupRelation::Duplicate || relation == DedupRelation::Update
                ==> row_action(t) == (RowAction::Supersede { candidate: s.at as usize })
                && t.llm_calls == s.llm_calls && t.merged == s.merged
            &&& relation == DedupRelation::Related || relation == DedupRelation::Distinct
                ==> goes_on(s, t, s.at + 1)
        }),
{
    lemma_next_is_first(s.candidates, s.llm_calls < s.llm_budget, s.at + 1);
}

/// A row asks to be superseded only after such a verdict, and never for another
/// reason.
pub proof fn law_only_a_verdict_supersedes(s: RowState, event: RowEvent)
    requires
        row_invariant(s),
        row_expects(s.phase, event),
    ensures
        row_action(row_step(s, event)) is Supersede <==> event == RowEvent::Verdict(
            DedupRelation::Duplicate,
        ) || event == RowEvent::Verdict(DedupRelation::Update),
{
    lemma_next_is_first(s.candidates, s.llm_calls < s.llm_budget, 0);
    if s.at < s.candidates.len() {
        lemma_next_is_first(s.candidates, s.llm_calls < s.llm_budget, s.at + 1);
    }
}

/// A row is done once it was merged or superseded, or a write failed. A write that
/// succeeded counts; the flag is cleared only then, and only where the row did
/// not survive its merge.
pub proof fn law_written_row_is_done(s: RowState, event: RowEvent)
    requires
        row_invariant(s),
        row_expects(s.phase, event),
        s.phase is Merging || s.phase is Superseding,
    ensures
        ({
            let t = row_step(s, event);
            let written = event is Merged || event is Superseded;
            let survived = event == (RowEvent::Merged { row_kept: true });
            &&& row_action(t) == (RowAction::Finish {
                clear_flag: s.clear_flag && written && !survived,
            })
            &&& t.merged == s.merged + (if written { 1int } else { 0int })
            &&& t.llm_calls == s.llm_calls
        }),
{
}

/// A row starts with nothing done, its flag to be cleared, at least one question
/// to the judge per sweep, and the counts of the rows before it.
pub proof fn law_fresh_row(candidates: Seq<VecCandidate>, limits: DedupLimits, tally: SweepTally)
    ensures
        ({
            let s = new_row(candidates, limits, tally);
            &&& s.candidates == candidates && s.phase is Ready && s.clear_flag
            &&& s.llm_calls == tally.llm_calls && s.merged == tally.merged
            &&& s.llm_budget >= 1 && s.llm_budget >= limits.llm_budget
            &&& s.llm_budget > 1 ==> s.llm_budget == limits.llm_budget
        }),
{
}

/// Of a strong match the neighbour survives where it was ever accessed, or is more
/// than an hour old.
pub proof fn law_which_strong_match_survives(info: CandidateInfo, now: Timestamp)
    ensures
        info.access_count > 0 ==> candidate_kept(info, now),
        info.access_count == 0 ==> candidate_kept(info, now) == older_than(
            info.created_at,
            now,
            3600,
        ),
{
}

/// A sweep takes rows from the front, two batches of them and at least two; what
/// it does not take is deferred, so nothing is lost count of.
pub proof fn law_sweep_takes_two_batches(
    s: VecSweep,
    pending: Seq<VecDedupItem>,
    limits: DedupLimits,
)
    requires
        is_sweep_of(s, pending, limits),
    ensures
        s.window@.is_prefix_of(pending),
        s.window@.len() + s.deferred == pending.len(),
        s.deferred > 0 && limits.batch_size >= 1 ==> s.window@.len() == 2 * limits.batch_size
            || s.window@.len() == usize::MAX,
        s.deferred > 0 && limits.batch_size == 0 ==> s.window@.len() == 2,
        s.window@.len() < pending.len() ==> s.window@.len() >= 2,
        limits.batch_size >= 1 ==> s.window@.len() <= 2 * limits.batch_size,
{
}

/// The positions without an embedding are all those, in order.
pub proof fn law_uncached(cached: Seq<bool>)
    ensures
        forall|i: int| #[trigger] uncached(cached).contains(i) <==> 0 <= i < cached.len() && !cached[i],
        forall|a: int, b: int|
            0 <= a < b < uncached(cached).len() ==> uncached(cached)[a] < uncached(cached)[b],
    decreases cached.len(),
{
    let v = uncached(cached);
    if cached.len() > 0 {
        let front = cached.drop_last();
        law_uncached(front);
        let u = uncached(front);
        assert forall|i: int| v.contains(i) <==> 0 <= i < cached.len() && !cached[i] by {
            if 0 <= i < front.len() {
                assert(front[i] == cached[i]);
            }
            if v.contains(i) {
                let q = choose|q: int| 0 <= q < v.len() && v[q] == i;
                if q < u.len() {
                    assert(u[q] == i);
                    assert(u.contains(i));
                }
            }
            if u.contains(i) {
                let q = choose|q: int| 0 <= q < u.len() && u[q] == i;
                assert(v[q] == i);
            }
            if i == cached.len() - 1 && !cached[i] {
                assert(v[v.len() - 1] == i);
            }
        }
        assert forall|a: int, b: int| 0 <= a < b < v.len() implies v[a] < v[b] by {
            assert(a < u.len());
            assert(v[a] == u[a]);
            assert(u.contains(u[a]));
            assert(0 <= u[a] < front.len());
            if b < u.len() {
                assert(v[b] == u[b]);
                assert(u[a] < u[b]);
            } else {
                assert(v[b] == cached.len() - 1);
            }
        }
    }
}

/// An id stands for the last memory of the bucket that bears it, and for none where
/// no memory does.
pub proof fn law_position_of(ids: Seq<Seq<char>>, indices: Seq<usize>, id: Seq<char>)
    ensures
        match position_of(ids, indices, id) {
            Some(p) => exists|k: int|
                0 <= k < indices.len() && (#[trigger] indices[k]) == p && ids[indices[k] as int]
                    == id && forall|q: int|
                    k < q < indices.len() ==> ids[(#[trigger] indices[q]) as int] != id,
            None => forall|k: int|
                0 <= k < indices.len() ==> ids[(#[trigger] indices[k]) as int] != id,
        },
    decreases indices.len(),
{
    if indices.len() > 0 {
        let n = indices.len() - 1;
        let front = indices.drop_last();
        if ids[indices.last() as int] == id {
            assert(indices[n] == indices.last());
        } else {
            law_position_of(ids, front, id);
            match position_of(ids, indices, id) {
                Some(p) => {
                    let k = choose|k: int|
                        0 <= k < front.len() && (#[trigger] front[k]) == p && ids[front[k] as int]
                            == id && forall|q: int|
                            k < q < front.len() ==> ids[(#[trigger] front[q]) as int] != id;
                    assert(indices[k] == front[k]);
                    assert forall|q: int| k < q < indices.len() implies ids[(
                    #[trigger] indices[q]) as int] != id by {
                        if q < n {
                            assert(indices[q] == front[q]);
                        }
                    }
                },
                None => {
                    assert forall|k: int| 0 <= k < indices.len() implies ids[(
                    #[trigger] indices[k]) as int] != id by {
                        if k < n {
                            assert(indices[k] == front[k]);
                        }
                    }
                },
            }
        }
    }
}

/// A verdict is carried out as what it is: a duplicate is absorbed, an update
/// replaces, related memories are linked, distinct ones kept.
pub proof fn law_plan_carries_out_the_verdict(p: DedupPlan)
    ensures
        plan_relation(p) == DedupRelation::Duplicate <==> p is Absorb,
        plan_relation(p) == DedupRelation::Update <==> p is Replace,
        plan_relation(p) == DedupRelation::Related <==> p is Link,
        plan_relation(p) == DedupRelation::Distinct <==> p is Keep,
{
}

/// An update keeps the newer memory's content and takes nothing of the older but
/// its keywords and a higher importance.
pub proof fn law_update_keeps_the_newer(
    r: Memory,
    newer: Memory,
    older: Memory,
    summary: Seq<char>,
    now: Timestamp,
    max_chars: int,
)
    requires
        is_update_of(r, newer, older, summary, now, max_chars),
        0 <= max_chars,
    ensures
        r.id@ == newer.id@ && r.topic@ == newer.topic@ && r.content@ == newer.content@ && r.status
            == newer.status && r.superseded_by == newer.superseded_by && r.canonical_id
            == newer.canonical_id && r.created_at == newer.created_at,
        r.access_count == newer.access_count && r.tier == newer.tier && r.last_accessed
            == newer.last_accessed,
        r.updated_at == now,
        trimmed(summary).len() == 0 ==> r.summary@ == newer.summary@,
        trimmed(summary).len() > 0 ==> r.summary@.is_prefix_of(summary) && r.summary@.len()
            <= max_chars && (r.summary@.len() < max_chars ==> r.summary@ == summary),
        texts(newer.keywords@).is_prefix_of(texts(r.keywords@)),
        forall|w: Seq<char>|
            texts(r.keywords@).contains(w) <==> texts(newer.keywords@).contains(w) || texts(
                older.keywords@,
            ).contains(w),
        newer.importance is Critical || older.importance is Critical ==> r.importance is Critical,
        r.importance is Low ==> newer.importance is Low && older.importance is Low,
{
    lemma_union(texts(newer.keywords@), texts(older.keywords@));
}

/// A link adds the other memory once, at the end, and changes nothing else; where
/// it is there already nothing is written.
pub proof fn law_link_adds_one(r: Option<Memory>, m: Memory, other: Seq<char>)
    requires
        is_link_of(r, m, other),
    ensures
        r is None <==> texts(m.related_ids@).contains(other),
        r matches Some(l) ==> {
            &&& texts(l.related_ids@).len() == texts(m.related_ids@).len() + 1
            &&& texts(m.related_ids@).is_prefix_of(texts(l.related_ids@))
            &&& texts(l.related_ids@).last() == other
            &&& l.id@ == m.id@ && l.content@ == m.content@ && l.summary@ == m.summary@
            &&& l.superseded_by == m.superseded_by && l.status == m.status
        },
{
}

/// A superseded memory names the one that took its place, and is kept as it was.
pub proof fn law_superseded_memory_is_kept(r: Memory, m: Memory, winner_id: Seq<char>)
    requires
        is_superseded(r, m, winner_id),
    ensures
        r.superseded_by matches Some(id) && id@ == winner_id,
        r.id == m.id && r.content == m.content && r.summary == m.summary && r.keywords == m.keywords
            && r.status == m.status && r.tier == m.tier && r.access_count == m.access_count
            && r.importance == m.importance && r.created_at == m.created_at && r.updated_at
            == m.updated_at && r.topic == m.topic && r.related_ids == m.related_ids,
{
}

/// A verdict that supersedes nothing names the new memory and no winner, and keeps
/// what the judge said.
pub proof fn law_verdict_record(
    d: DedupDecision,
    relation: DedupRelation,
    new_id: Seq<char>,
    verdict: DedupVerdict,
    reason: Seq<char>,
)
    requires
        is_verdict_record(d, relation, new_id, verdict, reason),
    ensures
        d.winner_id is None && d.canonical_id is None,
        d.loser_id matches Some(id) && id@ == new_id,
        d.relation == relation && d.reason@ == reason && d.reversible && d.operator@ == "auto"@,
        d.conflict_detected == verdict.conflict_detected,
        texts(d.novel_facts@) == texts(verdict.novel_facts@),
        d.merged_summary is Some <==> trimmed(verdict.merged_summary@).len() > 0,
        d.merged_summary matches Some(s) ==> s@ == verdict.merged_summary@,
{
}

/// Each merge of a run has a savepoint of its own.
pub proof fn law_savepoints_differ(a: u32, b: u32)
    requires
        a != b,
    ensures
        savepoint_text(a) != savepoint_text(b),
        "dedup_"@.is_prefix_of(savepoint_text(a)),
{
    law_decimal(a as nat);
    law_decimal(b as nat);
    let n = "dedup_"@.len() as int;
    assert(savepoint_text(a).skip(n) =~= decimal(a as nat));
    assert(savepoint_text(b).skip(n) =~= decimal(b as nat));
    assert("dedup_"@ =~= savepoint_text(a).subrange(0, n));
}

/// Two memories are neighbours exactly where they differ and the search for one of
/// them returned the other's id.
pub proof fn law_who_are_neighbours(
    ids: Seq<Seq<char>>,
    indices: Seq<usize>,
    hits: Seq<VectorHits>,
    a: int,
    b: int,
)
    ensures
        are_neighbours(ids, indices, hits, a, b) <==> a != b && exists|h: int, k: int|
            0 <= h < hits.len() && 0 <= k < hits[h].1@.len() && ((hits[h].0 == a && position_of(
                ids,
                indices,
                (#[trigger] hits[h].1@[k])@,
            ) == Some(b)) || (hits[h].0 == b && position_of(ids, indices, hits[h].1@[k]@) == Some(
                a,
            ))),
{
    if are_neighbours(ids, indices, hits, a, b) {
        if hit(ids, indices, hits, a, b) {
            let (h, k) = choose|h: int, k: int|
                0 <= h < hits.len() && 0 <= k < hits[h].1@.len() && hits[h].0 == a && position_of(
                    ids,
                    indices,
                    (#[trigger] hits[h].1@[k])@,
                ) == Some(b);
            assert(hits[h].1@[k] == hits[h].1@[k]);
        } else {
            let (h, k) = choose|h: int, k: int|
                0 <= h < hits.len() && 0 <= k < hits[h].1@.len() && hits[h].0 == b && position_of(
                    ids,
                    indices,
                    (#[trigger] hits[h].1@[k])@,
                ) == Some(a);
            assert(hits[h].1@[k] == hits[h].1@[k]);
        }
    }
}

/// A judge is asked only about two memories that are both there and both live; any
/// other pair is distinct, whichever of the two it is that is gone.
pub proof fn law_gone_memory_is_distinct(a: Option<&Memory>, b: Option<&Memory>)
    ensures
        settled_by_state(a, b) == settled_by_state(b, a),
        settled_by_state(None, b) == Some(DedupRelation::Distinct),
        settled_by_state(a, b) matches Some(relation) ==> relation is Distinct,
        settled_by_state(a, b) is None <==> (a matches Some(x) && x.superseded_by is None) && (
        b matches Some(y) && y.superseded_by is None),
{
}

/// Two memories of one canonical memory are duplicates; otherwise their canonical
/// memories settle nothing.
pub proof fn law_one_canonical_is_one_memory(a: Seq<char>, b: Seq<char>)
    ensures
        settled_by_canonical(a, a) == Some(DedupRelation::Duplicate),
        settled_by_canonical(a, b) == settled_by_canonical(b, a),
        settled_by_canonical(a, b) is Some ==> a == b,
{
}

/// Without a verdict nothing is superseded or linked, and no fact is made up; a
/// verdict is used as it is.
pub proof fn law_without_a_verdict_nothing_is_merged(
    r: DedupVerdict,
    verdict: Option<DedupVerdict>,
)
    requires
        is_verdict_to_use(r, verdict),
    ensures
        verdict is None ==> r.relation is Distinct && !r.conflict_detected,
        verdict is None ==> texts(r.novel_facts@) == Seq::<Seq<char>>::empty() && r.merged_summary@
            == Seq::<char>::empty() && r.suggested_topic is None,
        verdict matches Some(v) ==> r.relation == v.relation && r.novel_facts == v.novel_facts
            && r.merged_summary == v.merged_summary && r.conflict_detected == v.conflict_detected,
{
    if verdict is None {
        assert(texts(r.novel_facts@) =~= Seq::<Seq<char>>::empty());
    }
}

/// A duplicate is absorbed by the existing memory and the new one goes; an update is
/// the other way round: the new memory stays, with its own content, and the existing
/// one goes. Related memories name each other afterwards, and distinct ones do not
/// change.
pub proof fn law_who_takes_over(
    p: DedupPlan,
    existing: Memory,
    new_memory: Memory,
    verdict: DedupVerdict,
    reason: Seq<char>,
    now: Timestamp,
    max_chars: int,
)
    requires
        is_plan_of(p, existing, new_memory, verdict, reason, now, max_chars),
    ensures
        verdict.relation is Duplicate ==> (p matches DedupPlan::Absorb { winner, loser_id }
            && winner.id@ == existing.id@ && loser_id@ == new_memory.id@
            && existing.content@.is_prefix_of(winner.content@)),
        verdict.relation is Update ==> (p matches DedupPlan::Replace { winner, loser_id }
            && winner.id@ == new_memory.id@ && loser_id@ == existing.id@ && winner.content@
            == new_memory.content@),
        verdict.relation is Related ==> (p matches DedupPlan::Link { left, right, decision } && (
        left is None ==> texts(existing.related_ids@).contains(new_memory.id@)) && (
        left matches Some(l) ==> l.id@ == existing.id@ && texts(l.related_ids@).last()
            == new_memory.id@) && (right is None ==> texts(new_memory.related_ids@).contains(
            existing.id@,
        )) && (right matches Some(m) ==> m.id@ == new_memory.id@ && texts(m.related_ids@).last()
            == existing.id@) && decision.relation is Related && decision.winner_id is None
            && decision.reason@ == reason),
        verdict.relation is Distinct ==> (p matches DedupPlan::Keep { decision }
            && decision.relation is Distinct && decision.winner_id is None && decision.reason@
            == reason),
{
}

/// The record of a merge names both sides in their roles, can be undone, and counts
/// an update, and nothing else, as a conflict. Where no canonical memory is known it
/// is the winner.
pub proof fn law_merge_record(
    d: DedupDecision,
    winner: Seq<char>,
    canonical: Option<Seq<char>>,
    loser: Seq<char>,
    relation: DedupRelation,
)
    requires
        is_merge_record(d, winner, canonical, loser, relation),
    ensures
        d.winner_id matches Some(id) && id@ == winner,
        d.loser_id matches Some(id) && id@ == loser,
        d.canonical_id matches Some(id) && (canonical is None ==> id@ == winner) && (
        canonical matches Some(c) ==> id@ == c),
        d.relation == relation,
        d.reversible,
        d.conflict_detected <==> d.relation is Update,
{
}

/// A merge goes wrong only where the winner is gone, and then changes nothing;
/// otherwise the winner keeps its id and its content, and the loser is kept, with
/// the winner's id as that of the memory that took its place.
pub proof fn law_merge_outcome(
    r: Result<Memory, OpsError>,
    after: Memory,
    winner: Option<&Memory>,
    winner_id: Seq<char>,
    loser: Memory,
    notes: MergeNotes,
    now: Timestamp,
    max_chars: int,
)
    requires
        is_merge_outcome(r, after, winner, winner_id, loser, notes, now, max_chars),
    ensures
        r is Err <==> winner is None,
        r is Err ==> after == loser,
        r matches Err(e) ==> e.kind is NotFound,
        winner matches Some(w) ==> (r matches Ok(m) && m.id@ == w.id@ && w.content@.is_prefix_of(
            m.content@,
        )),
        r is Ok ==> after.id == loser.id && after.content == loser.content && (
        after.superseded_by matches Some(id) && id@ == winner_id),
{
}

/// A sweep loads between one row and the most it may, and as many as configured
/// where that lies between the two.
pub proof fn law_rows_a_sweep_loads(limits: DedupLimits)
    ensures
        1 <= pending_limit(limits) <= 50,
        pending_limit(limits) > limits.max_jobs_per_run ==> limits.max_jobs_per_run == 0,
        pending_limit(limits) < limits.max_jobs_per_run ==> pending_limit(limits) == 50,
{
}

/// The bucket of unclustered memories is narrowed from four batches on; each memory
/// is then compared with a batch of neighbours, and at least with four.
pub proof fn law_when_neighbours_narrow_the_scan(limits: DedupLimits)
    ensures
        limits.batch_size >= 1 ==> ann_threshold(limits) == limits.batch_size + limits.batch_size
            + limits.batch_size + limits.batch_size,
        limits.batch_size == 0 ==> ann_threshold(limits) == 4,
        neighbor_limit(limits) <= ann_threshold(limits),
        neighbor_limit(limits) >= 4 && neighbor_limit(limits) >= limits.batch_size,
        neighbor_limit(limits) == 4 || neighbor_limit(limits) == limits.batch_size,
{
}

/// Of a strong match, what bears a marker is the side that goes: where the candidate
/// goes, the marker bears its day, and where the row goes, today's.
pub proof fn law_marker_bears_the_day_of_what_goes(info: CandidateInfo, now: Timestamp)
    ensures
        info.access_count >= 1 ==> discarded_at(info, now) == now,
        older_than(info.created_at, now, 3600) ==> discarded_at(info, now) == now,
        info.access_count == 0 && !older_than(info.created_at, now, 3600) ==> discarded_at(info, now)
            == info.created_at,
{
}

/// A memory is scanned exactly where nothing superseded it.
pub proof fn law_live_memories(memories: Seq<Memory>)
    ensures
        forall|m: Memory| #[trigger]
            live_memories(memories).contains(m) <==> memories.contains(m) && m.superseded_by is None,
{
    let p = |m: Memory| m.superseded_by is None;
    assert forall|m: Memory| #[trigger] live_memories(memories).contains(m) implies memories.contains(
        m,
    ) && m.superseded_by is None by {
        memories.lemma_filter_contains_rev(p, m);
        memories.lemma_filter_pred(p, memories.filter(p).index_of(m));
    }
    assert forall|m: Memory| memories.contains(m) && m.superseded_by is None implies #[trigger] live_memories(
        memories,
    ).contains(m) by {
        let k = choose|k: int| 0 <= k < memories.len() && memories[k] == m;
        assert(p(memories[k]));
        lemma_live_is_kept(memories, k);
    }
}

proof fn lemma_live_is_kept(memories: Seq<Memory>, k: int)
    requires
        0 <= k < memories.len(),
        memories[k].superseded_by is None,
    ensures
        live_memories(memories).contains(memories[k]),
    decreases memories.len(),
{
    reveal(Seq::filter);
    let rest = live_memories(memories.drop_last());
    if k < memories.len() - 1 {
        lemma_live_is_kept(memories.drop_last(), k);
        assert(memories.drop_last()[k] == memories[k]);
        let q = choose|q: int| 0 <= q < rest.len() && rest[q] == memories[k];
        assert(live_memories(memories)[q] == memories[k]);
    } else {
        assert(live_memories(memories).last() == memories[k]);
    }
}

/// A fresh scan has compared nothing and done nothing: it counts on from the groups
/// before, may ask for at least one verdict, and sees the memories by the length of
/// their content.
pub proof fn law_fresh_scan(
    memories: Seq<Memory>,
    ann: Seq<Seq<int>>,
    dry_run: bool,
    limits: DedupLimits,
    tally: DedupTally,
    k: int,
)
    requires
        0 <= k < memories.len(),
    ensures
        ({
            let s = fresh_scan(memories, ann, dry_run, limits, tally);
            &&& s.at == 0
            &&& s.processed == Set::<int>::empty()
            &&& s.found == tally.found && s.merged == tally.merged && s.llm_calls == tally.llm_calls
            &&& s.dry_run == dry_run
            &&& s.llm_budget >= 1 && s.llm_budget >= limits.llm_budget
            &&& s.llm_budget > limits.llm_budget ==> limits.llm_budget == 0 && s.llm_budget == 1
            &&& s.sizes.len() == memories.len() && s.sizes[k] == byte_len(memories[k].content@)
            &&& s.phase is Ready
            &&& s.pairs == candidate_pairs(clusters_of(memories), ann)
        }),
{
}

/// A scan waits for the score of its pair, then for a verdict or the outcome of a
/// merge, and once it is finished for nothing.
pub proof fn law_what_a_scan_waits_for(phase: ScanPhase, event: ScanEvent)
    ensures
        phase is Ready ==> (expects(phase, event) <==> event is Start),
        phase is Comparing ==> (expects(phase, event) <==> event is Score),
        phase is Judging ==> (expects(phase, event) <==> event is Verdict),
        phase is Merging ==> (expects(phase, event) <==> event is Merged || event is MergeFailed
            || event is SavepointFailed),
        phase is Finished ==> !expects(phase, event),
{
}

/// A row waits for the outcome of what it asked for, and once it is done for nothing.
pub proof fn law_what_a_row_waits_for(phase: RowPhase, event: RowEvent)
    ensures
        phase is Ready ==> (row_expects(phase, event) <==> event is Start),
        phase is Merging ==> (row_expects(phase, event) <==> event is Merged || event is MergeFailed),
        phase is Judging ==> (row_expects(phase, event) <==> event is Verdict),
        phase is Superseding ==> (row_expects(phase, event) <==> event is Superseded || event
            is SupersedeFailed),
        phase is Done ==> !row_expects(phase, event),
{
}

/// Exactly four batches are still compared whole; one memory more is not.
pub proof fn law_when_a_bucket_is_narrowed(memories: nat, limits: DedupLimits)
    requires
        limits.batch_size >= 1,
    ensures
        memories <= 4 * limits.batch_size ==> !is_large_bucket(memories, limits),
        memories >= 4 * limits.batch_size + 1 ==> is_large_bucket(memories, limits),
{
}

/// The neighbours of a memory are listed once each.
pub proof fn law_neighbours_are_listed_once(v: Seq<usize>, i: int, j: int)
    requires
        ascending(v),
        0 <= i < v.len(),
        0 <= j < v.len(),
        i != j,
    ensures
        v[i] != v[j],
        i < j <==> v[i] < v[j],
{
}

} // verus!
