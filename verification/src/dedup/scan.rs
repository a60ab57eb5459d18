//! The lexical duplicate scan over one group of memories.
//!
//! Memories are compared within their cluster. The scan itself is a state
//! machine: it says which pair to compare, which pair to put before a judge
//! and which to merge, and is told what came of it.

use crate::dedup::vector::{DedupLimits, at_least_one, vec_dedup_llm_budget};
use crate::text::byte_len;
use crate::types::{DedupRelation, Memory};
use vstd::prelude::*;

verus! {

/// The view of a list of positions.
pub open spec fn positions(v: Seq<usize>) -> Seq<int> {
    v.map_values(|i: usize| i as int)
}

/// The view of a list of pairs.
pub open spec fn pair_views(v: Seq<(usize, usize)>) -> Seq<(int, int)> {
    v.map_values(|p: (usize, usize)| (p.0 as int, p.1 as int))
}

/// Whether position `i` is the first of its cluster.
pub open spec fn opens_bucket(clusters: Seq<Option<u32>>, i: int) -> bool {
    forall|k: int| 0 <= k < i ==> #[trigger] clusters[k] != clusters[i]
}

/// The pairs of `i` with the members of its cluster that stand after it and
/// before `end`, in order.
pub open spec fn later_members(clusters: Seq<Option<u32>>, i: int, end: int) -> Seq<(int, int)>
    decreases end - i,
{
    if end <= i + 1 {
        Seq::empty()
    } else {
        let rest = later_members(clusters, i, end - 1);
        if clusters[end - 1] == clusters[i] {
            rest.push((i, end - 1))
        } else {
            rest
        }
    }
}

/// The pairs of `i` with those of its neighbours that stand after it.
pub open spec fn later_neighbours(neighbours: Seq<int>, i: int) -> Seq<(int, int)>
    decreases neighbours.len(),
{
    if neighbours.len() == 0 {
        Seq::empty()
    } else {
        let rest = later_neighbours(neighbours.drop_last(), i);
        if neighbours.last() > i {
            rest.push((i, neighbours.last()))
        } else {
            rest
        }
    }
}

/// The pairs that `i` opens: with its vector neighbours where it has no
/// cluster and has neighbours, else with the later members of its cluster.
pub open spec fn row(clusters: Seq<Option<u32>>, ann: Seq<Seq<int>>, i: int) -> Seq<(int, int)> {
    if clusters[i] is None && i < ann.len() && ann[i].len() > 0 {
        later_neighbours(ann[i], i)
    } else {
        later_members(clusters, i, clusters.len() as int)
    }
}

/// The rows of the members of the cluster of `first` up to position `end`.
pub open spec fn bucket_rows(
    clusters: Seq<Option<u32>>,
    ann: Seq<Seq<int>>,
    first: int,
    end: int,
) -> Seq<(int, int)>
    decreases end - first,
{
    if end <= first {
        Seq::empty()
    } else {
        let rest = bucket_rows(clusters, ann, first, end - 1);
        if clusters[end - 1] == clusters[first] {
            rest + row(clusters, ann, end - 1)
        } else {
            rest
        }
    }
}

/// All candidate pairs of the clusters opened before position `end`, one
/// cluster after another.
pub open spec fn candidate_pairs_to(
    clusters: Seq<Option<u32>>,
    ann: Seq<Seq<int>>,
    end: int,
) -> Seq<(int, int)>
    decreases end,
{
    if end <= 0 {
        Seq::empty()
    } else {
        let rest = candidate_pairs_to(clusters, ann, end - 1);
        if opens_bucket(clusters, end - 1) {
            rest + bucket_rows(clusters, ann, end - 1, clusters.len() as int)
        } else {
            rest
        }
    }
}

/// The pairs of a group in the order in which they are compared.
pub open spec fn candidate_pairs(clusters: Seq<Option<u32>>, ann: Seq<Seq<int>>) -> Seq<(int, int)> {
    candidate_pairs_to(clusters, ann, clusters.len() as int)
}

/// The views of lists of neighbours.
pub open spec fn ann_view(ann: Seq<Vec<usize>>) -> Seq<Seq<int>> {
    ann.map_values(|v: Vec<usize>| positions(v@))
}

/// Whether every neighbour is a position of the group.
pub open spec fn ann_in_range(ann: Seq<Seq<int>>, n: int) -> bool {
    forall|i: int, k: int|
        0 <= i < ann.len() && 0 <= k < ann[i].len() ==> 0 <= #[trigger] ann[i][k] < n
}

fn same_cluster(a: Option<u32>, b: Option<u32>) -> (r: bool)
    ensures
        r == (a == b),
{
    match (a, b) {
        (Some(x), Some(y)) => x == y,
        (None, None) => true,
        _ => false,
    }
}

fn push_row(clusters: &Vec<Option<u32>>, ann: &Vec<Vec<usize>>, i: usize, out: &mut Vec<(usize, usize)>)
    requires
        i < clusters@.len(),
    ensures
        pair_views(final(out)@) == pair_views(old(out)@) + row(clusters@, ann_view(ann@), i as int),
{
    let ghost start = pair_views(out@);
    if clusters[i].is_none() && i < ann.len() && ann[i].len() > 0 {
        let ghost near = ann_view(ann@)[i as int];
        assert(near =~= positions(ann@[i as int]@));
        let mut k: usize = 0;
        assert(start + later_neighbours(near.take(0), i as int) =~= start);
        while k < ann[i].len()
            invariant
                i < ann@.len(),
                k <= ann@[i as int]@.len(),
                near == positions(ann@[i as int]@),
                pair_views(out@) == start + later_neighbours(near.take(k as int), i as int),
            decreases ann@[i as int]@.len() - k,
        {
            let j: usize = ann[i][k];
            let ghost before = out@;
            assert(near.take(k + 1).drop_last() =~= near.take(k as int));
            assert(near.take(k + 1).last() == j);
            if j > i {
                out.push((i, j));
                assert(pair_views(out@) =~= pair_views(before).push((i as int, j as int)));
                assert(pair_views(out@) =~= start + later_neighbours(near.take(k + 1), i as int));
            }
            k = k + 1;
        }
        assert(near.take(k as int) =~= near);
    } else {
        let n: usize = clusters.len();
        let mut j: usize = i + 1;
        assert(start + later_members(clusters@, i as int, i + 1) =~= start);
        while j < n
            invariant
                n == clusters@.len(),
                i < j <= n,
                pair_views(out@) == start + later_members(clusters@, i as int, j as int),
            decreases n - j,
        {
            let ghost before = out@;
            if same_cluster(clusters[j], clusters[i]) {
                out.push((i, j));
                assert(pair_views(out@) =~= pair_views(before).push((i as int, j as int)));
                assert(pair_views(out@) =~= start + later_members(clusters@, i as int, j + 1));
            }
            j = j + 1;
        }
    }
}

/// Whether a pair may be compared: in order, in range, and of one cluster or
/// vector neighbours.
pub open spec fn is_candidate(
    clusters: Seq<Option<u32>>,
    ann: Seq<Seq<int>>,
    p: (int, int),
) -> bool {
    &&& 0 <= p.0 < p.1 < clusters.len()
    &&& clusters[p.0] == clusters[p.1] || (clusters[p.0] is None && p.0 < ann.len()
        && ann[p.0].contains(p.1))
}

spec fn all_candidates(
    clusters: Seq<Option<u32>>,
    ann: Seq<Seq<int>>,
    pairs: Seq<(int, int)>,
) -> bool {
    forall|k: int| 0 <= k < pairs.len() ==> is_candidate(clusters, ann, #[trigger] pairs[k])
}

proof fn lemma_later_members(clusters: Seq<Option<u32>>, ann: Seq<Seq<int>>, i: int, end: int)
    requires
        0 <= i < clusters.len(),
        end <= clusters.len(),
    ensures
        all_candidates(clusters, ann, later_members(clusters, i, end)),
    decreases end - i,
{
    if end > i + 1 {
        lemma_later_members(clusters, ann, i, end - 1);
    }
}

proof fn lemma_later_neighbours(
    clusters: Seq<Option<u32>>,
    ann: Seq<Seq<int>>,
    i: int,
    count: int,
)
    requires
        0 <= i < clusters.len(),
        i < ann.len(),
        clusters[i] is None,
        0 <= count <= ann[i].len(),
        ann_in_range(ann, clusters.len() as int),
    ensures
        all_candidates(clusters, ann, later_neighbours(ann[i].take(count), i)),
    decreases count,
{
    if count > 0 {
        lemma_later_neighbours(clusters, ann, i, count - 1);
        assert(ann[i].take(count).drop_last() =~= ann[i].take(count - 1));
        assert(ann[i][count - 1] == ann[i].take(count).last());
        assert(ann[i].contains(ann[i][count - 1]));
    }
}

proof fn lemma_bucket_rows(clusters: Seq<Option<u32>>, ann: Seq<Seq<int>>, first: int, end: int)
    requires
        0 <= first <= clusters.len(),
        end <= clusters.len(),
        ann_in_range(ann, clusters.len() as int),
    ensures
        all_candidates(clusters, ann, bucket_rows(clusters, ann, first, end)),
    decreases end - first,
{
    if end > first {
        lemma_bucket_rows(clusters, ann, first, end - 1);
        let i = end - 1;
        lemma_later_members(clusters, ann, i, clusters.len() as int);
        if clusters[i] is None && i < ann.len() {
            lemma_later_neighbours(clusters, ann, i, ann[i].len() as int);
            assert(ann[i].take(ann[i].len() as int) =~= ann[i]);
        }
    }
}

proof fn lemma_candidate_pairs_to(clusters: Seq<Option<u32>>, ann: Seq<Seq<int>>, end: int)
    requires
        end <= clusters.len(),
        ann_in_range(ann, clusters.len() as int),
    ensures
        all_candidates(clusters, ann, candidate_pairs_to(clusters, ann, end)),
    decreases end,
{
    if end > 0 {
        lemma_candidate_pairs_to(clusters, ann, end - 1);
        lemma_bucket_rows(clusters, ann, end - 1, clusters.len() as int);
    }
}

/// Memories are compared in order, and only within their cluster or with
/// their vector neighbours.
pub proof fn law_candidates_share_cluster(clusters: Seq<Option<u32>>, ann: Seq<Seq<int>>, k: int)
    requires
        ann_in_range(ann, clusters.len() as int),
        0 <= k < candidate_pairs(clusters, ann).len(),
    ensures
        is_candidate(clusters, ann, candidate_pairs(clusters, ann)[k]),
{
    lemma_candidate_pairs_to(clusters, ann, clusters.len() as int);
}

proof fn lemma_later_member(clusters: Seq<Option<u32>>, i: int, j: int, end: int)
    requires
        0 <= i < j < end,
        clusters[i] == clusters[j],
    ensures
        later_members(clusters, i, end).contains((i, j)),
    decreases end - i,
{
    let rest = later_members(clusters, i, end - 1);
    let all = later_members(clusters, i, end);
    if j == end - 1 {
        assert(all[all.len() - 1] == (i, j));
    } else {
        lemma_later_member(clusters, i, j, end - 1);
        let k = choose|k: int| 0 <= k < rest.len() && rest[k] == (i, j);
        assert(all[k] == (i, j));
    }
}

pub(crate) proof fn lemma_row_in_bucket(
    clusters: Seq<Option<u32>>,
    ann: Seq<Seq<int>>,
    first: int,
    i: int,
    end: int,
    p: (int, int),
)
    requires
        0 <= first <= i < end <= clusters.len(),
        clusters[i] == clusters[first],
        row(clusters, ann, i).contains(p),
    ensures
        bucket_rows(clusters, ann, first, end).contains(p),
    decreases end - first,
{
    let rest = bucket_rows(clusters, ann, first, end - 1);
    let all = bucket_rows(clusters, ann, first, end);
    if i == end - 1 {
        let k = choose|k: int| 0 <= k < row(clusters, ann, i).len() && row(clusters, ann, i)[k] == p;
        assert(all[rest.len() + k] == p);
    } else {
        lemma_row_in_bucket(clusters, ann, first, i, end - 1, p);
        let k = choose|k: int| 0 <= k < rest.len() && rest[k] == p;
        assert(all[k] == p);
    }
}

pub(crate) proof fn lemma_bucket_in_pairs(
    clusters: Seq<Option<u32>>,
    ann: Seq<Seq<int>>,
    first: int,
    end: int,
    p: (int, int),
)
    requires
        0 <= first < end <= clusters.len(),
        opens_bucket(clusters, first),
        bucket_rows(clusters, ann, first, clusters.len() as int).contains(p),
    ensures
        candidate_pairs_to(clusters, ann, end).contains(p),
    decreases end,
{
    let rest = candidate_pairs_to(clusters, ann, end - 1);
    let all = candidate_pairs_to(clusters, ann, end);
    if first == end - 1 {
        let b = bucket_rows(clusters, ann, first, clusters.len() as int);
        let k = choose|k: int| 0 <= k < b.len() && b[k] == p;
        assert(all[rest.len() + k] == p);
    } else {
        lemma_bucket_in_pairs(clusters, ann, first, end - 1, p);
        let k = choose|k: int| 0 <= k < rest.len() && rest[k] == p;
        assert(all[k] == p);
    }
}

pub(crate) proof fn lemma_bucket_is_opened(clusters: Seq<Option<u32>>, i: int) -> (first: int)
    requires
        0 <= i < clusters.len(),
    ensures
        0 <= first <= i,
        clusters[first] == clusters[i],
        opens_bucket(clusters, first),
    decreases i,
{
    if opens_bucket(clusters, i) {
        i
    } else {
        let k = choose|k: int| 0 <= k < i && #[trigger] clusters[k] == clusters[i];
        lemma_bucket_is_opened(clusters, k)
    }
}

/// Law: no duplicate within a cluster is overlooked. Every two memories of one
/// cluster are compared, and so are every two without one, unless vector
/// neighbours narrow the first of them down.
pub proof fn law_cluster_pairs_are_compared(
    clusters: Seq<Option<u32>>,
    ann: Seq<Seq<int>>,
    i: int,
    j: int,
)
    requires
        0 <= i < j < clusters.len(),
        clusters[i] == clusters[j],
        clusters[i] is Some || i >= ann.len() || ann[i].len() == 0,
    ensures
        candidate_pairs(clusters, ann).contains((i, j)),
{
    let n = clusters.len() as int;
    lemma_later_member(clusters, i, j, n);
    let first = lemma_bucket_is_opened(clusters, i);
    lemma_row_in_bucket(clusters, ann, first, i, n, (i, j));
    lemma_bucket_in_pairs(clusters, ann, first, n, (i, j));
}

/// The pairs of a group in the order in which they are compared. Comparing
/// within clusters keeps the work far below all pairs; memories without a
/// cluster form one of their own, in which vector neighbours, where known,
/// narrow the candidates further.
pub fn build_candidate_pairs(clusters: &Vec<Option<u32>>, ann: &Vec<Vec<usize>>) -> (r: Vec<
    (usize, usize),
>)
    requires
        ann_in_range(ann_view(ann@), clusters@.len() as int),
    ensures
        pair_views(r@) == candidate_pairs(clusters@, ann_view(ann@)),
        forall|k: int|
            0 <= k < r@.len() ==> (#[trigger] r@[k]).0 < r@[k].1 && r@[k].1 < clusters@.len(),
{
    let mut out: Vec<(usize, usize)> = Vec::new();
    let n: usize = clusters.len();
    let mut i: usize = 0;
    let ghost near = ann_view(ann@);
    assert(pair_views(out@) =~= candidate_pairs_to(clusters@, near, 0));
    while i < n
        invariant
            n == clusters@.len(),
            i <= n,
            near == ann_view(ann@),
            pair_views(out@) == candidate_pairs_to(clusters@, near, i as int),
        decreases n - i,
    {
        let mut opens: bool = true;
        let mut k: usize = 0;
        while k < i
            invariant
                i < n == clusters@.len(),
                k <= i,
                opens == (forall|q: int| 0 <= q < k ==> #[trigger] clusters@[q] != clusters@[i as int]),
            decreases i - k,
        {
            if same_cluster(clusters[k], clusters[i]) {
                opens = false;
            }
            k = k + 1;
        }
        if opens {
            let ghost start = pair_views(out@);
            let mut m: usize = i;
            assert(start + bucket_rows(clusters@, near, i as int, i as int) =~= start);
            while m < n
                invariant
                    i <= m <= n,
                    i < n == clusters@.len(),
                    near == ann_view(ann@),
                    pair_views(out@) == start + bucket_rows(clusters@, near, i as int, m as int),
                decreases n - m,
            {
                if same_cluster(clusters[m], clusters[i]) {
                    push_row(clusters, ann, m, &mut out);
                    assert(pair_views(out@) =~= start + bucket_rows(
                        clusters@,
                        near,
                        i as int,
                        m + 1,
                    ));
                }
                m = m + 1;
            }
        }
        i = i + 1;
    }
    proof {
        lemma_candidate_pairs_to(clusters@, near, n as int);
        assert forall|k: int| 0 <= k < out@.len() implies (#[trigger] out@[k]).0 < out@[k].1
            && out@[k].1 < clusters@.len() by {
            assert(pair_views(out@)[k] == (out@[k].0 as int, out@[k].1 as int));
        }
    }
    out
}

/// What the scan waits for.
#[derive(Clone, Copy, Debug, PartialEq, Eq, Structural)]
pub enum ScanPhase {
    /// Not started.
    Ready,
    /// The similarity of the current pair.
    Comparing,
    /// The verdict on the current pair.
    Judging,
    /// The outcome of merging the current pair.
    Merging,
    /// Nothing: every pair is done.
    Finished,
}

/// What the scan is told.
#[derive(Clone, Copy, Debug, PartialEq, Eq, Structural)]
pub enum ScanEvent {
    Start,
    /// The similarity reaches the threshold, or the gray zone under it.
    Score { duplicate: bool, gray_zone: bool },
    /// What the judge makes of the pair.
    Verdict(DedupRelation),
    /// The merge was written.
    Merged,
    /// The merge was rolled back.
    MergeFailed,
    /// No savepoint could be opened for the merge.
    SavepointFailed,
}

/// What the scan asks for.
#[derive(Clone, Copy, Debug, PartialEq, Eq, Structural)]
pub enum ScanAction {
    /// Compare the contents at two positions.
    Compare { first: usize, second: usize },
    /// Ask a judge about the contents at two positions.
    Judge { first: usize, second: usize },
    /// Merge the memory at `loser` into the one at `winner`.
    Merge { winner: usize, loser: usize, relation: DedupRelation, number: u32 },
    /// The group is done.
    Finish,
}

/// Counts kept over all groups of a run.
#[derive(Clone, Copy, Debug, PartialEq, Eq, Structural)]
pub struct DedupTally {
    pub found: u32,
    pub merged: u32,
    pub llm_calls: usize,
}

/// A scan over one group.
#[derive(Clone, Debug)]
pub struct DedupScan {
    sizes: Vec<usize>,
    pairs: Vec<(usize, usize)>,
    at: usize,
    processed: Vec<bool>,
    dry_run: bool,
    llm_budget: usize,
    tally: DedupTally,
    phase: ScanPhase,
    relation: DedupRelation,
}

/// A scan as a mathematical value.
pub struct ScanState {
    /// Length of each content in bytes.
    pub sizes: Seq<int>,
    /// The candidate pairs in order.
    pub pairs: Seq<(int, int)>,
    /// Index of the current pair.
    pub at: int,
    /// Positions already merged away.
    pub processed: Set<int>,
    pub dry_run: bool,
    pub llm_budget: int,
    pub found: int,
    pub merged: int,
    pub llm_calls: int,
    pub phase: ScanPhase,
    /// What the current pair was found to be, while it is merged.
    pub relation: DedupRelation,
}

/// Index of the first pair from `from` on whose members are both unprocessed;
/// the number of pairs where there is none.
pub open spec fn next_live(pairs: Seq<(int, int)>, processed: Set<int>, from: int) -> int
    decreases pairs.len() - from,
{
    if from >= pairs.len() || from < 0 {
        pairs.len() as int
    } else if !processed.contains(pairs[from].0) && !processed.contains(pairs[from].1) {
        from
    } else {
        next_live(pairs, processed, from + 1)
    }
}

/// The winner of a pair is the longer content, the second on a tie.
pub open spec fn winner_of(sizes: Seq<int>, p: (int, int)) -> int {
    if sizes[p.1] >= sizes[p.0] {
        p.1
    } else {
        p.0
    }
}

/// The other member of the pair.
pub open spec fn loser_of(sizes: Seq<int>, p: (int, int)) -> int {
    if sizes[p.1] >= sizes[p.0] {
        p.0
    } else {
        p.1
    }
}

/// The scan at the first live pair from `from` on, or finished.
pub open spec fn moved_to(s: ScanState, from: int) -> ScanState {
    let at = next_live(s.pairs, s.processed, from);
    ScanState {
        at,
        phase: if at < s.pairs.len() {
            ScanPhase::Comparing
        } else {
            ScanPhase::Finished
        },
        ..s
    }
}

/// The scan with the loser of the current pair merged away.
pub open spec fn loser_done(s: ScanState) -> ScanState {
    ScanState { processed: s.processed.insert(loser_of(s.sizes, s.pairs[s.at])), ..s }
}

/// The scan once the current pair is known to be the same memory twice.
pub open spec fn duplicate_found(s: ScanState, relation: DedupRelation) -> ScanState {
    let counted = ScanState { found: s.found + 1, relation, ..s };
    if s.dry_run {
        moved_to(loser_done(counted), s.at + 1)
    } else {
        ScanState { phase: ScanPhase::Merging, ..counted }
    }
}

/// Whether a scan in this phase can be told this.
pub open spec fn expects(phase: ScanPhase, event: ScanEvent) -> bool {
    match event {
        ScanEvent::Start => phase is Ready,
        ScanEvent::Score { .. } => phase is Comparing,
        ScanEvent::Verdict(_) => phase is Judging,
        ScanEvent::Merged => phase is Merging,
        ScanEvent::MergeFailed => phase is Merging,
        ScanEvent::SavepointFailed => phase is Merging,
    }
}

/// One step of the scan.
pub open spec fn scan_step(s: ScanState, event: ScanEvent) -> ScanState {
    match event {
        ScanEvent::Start => moved_to(s, 0),
        ScanEvent::Score { duplicate, gray_zone } => if duplicate {
            duplicate_found(s, DedupRelation::Duplicate)
        } else if !s.dry_run && gray_zone && s.llm_calls < s.llm_budget {
            ScanState { llm_calls: s.llm_calls + 1, phase: ScanPhase::Judging, ..s }
        } else {
            moved_to(s, s.at + 1)
        },
        ScanEvent::Verdict(relation) => if relation is Duplicate || relation is Update {
            duplicate_found(s, relation)
        } else {
            moved_to(s, s.at + 1)
        },
        ScanEvent::Merged => moved_to(loser_done(ScanState { merged: s.merged + 1, ..s }), s.at + 1),
        ScanEvent::MergeFailed => moved_to(loser_done(s), s.at + 1),
        ScanEvent::SavepointFailed => moved_to(s, s.at + 1),
    }
}

/// What a scan in this state asks for.
pub open spec fn scan_action(s: ScanState) -> ScanAction {
    let p = s.pairs[s.at];
    match s.phase {
        ScanPhase::Ready => ScanAction::Finish,
        ScanPhase::Comparing => ScanAction::Compare { first: p.0 as usize, second: p.1 as usize },
        ScanPhase::Judging => ScanAction::Judge { first: p.0 as usize, second: p.1 as usize },
        ScanPhase::Merging => ScanAction::Merge {
            winner: winner_of(s.sizes, p) as usize,
            loser: loser_of(s.sizes, p) as usize,
            relation: s.relation,
            number: s.found as u32,
        },
        ScanPhase::Finished => ScanAction::Finish,
    }
}

/// What every reachable scan satisfies.
pub open spec fn scan_invariant(s: ScanState) -> bool {
    &&& s.sizes.len() <= usize::MAX
    &&& forall|k: int|
        0 <= k < s.pairs.len() ==> 0 <= (#[trigger] s.pairs[k]).0 < s.sizes.len() && 0
            <= s.pairs[k].1 < s.sizes.len()
    &&& 0 <= s.at <= s.pairs.len()
    &&& s.phase is Comparing || s.phase is Judging || s.phase is Merging ==> {
        &&& s.at < s.pairs.len()
        &&& !s.processed.contains(s.pairs[s.at].0)
        &&& !s.processed.contains(s.pairs[s.at].1)
    }
    &&& s.dry_run ==> !(s.phase is Judging) && !(s.phase is Merging)
    &&& 0 <= s.merged <= s.found
    &&& s.phase is Merging ==> s.merged < s.found
}

proof fn lemma_next_live(pairs: Seq<(int, int)>, processed: Set<int>, from: int)
    requires
        0 <= from <= pairs.len(),
    ensures
        from <= next_live(pairs, processed, from) <= pairs.len(),
        next_live(pairs, processed, from) < pairs.len() ==> !processed.contains(
            pairs[next_live(pairs, processed, from)].0,
        ) && !processed.contains(pairs[next_live(pairs, processed, from)].1),
        forall|k: int|
            from <= k < next_live(pairs, processed, from) ==> processed.contains(
                (#[trigger] pairs[k]).0,
            ) || processed.contains(pairs[k].1),
    decreases pairs.len() - from,
{
    if from < pairs.len() && (processed.contains(pairs[from].0) || processed.contains(
        pairs[from].1,
    )) {
        lemma_next_live(pairs, processed, from + 1);
    }
}

/// Every step keeps the invariant, and forgets no processed memory.
pub proof fn law_scan_step_keeps_invariant(s: ScanState, event: ScanEvent)
    requires
        scan_invariant(s),
        expects(s.phase, event),
    ensures
        scan_invariant(scan_step(s, event)),
        s.processed.subset_of(scan_step(s, event).processed),
        scan_step(s, event).pairs == s.pairs,
        scan_step(s, event).sizes == s.sizes,
        scan_step(s, event).dry_run == s.dry_run,
{
    if s.pairs.len() > 0 && s.at < s.pairs.len() {
        lemma_next_live(s.pairs, s.processed, s.at + 1);
        lemma_next_live(s.pairs, loser_done(s).processed, s.at + 1);
    }
    lemma_next_live(s.pairs, s.processed, 0);
}

/// A memory that was merged away is never compared, judged or merged again.
pub proof fn law_processed_never_returns(s: ScanState, event: ScanEvent, gone: int)
    requires
        scan_invariant(s),
        expects(s.phase, event),
        s.processed.contains(gone),
    ensures
        match scan_action(scan_step(s, event)) {
            ScanAction::Compare { first, second } => first != gone && second != gone,
            ScanAction::Judge { first, second } => first != gone && second != gone,
            ScanAction::Merge { winner, loser, .. } => winner != gone && loser != gone,
            ScanAction::Finish => true,
        },
{
    law_scan_step_keeps_invariant(s, event);
    let t = scan_step(s, event);
    if t.at < t.pairs.len() {
        let p = t.pairs[t.at];
        assert(t.processed.contains(gone));
        assert(p.0 as usize == p.0 && p.1 as usize == p.1);
    }
}

/// A dry run asks for comparisons only, and merges nothing.
pub proof fn law_dry_run_changes_nothing(s: ScanState, event: ScanEvent)
    requires
        scan_invariant(s),
        expects(s.phase, event),
        s.dry_run,
    ensures
        scan_action(scan_step(s, event)) is Compare || scan_action(scan_step(s, event)) is Finish,
        scan_step(s, event).merged == s.merged,
        scan_step(s, event).llm_calls == s.llm_calls,
{
    law_scan_step_keeps_invariant(s, event);
}

/// No step asks a judge beyond the budget.
pub proof fn law_judge_calls_within_budget(s: ScanState, event: ScanEvent)
    requires
        expects(s.phase, event),
        s.llm_calls <= s.llm_budget,
    ensures
        s.llm_calls <= scan_step(s, event).llm_calls <= s.llm_budget,
        scan_step(s, event).phase is Judging ==> scan_step(s, event).llm_calls == s.llm_calls + 1,
{
}

/// Each step leaves fewer pairs, or the same pair in a later phase: a scan ends.
pub open spec fn scan_rank(s: ScanState) -> (int, int) {
    (
        s.pairs.len() - s.at,
        match s.phase {
            ScanPhase::Ready => 4,
            ScanPhase::Comparing => 3,
            ScanPhase::Judging => 2,
            ScanPhase::Merging => 1,
            ScanPhase::Finished => 0,
        },
    )
}

/// Every step of a started scan brings it nearer to its end.
pub proof fn law_scan_terminates(s: ScanState, event: ScanEvent)
    requires
        scan_invariant(s),
        expects(s.phase, event),
        !(s.phase is Ready),
    ensures
        scan_rank(scan_step(s, event)).0 < scan_rank(s).0 || (scan_rank(scan_step(s, event)).0
            == scan_rank(s).0 && scan_rank(scan_step(s, event)).1 < scan_rank(s).1),
{
    lemma_next_live(s.pairs, s.processed, s.at + 1);
    lemma_next_live(s.pairs, loser_done(s).processed, s.at + 1);
}

/// Positions that are marked.
pub open spec fn marked(v: Seq<bool>) -> Set<int> {
    Set::new(|i: int| 0 <= i < v.len() && v[i])
}

impl DedupScan {
    /// The scan as a mathematical value.
    pub closed spec fn state(&self) -> ScanState {
        ScanState {
            sizes: positions(self.sizes@),
            pairs: pair_views(self.pairs@),
            at: self.at as int,
            processed: marked(self.processed@),
            dry_run: self.dry_run,
            llm_budget: self.llm_budget as int,
            found: self.tally.found as int,
            merged: self.tally.merged as int,
            llm_calls: self.tally.llm_calls as int,
            phase: self.phase,
            relation: self.relation,
        }
    }

    /// Whether the parts of the scan fit together.
    pub closed spec fn wf(&self) -> bool {
        &&& scan_invariant(self.state())
        &&& self.processed@.len() == self.sizes@.len()
    }

    /// A scan over a group whose contents have these lengths, with these
    /// candidate pairs. The tally is that of the groups before it.
    pub fn new(
        sizes: Vec<usize>,
        pairs: Vec<(usize, usize)>,
        dry_run: bool,
        llm_budget: usize,
        tally: DedupTally,
    ) -> (r: DedupScan)
        requires
            forall|k: int|
                0 <= k < pairs@.len() ==> (#[trigger] pairs@[k]).0 < sizes@.len() && pairs@[k].1
                    < sizes@.len(),
            tally.merged <= tally.found,
        ensures
            r.wf(),
            r.state() == (ScanState {
                sizes: positions(sizes@),
                pairs: pair_views(pairs@),
                at: 0,
                processed: Set::empty(),
                dry_run,
                llm_budget: llm_budget as int,
                found: tally.found as int,
                merged: tally.merged as int,
                llm_calls: tally.llm_calls as int,
                phase: ScanPhase::Ready,
                relation: DedupRelation::Distinct,
            }),
    {
        let mut processed: Vec<bool> = Vec::new();
        let n: usize = sizes.len();
        while processed.len() < n
            invariant
                n == sizes@.len(),
                processed@.len() <= n,
                forall|i: int| 0 <= i < processed@.len() ==> !#[trigger] processed@[i],
            decreases n - processed@.len(),
        {
            processed.push(false);
        }
        assert(marked(processed@) =~= Set::empty());
        let r: DedupScan = DedupScan {
            sizes,
            pairs,
            at: 0,
            processed,
            dry_run,
            llm_budget,
            tally,
            phase: ScanPhase::Ready,
            relation: DedupRelation::Distinct,
        };
        assert forall|k: int| 0 <= k < r.state().pairs.len() implies 0 <= (
        #[trigger] r.state().pairs[k]).0 < r.state().sizes.len() && 0 <= r.state().pairs[k].1
            < r.state().sizes.len() by {
            assert(r.state().pairs[k] == (pairs@[k].0 as int, pairs@[k].1 as int));
        }
        r
    }

    /// The counts so far, to hand to the scan of the next group.
    pub fn tally(&self) -> (r: DedupTally)
        ensures
            r.found == self.state().found,
            r.merged == self.state().merged,
            r.llm_calls == self.state().llm_calls,
    {
        self.tally
    }

    fn move_on(&mut self, from: usize)
        requires
            old(self).processed@.len() == old(self).sizes@.len(),
            from <= old(self).pairs@.len(),
            forall|k: int|
                0 <= k < old(self).pairs@.len() ==> (#[trigger] old(self).pairs@[k]).0 < old(
                    self,
                ).sizes@.len() && old(self).pairs@[k].1 < old(self).sizes@.len(),
        ensures
            final(self).state() == moved_to(old(self).state(), from as int),
            final(self).processed@.len() == final(self).sizes@.len(),
    {
        let mut k: usize = from;
        let ghost pv = pair_views(self.pairs@);
        let ghost done = marked(self.processed@);
        while k < self.pairs.len() && (self.processed[self.pairs[k].0]
            || self.processed[self.pairs[k].1])
            invariant
                from <= k <= self.pairs@.len(),
                *self == *old(self),
                pv == pair_views(self.pairs@),
                done == marked(self.processed@),
                self.processed@.len() == self.sizes@.len(),
                forall|q: int|
                    0 <= q < self.pairs@.len() ==> (#[trigger] self.pairs@[q]).0
                        < self.sizes@.len() && self.pairs@[q].1 < self.sizes@.len(),
                next_live(pv, done, from as int) == next_live(pv, done, k as int),
            decreases self.pairs@.len() - k,
        {
            assert(pv[k as int] == (self.pairs@[k as int].0 as int, self.pairs@[k as int].1 as int));
            k = k + 1;
        }
        assert(pv.len() == self.pairs@.len());
        if k < self.pairs.len() {
            assert(pv[k as int] == (self.pairs@[k as int].0 as int, self.pairs@[k as int].1 as int));
        }
        self.at = k;
        self.phase = if k < self.pairs.len() {
            ScanPhase::Comparing
        } else {
            ScanPhase::Finished
        };
    }

    fn mark_loser(&mut self)
        requires
            old(self).processed@.len() == old(self).sizes@.len(),
            old(self).at < old(self).pairs@.len(),
            old(self).pairs@[old(self).at as int].0 < old(self).sizes@.len(),
            old(self).pairs@[old(self).at as int].1 < old(self).sizes@.len(),
        ensures
            final(self).state() == loser_done(old(self).state()),
            final(self).processed@.len() == final(self).sizes@.len(),
            final(self).pairs == old(self).pairs,
            final(self).sizes == old(self).sizes,
            final(self).at == old(self).at,
    {
        let p: (usize, usize) = self.pairs[self.at];
        assert(pair_views(self.pairs@)[self.at as int] == (p.0 as int, p.1 as int));
        let loser: usize = if self.sizes[p.1] >= self.sizes[p.0] {
            p.0
        } else {
            p.1
        };
        self.processed.set(loser, true);
        assert(marked(self.processed@) =~= marked(old(self).processed@).insert(loser as int));
    }

    fn settle_duplicate(&mut self, relation: DedupRelation)
        requires
            old(self).wf(),
            old(self).at < old(self).pairs@.len(),
            old(self).tally.found < u32::MAX,
        ensures
            final(self).state() == duplicate_found(old(self).state(), relation),
            final(self).processed@.len() == final(self).sizes@.len(),
    {
        let ghost pv = pair_views(self.pairs@);
        assert forall|k: int| 0 <= k < self.pairs@.len() implies (#[trigger] self.pairs@[k]).0
            < self.sizes@.len() && self.pairs@[k].1 < self.sizes@.len() by {
            assert(pv[k] == (self.pairs@[k].0 as int, self.pairs@[k].1 as int));
        }
        self.tally.found = self.tally.found + 1;
        self.relation = relation;
        if self.dry_run {
            self.mark_loser();
            assert(self.at < self.pairs.len());
            let next: usize = self.at + 1;
            self.move_on(next);
        } else {
            self.phase = ScanPhase::Merging;
        }
    }

    /// What the scan asks for now.
    pub fn action(&self) -> (r: ScanAction)
        requires
            self.wf(),
        ensures
            r == scan_action(self.state()),
    {
        match self.phase {
            ScanPhase::Ready => ScanAction::Finish,
            ScanPhase::Finished => ScanAction::Finish,
            ScanPhase::Comparing => {
                let p: (usize, usize) = self.pairs[self.at];
                assert(self.state().pairs[self.at as int] == (p.0 as int, p.1 as int));
                ScanAction::Compare { first: p.0, second: p.1 }
            },
            ScanPhase::Judging => {
                let p: (usize, usize) = self.pairs[self.at];
                assert(self.state().pairs[self.at as int] == (p.0 as int, p.1 as int));
                ScanAction::Judge { first: p.0, second: p.1 }
            },
            ScanPhase::Merging => {
                let p: (usize, usize) = self.pairs[self.at];
                assert(self.state().pairs[self.at as int] == (p.0 as int, p.1 as int));
                assert(self.state().sizes.len() == self.sizes@.len());
                if self.sizes[p.1] >= self.sizes[p.0] {
                    ScanAction::Merge {
                        winner: p.1,
                        loser: p.0,
                        relation: self.relation,
                        number: self.tally.found,
                    }
                } else {
                    ScanAction::Merge {
                        winner: p.0,
                        loser: p.1,
                        relation: self.relation,
                        number: self.tally.found,
                    }
                }
            },
        }
    }

    /// Takes in what came of the last action.
    pub fn step(&mut self, event: ScanEvent)
        requires
            old(self).wf(),
            expects(old(self).state().phase, event),
            old(self).state().found < u32::MAX,
        ensures
            final(self).wf(),
            final(self).state() == scan_step(old(self).state(), event),
    {
        proof {
            law_scan_step_keeps_invariant(self.state(), event);
            let pv = pair_views(self.pairs@);
            assert forall|k: int| 0 <= k < self.pairs@.len() implies (#[trigger] self.pairs@[k]).0
                < self.sizes@.len() && self.pairs@[k].1 < self.sizes@.len() by {
                assert(pv[k] == (self.pairs@[k].0 as int, self.pairs@[k].1 as int));
            }
            assert(pv.len() == self.pairs@.len());
        }
        match event {
            ScanEvent::Start => {
                self.move_on(0);
            },
            ScanEvent::Score { duplicate, gray_zone } => {
                if duplicate {
                    self.settle_duplicate(DedupRelation::Duplicate);
                } else if !self.dry_run && gray_zone && self.tally.llm_calls < self.llm_budget {
                    self.tally.llm_calls = self.tally.llm_calls + 1;
                    self.phase = ScanPhase::Judging;
                } else {
                    assert(self.at < self.pairs.len());
                    let next: usize = self.at + 1;
                    self.move_on(next);
                }
            },
            ScanEvent::Verdict(relation) => {
                match relation {
                    DedupRelation::Duplicate | DedupRelation::Update => {
                        self.settle_duplicate(relation);
                    },
                    DedupRelation::Related | DedupRelation::Distinct => {
                        assert(self.at < self.pairs.len());
                        let next: usize = self.at + 1;
                        self.move_on(next);
                    },
                }
            },
            ScanEvent::Merged => {
                self.tally.merged = self.tally.merged + 1;
                self.mark_loser();
                assert(self.at < self.pairs.len());
                let next: usize = self.at + 1;
                self.move_on(next);
            },
            ScanEvent::MergeFailed => {
                self.mark_loser();
                assert(self.at < self.pairs.len());
                let next: usize = self.at + 1;
                self.move_on(next);
            },
            ScanEvent::SavepointFailed => {
                assert(self.at < self.pairs.len());
                let next: usize = self.at + 1;
                self.move_on(next);
            },
        }
    }
}

impl DedupTally {
    /// Whether anything was merged, so that what is learnt from the memories is to
    /// be learnt anew.
    pub fn changed(&self) -> (r: bool)
        ensures
            r == (self.merged > 0),
    {
        self.merged > 0
    }
}

/// The memories that no other one has superseded, in order.
pub open spec fn live_memories(memories: Seq<Memory>) -> Seq<Memory> {
    memories.filter(|m: Memory| m.superseded_by is None)
}

/// The memories of a group that no other one has superseded, in order.
pub fn retain_live(memories: Vec<Memory>) -> (r: Vec<Memory>)
    ensures
        r@ == live_memories(memories@),
{
    let ghost all = memories@;
    let ghost live = |m: Memory| m.superseded_by is None;
    let mut left: Vec<Memory> = memories;
    let mut r: Vec<Memory> = Vec::new();
    proof {
        reveal(Seq::filter);
        assert(all.take(0) =~= Seq::<Memory>::empty());
    }
    while left.len() > 0
        invariant
            left@.len() <= all.len(),
            left@ == all.skip(all.len() - left@.len()),
            live == (|m: Memory| m.superseded_by is None),
            r@ == all.take(all.len() - left@.len()).filter(live),
        decreases left@.len(),
    {
        let ghost k = all.len() - left@.len();
        let m: Memory = left.remove(0);
        proof {
            reveal(Seq::filter);
            assert(m == all[k]);
            assert(all.take(k + 1).drop_last() =~= all.take(k));
        }
        if m.superseded_by.is_none() {
            r.push(m);
        }
    }
    assert(all.take(all.len() as int) =~= all);
    r
}

/// The clusters of memories.
pub open spec fn clusters_of(memories: Seq<Memory>) -> Seq<Option<u32>> {
    memories.map_values(|m: Memory| m.cluster_id)
}

/// The lengths of the contents in bytes.
pub open spec fn sizes_of(memories: Seq<Memory>) -> Seq<int> {
    memories.map_values(|m: Memory| byte_len(m.content@) as int)
}

/// The positions of the memories without a cluster, in order.
pub open spec fn unclustered(memories: Seq<Memory>) -> Seq<int>
    decreases memories.len(),
{
    if memories.len() == 0 {
        Seq::empty()
    } else {
        let rest = unclustered(memories.drop_last());
        if memories.last().cluster_id is None {
            rest.push(memories.len() - 1)
        } else {
            rest
        }
    }
}

/// The positions of the memories without a cluster, in order.
pub fn none_bucket(memories: &Vec<Memory>) -> (r: Vec<usize>)
    ensures
        positions(r@) == unclustered(memories@),
        forall|k: int| 0 <= k < r@.len() ==> #[trigger] r@[k] < memories@.len(),
{
    let mut r: Vec<usize> = Vec::new();
    let mut i: usize = 0;
    assert(positions(r@) =~= unclustered(memories@.take(0)));
    while i < memories.len()
        invariant
            i <= memories@.len(),
            positions(r@) == unclustered(memories@.take(i as int)),
            forall|k: int| 0 <= k < r@.len() ==> #[trigger] r@[k] < i,
        decreases memories@.len() - i,
    {
        assert(memories@.take(i + 1).drop_last() =~= memories@.take(i as int));
        if memories[i].cluster_id.is_none() {
            let ghost before = r@;
            r.push(i);
            assert(positions(r@) =~= positions(before).push(i as int));
        }
        i = i + 1;
    }
    assert(memories@.take(i as int) =~= memories@);
    r
}

/// A scan that has compared nothing yet.
pub open spec fn fresh_scan(
    memories: Seq<Memory>,
    ann: Seq<Seq<int>>,
    dry_run: bool,
    limits: DedupLimits,
    tally: DedupTally,
) -> ScanState {
    ScanState {
        sizes: sizes_of(memories),
        pairs: candidate_pairs(clusters_of(memories), ann),
        at: 0,
        processed: Set::empty(),
        dry_run,
        llm_budget: at_least_one(limits.llm_budget),
        found: tally.found as int,
        merged: tally.merged as int,
        llm_calls: tally.llm_calls as int,
        phase: ScanPhase::Ready,
        relation: DedupRelation::Distinct,
    }
}

/// The scan over one group of live memories. `ann` holds the vector neighbours of
/// each memory without a cluster, and the tally is that of the groups before.
pub fn run_dedup_scoped(
    memories: &Vec<Memory>,
    ann: &Vec<Vec<usize>>,
    dry_run: bool,
    limits: &DedupLimits,
    tally: DedupTally,
) -> (r: DedupScan)
    requires
        ann_in_range(ann_view(ann@), memories@.len() as int),
        tally.merged <= tally.found,
    ensures
        r.wf(),
        r.state() == fresh_scan(memories@, ann_view(ann@), dry_run, *limits, tally),
{
    let mut clusters: Vec<Option<u32>> = Vec::new();
    let mut sizes: Vec<usize> = Vec::new();
    let mut i: usize = 0;
    while i < memories.len()
        invariant
            i <= memories@.len(),
            clusters@.len() == i,
            sizes@.len() == i,
            forall|k: int| 0 <= k < i ==> #[trigger] clusters@[k] == memories@[k].cluster_id,
            forall|k: int| 0 <= k < i ==> #[trigger] sizes@[k] == byte_len(memories@[k].content@),
        decreases memories@.len() - i,
    {
        clusters.push(memories[i].cluster_id);
        sizes.push(memories[i].content.as_str().len());
        i = i + 1;
    }
    assert(clusters@ =~= clusters_of(memories@));
    assert(positions(sizes@) =~= sizes_of(memories@));
    let pairs: Vec<(usize, usize)> = build_candidate_pairs(&clusters, ann);
    DedupScan::new(sizes, pairs, dry_run, vec_dedup_llm_budget(limits), tally)
}

} // verus!
