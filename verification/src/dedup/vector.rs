//! The vector sweep: memories flagged for an embedding check are compared with
//! their nearest neighbours, and near-identical ones are merged.

use crate::text::{str_eq, texts};
use vstd::prelude::*;

verus! {

/// Most rows one sweep loads, whatever the configuration says.
pub const VEC_DEDUP_PENDING_LIMIT: usize = 50;

/// A flagged row: id, topic, summary and content.
pub type VecDedupItem = (String, String, String, String);

/// The limits of a sweep.
#[derive(Clone, Copy, Debug, PartialEq, Eq, Structural)]
pub struct DedupLimits {
    /// Rows embedded in one request.
    pub batch_size: usize,
    /// Jobs one run may take on.
    pub max_jobs_per_run: usize,
    /// Verdicts one run may ask for.
    pub llm_budget: usize,
}

/// At least one.
pub open spec fn at_least_one(n: usize) -> int {
    if n >= 1 {
        n as int
    } else {
        1
    }
}

/// Rows one sweep works on: two batches.
pub open spec fn run_limit(limits: DedupLimits) -> int {
    if at_least_one(limits.batch_size) * 2 <= usize::MAX {
        at_least_one(limits.batch_size) * 2
    } else {
        usize::MAX as int
    }
}

/// Rows one sweep works on: two batches.
pub fn vec_dedup_run_limit(limits: &DedupLimits) -> (r: usize)
    ensures
        r == run_limit(*limits),
{
    let b: usize = vec_dedup_embed_batch_size(limits);
    if b <= usize::MAX / 2 {
        b * 2
    } else {
        usize::MAX
    }
}

/// Rows embedded in one request, at least one.
pub fn vec_dedup_embed_batch_size(limits: &DedupLimits) -> (r: usize)
    ensures
        r == at_least_one(limits.batch_size),
{
    if limits.batch_size >= 1 {
        limits.batch_size
    } else {
        1
    }
}

/// Verdicts one run may ask for, at least one.
pub fn vec_dedup_llm_budget(limits: &DedupLimits) -> (r: usize)
    ensures
        r == at_least_one(limits.llm_budget),
{
    if limits.llm_budget >= 1 {
        limits.llm_budget
    } else {
        1
    }
}

/// Rows one sweep loads: the configured number, between 1 and the limit.
pub open spec fn pending_limit(limits: DedupLimits) -> int {
    if limits.max_jobs_per_run < 1 {
        1
    } else if limits.max_jobs_per_run > VEC_DEDUP_PENDING_LIMIT {
        VEC_DEDUP_PENDING_LIMIT as int
    } else {
        limits.max_jobs_per_run as int
    }
}

/// Rows one sweep loads: the configured number, between 1 and the limit.
pub fn vec_dedup_pending_limit(limits: &DedupLimits) -> (r: usize)
    ensures
        r == pending_limit(*limits),
{
    if limits.max_jobs_per_run < 1 {
        1
    } else if limits.max_jobs_per_run > VEC_DEDUP_PENDING_LIMIT {
        VEC_DEDUP_PENDING_LIMIT
    } else {
        limits.max_jobs_per_run
    }
}

/// The rows this sweep works on, and how many are left for a later one.
pub fn take_vec_dedup_window(pending: Vec<VecDedupItem>, limits: &DedupLimits) -> (r: (
    Vec<VecDedupItem>,
    usize,
))
    ensures
        pending@.len() <= run_limit(*limits) ==> r.0@ == pending@ && r.1 == 0,
        pending@.len() > run_limit(*limits) ==> r.0@ == pending@.take(run_limit(*limits)) && r.1
            == pending@.len() - run_limit(*limits),
{
    let limit: usize = vec_dedup_run_limit(limits);
    let mut window: Vec<VecDedupItem> = pending;
    let ghost all = window@;
    let skipped: usize = window.len().saturating_sub(limit);
    if window.len() > limit {
        window.truncate(limit);
        assert(window@ =~= all.take(limit as int));
    }
    (window, skipped)
}

/// Size above which the bucket of unclustered memories is narrowed by vector
/// neighbours: four batches.
pub open spec fn ann_threshold(limits: DedupLimits) -> int {
    at_least_one(limits.batch_size) * 4
}

/// Size above which the bucket of unclustered memories is narrowed by vector
/// neighbours.
pub fn none_bucket_ann_threshold(limits: &DedupLimits) -> (r: usize)
    requires
        ann_threshold(*limits) <= usize::MAX,
    ensures
        r == ann_threshold(*limits),
{
    vec_dedup_embed_batch_size(limits) * 4
}

/// Whether a bucket of unclustered memories is large enough to be narrowed.
pub open spec fn is_large_bucket(memories: nat, limits: DedupLimits) -> bool {
    memories > ann_threshold(limits)
}

/// Neighbours looked at for each unclustered memory: a batch, and at least four.
pub open spec fn neighbor_limit(limits: DedupLimits) -> int {
    if limits.batch_size >= 4 {
        limits.batch_size as int
    } else {
        4
    }
}

/// Neighbours looked at for each unclustered memory.
pub fn none_bucket_neighbor_limit(limits: &DedupLimits) -> (r: usize)
    ensures
        r == neighbor_limit(*limits),
{
    if limits.batch_size >= 4 {
        limits.batch_size
    } else {
        4
    }
}

/// The positions whose embedding is missing, in order.
pub open spec fn uncached(cached: Seq<bool>) -> Seq<int>
    decreases cached.len(),
{
    if cached.len() == 0 {
        Seq::empty()
    } else {
        let rest = uncached(cached.drop_last());
        if cached.last() {
            rest
        } else {
            rest.push(cached.len() - 1)
        }
    }
}

/// The lists one after another.
pub open spec fn flattened(chunks: Seq<Seq<int>>) -> Seq<int>
    decreases chunks.len(),
{
    if chunks.len() == 0 {
        Seq::empty()
    } else {
        flattened(chunks.drop_last()) + chunks.last()
    }
}

/// The views of lists of positions.
pub open spec fn chunk_views(v: Seq<Vec<usize>>) -> Seq<Seq<int>> {
    v.map_values(|c: Vec<usize>| c@.map_values(|i: usize| i as int))
}

/// Groups the positions whose embedding is missing into requests: every
/// request but the last is full, and none is empty.
pub fn embedding_chunks(cached: &Vec<bool>, limits: &DedupLimits) -> (r: Vec<Vec<usize>>)
    ensures
        flattened(chunk_views(r@)) == uncached(cached@),
        forall|k: int|
            0 <= k < r@.len() ==> 1 <= (#[trigger] r@[k])@.len() <= at_least_one(limits.batch_size),
        forall|k: int|
            0 <= k < r@.len() - 1 ==> (#[trigger] r@[k])@.len() == at_least_one(limits.batch_size),
{
    let size: usize = vec_dedup_embed_batch_size(limits);
    let mut done: Vec<Vec<usize>> = Vec::new();
    let mut cur: Vec<usize> = Vec::new();
    let mut i: usize = 0;
    assert(cached@.take(0) =~= Seq::<bool>::empty());
    assert(flattened(chunk_views(done@)) + cur@.map_values(|i: usize| i as int) =~= uncached(
        cached@.take(0),
    ));
    while i < cached.len()
        invariant
            i <= cached@.len(),
            size == at_least_one(limits.batch_size),
            cur@.len() < size,
            forall|k: int| 0 <= k < done@.len() ==> (#[trigger] done@[k])@.len() == size,
            flattened(chunk_views(done@)) + cur@.map_values(|i: usize| i as int) == uncached(
                cached@.take(i as int),
            ),
        decreases cached@.len() - i,
    {
        assert(cached@.take(i + 1).drop_last() =~= cached@.take(i as int));
        let ghost fd = flattened(chunk_views(done@));
        if !cached[i] {
            let ghost before = cur@.map_values(|i: usize| i as int);
            cur.push(i);
            assert(cur@.map_values(|i: usize| i as int) =~= before.push(i as int));
            assert(fd + cur@.map_values(|i: usize| i as int) =~= uncached(cached@.take(i + 1)));
            if cur.len() == size {
                let ghost old_done = done@;
                let ghost full = cur@.map_values(|i: usize| i as int);
                done.push(cur);
                cur = Vec::new();
                proof {
                    assert(chunk_views(done@) =~= chunk_views(old_done).push(full));
                    assert(chunk_views(done@).drop_last() =~= chunk_views(old_done));
                    assert(flattened(chunk_views(done@)) == fd + full);
                    assert(flattened(chunk_views(done@)) + cur@.map_values(|i: usize| i as int)
                        =~= uncached(cached@.take(i + 1)));
                }
            }
        }
        i = i + 1;
    }
    assert(cached@.take(i as int) =~= cached@);
    if cur.len() > 0 {
        let ghost old_done = done@;
        let ghost rest = cur@.map_values(|i: usize| i as int);
        done.push(cur);
        proof {
            assert(chunk_views(done@) =~= chunk_views(old_done).push(rest));
            assert(chunk_views(done@).drop_last() =~= chunk_views(old_done));
        }
    } else {
        assert(flattened(chunk_views(done@)) =~= uncached(cached@));
    }
    done
}

/// Whether the answer to a request is used: only where it holds one embedding
/// for each text that was sent. Any other answer is dropped, and the texts are
/// tried again by a later run.
pub fn uses_embeddings(asked: usize, answered: Option<usize>) -> (r: bool)
    ensures
        r == (answered == Some(asked)),
{
    match answered {
        Some(n) => n == asked,
        None => false,
    }
}

/// The position, among `indices`, of the memory with this id; the last one
/// where several have it.
pub open spec fn position_of(ids: Seq<Seq<char>>, indices: Seq<usize>, id: Seq<char>) -> Option<int>
    decreases indices.len(),
{
    if indices.len() == 0 {
        None
    } else if ids[indices.last() as int] == id {
        Some(indices.last() as int)
    } else {
        position_of(ids, indices.drop_last(), id)
    }
}

fn find_position(ids: &Vec<String>, indices: &Vec<usize>, id: &str) -> (r: Option<usize>)
    requires
        forall|k: int| 0 <= k < indices@.len() ==> #[trigger] indices@[k] < ids@.len(),
    ensures
        match r {
            Some(j) => position_of(texts(ids@), indices@, id@) == Some(j as int) && j < ids@.len(),
            None => position_of(texts(ids@), indices@, id@) is None,
        },
{
    let mut k: usize = indices.len();
    assert(indices@.take(k as int) =~= indices@);
    while k > 0
        invariant
            k <= indices@.len(),
            forall|q: int| 0 <= q < indices@.len() ==> #[trigger] indices@[q] < ids@.len(),
            position_of(texts(ids@), indices@, id@) == position_of(
                texts(ids@),
                indices@.take(k as int),
                id@,
            ),
        decreases k,
    {
        let i: usize = indices[k - 1];
        assert(texts(ids@)[i as int] == ids@[i as int]@);
        assert(indices@.take(k as int).last() == i);
        assert(indices@.take(k as int).drop_last() =~= indices@.take(k - 1));
        if str_eq(ids[i].as_str(), id) {
            return Some(i);
        }
        k = k - 1;
    }
    None
}

/// What a vector search returned for the memory at a position: ids, nearest
/// first.
pub type VectorHits = (usize, Vec<String>);

/// Whether the search for `a` returned the memory at `b`.
pub open spec fn hit(
    ids: Seq<Seq<char>>,
    indices: Seq<usize>,
    hits: Seq<VectorHits>,
    a: int,
    b: int,
) -> bool {
    exists|h: int, k: int|
        0 <= h < hits.len() && 0 <= k < hits[h].1@.len() && hits[h].0 == a && position_of(
            ids,
            indices,
            (#[trigger] hits[h].1@[k])@,
        ) == Some(b)
}

/// Whether two different memories are vector neighbours: the search for one of
/// them returned the other.
pub open spec fn are_neighbours(
    ids: Seq<Seq<char>>,
    indices: Seq<usize>,
    hits: Seq<VectorHits>,
    a: int,
    b: int,
) -> bool {
    a != b && (hit(ids, indices, hits, a, b) || hit(ids, indices, hits, b, a))
}

/// Being neighbours goes both ways.
pub proof fn law_neighbours_symmetric(
    ids: Seq<Seq<char>>,
    indices: Seq<usize>,
    hits: Seq<VectorHits>,
    a: int,
    b: int,
)
    ensures
        are_neighbours(ids, indices, hits, a, b) == are_neighbours(ids, indices, hits, b, a),
{
}

/// Whether the positions ascend, each once.
pub open spec fn ascending(v: Seq<usize>) -> bool {
    forall|i: int, j: int| 0 <= i < j < v.len() ==> v[i] < v[j]
}

fn insert_ascending(v: &mut Vec<usize>, x: usize)
    requires
        ascending(old(v)@),
    ensures
        ascending(final(v)@),
        forall|y: usize| #[trigger] final(v)@.contains(y) <==> y == x || old(v)@.contains(y),
{
    let mut k: usize = 0;
    while k < v.len() && v[k] < x
        invariant
            k <= v@.len(),
            *v == *old(v),
            forall|q: int| 0 <= q < k ==> #[trigger] v@[q] < x,
        decreases v@.len() - k,
    {
        k = k + 1;
    }
    if k < v.len() && v[k] == x {
        assert(v@[k as int] == x);
        return;
    }
    let ghost before = v@;
    v.insert(k, x);
    proof {
        assert(v@[k as int] == x);
        assert forall|y: usize| #[trigger] v@.contains(y) <==> y == x || before.contains(y) by {
            if before.contains(y) {
                let q = choose|q: int| 0 <= q < before.len() && before[q] == y;
                if q < k {
                    assert(v@[q] == y);
                } else {
                    assert(v@[q + 1] == y);
                }
            }
            if v@.contains(y) && y != x {
                let q = choose|q: int| 0 <= q < v@.len() && v@[q] == y;
                if q < k {
                    assert(before[q] == y);
                } else {
                    assert(before[q - 1] == y);
                }
            }
        }
    }
}

spec fn graph_of(
    r: Seq<Vec<usize>>,
    n: int,
    linked: spec_fn(int, int) -> bool,
) -> bool {
    &&& r.len() == n
    &&& forall|i: int| 0 <= i < n ==> ascending((#[trigger] r[i])@)
    &&& forall|i: int, y: usize| #![trigger r[i]@.contains(y)]
        0 <= i < n ==> (r[i]@.contains(y) <==> linked(i, y as int))
}

fn add_edge(graph: &mut Vec<Vec<usize>>, a: usize, b: usize)
    requires
        a < old(graph)@.len(),
        forall|i: int| 0 <= i < old(graph)@.len() ==> ascending((#[trigger] old(graph)@[i])@),
    ensures
        final(graph)@.len() == old(graph)@.len(),
        forall|i: int| 0 <= i < final(graph)@.len() ==> ascending((#[trigger] final(graph)@[i])@),
        forall|i: int, y: usize| #![trigger final(graph)@[i]@.contains(y)]
            0 <= i < final(graph)@.len() ==> (final(graph)@[i]@.contains(y) <==> (old(
                graph,
            )@[i]@.contains(y) || (i == a && y == b))),
{
    let mut list: Vec<usize> = graph.remove(a);
    insert_ascending(&mut list, b);
    graph.insert(a, list);
    proof {
        assert(graph@[a as int]@ == list@);
        assert forall|i: int, y: usize| #![trigger graph@[i]@.contains(y)]
            0 <= i < graph@.len() implies (graph@[i]@.contains(y) <==> (old(
            graph,
        )@[i]@.contains(y) || (i == a && y == b))) by {
            if i != a {
                assert(graph@[i] == old(graph)@[i]);
            }
        }
        assert forall|i: int| 0 <= i < graph@.len() implies ascending((#[trigger] graph@[i])@) by {
            if i != a {
                assert(graph@[i] == old(graph)@[i]);
            }
        }
    }
}

spec fn hit_before(
    ids: Seq<Seq<char>>,
    indices: Seq<usize>,
    hits: Seq<VectorHits>,
    h0: int,
    k0: int,
    a: int,
    b: int,
) -> bool {
    exists|h: int, k: int|
        0 <= h < hits.len() && 0 <= k < hits[h].1@.len() && (h < h0 || (h == h0 && k < k0))
            && hits[h].0 == a && position_of(ids, indices, (#[trigger] hits[h].1@[k])@) == Some(b)
}

spec fn linked_before(
    ids: Seq<Seq<char>>,
    indices: Seq<usize>,
    hits: Seq<VectorHits>,
    h0: int,
    k0: int,
) -> spec_fn(int, int) -> bool {
    |a: int, b: int|
        a != b && (hit_before(ids, indices, hits, h0, k0, a, b) || hit_before(
            ids,
            indices,
            hits,
            h0,
            k0,
            b,
            a,
        ))
}

/// The vector neighbours of each memory, in ascending order.
///
/// `ids` are the ids of the whole group, `indices` the positions of its
/// unclustered memories, and `hits` what the search returned for those of them
/// that have an embedding. Hits outside `indices` are ignored. While there are
/// few unclustered memories, none has neighbours: they are all compared.
pub fn build_none_bucket_ann_candidates(
    ids: &Vec<String>,
    indices: &Vec<usize>,
    hits: &Vec<VectorHits>,
    limits: &DedupLimits,
) -> (r: Vec<Vec<usize>>)
    requires
        ann_threshold(*limits) <= usize::MAX,
        forall|k: int| 0 <= k < indices@.len() ==> #[trigger] indices@[k] < ids@.len(),
        forall|h: int| 0 <= h < hits@.len() ==> (#[trigger] hits@[h]).0 < ids@.len(),
    ensures
        r@.len() == ids@.len(),
        forall|i: int| 0 <= i < r@.len() ==> ascending((#[trigger] r@[i])@),
        forall|i: int, y: usize| #![trigger r@[i]@.contains(y)]
            0 <= i < r@.len() ==> (r@[i]@.contains(y) <==> is_large_bucket(
                indices@.len(),
                *limits,
            ) && are_neighbours(texts(ids@), indices@, hits@, i, y as int)),
{
    let ghost idv = texts(ids@);
    let n: usize = ids.len();
    let mut graph: Vec<Vec<usize>> = Vec::new();
    while graph.len() < n
        invariant
            graph@.len() <= n,
            forall|i: int| 0 <= i < graph@.len() ==> (#[trigger] graph@[i])@.len() == 0,
        decreases n - graph@.len(),
    {
        graph.push(Vec::new());
    }
    if indices.len() <= none_bucket_ann_threshold(limits) {
        return graph;
    }
    let mut h: usize = 0;
    assert(graph_of(graph@, n as int, linked_before(idv, indices@, hits@, 0, 0)));
    while h < hits.len()
        invariant
            n == ids@.len(),
            idv == texts(ids@),
            h <= hits@.len(),
            forall|k: int| 0 <= k < indices@.len() ==> #[trigger] indices@[k] < ids@.len(),
            forall|q: int| 0 <= q < hits@.len() ==> (#[trigger] hits@[q]).0 < ids@.len(),
            graph_of(graph@, n as int, linked_before(idv, indices@, hits@, h as int, 0)),
        decreases hits@.len() - h,
    {
        let a: usize = hits[h].0;
        let mut k: usize = 0;
        while k < hits[h].1.len()
            invariant
                n == ids@.len(),
                idv == texts(ids@),
                h < hits@.len(),
                a == hits@[h as int].0,
                a < n,
                k <= hits@[h as int].1@.len(),
                forall|k: int| 0 <= k < indices@.len() ==> #[trigger] indices@[k] < ids@.len(),
                graph_of(graph@, n as int, linked_before(idv, indices@, hits@, h as int, k as int)),
            decreases hits@[h as int].1@.len() - k,
        {
            let found: Option<usize> = find_position(ids, indices, hits[h].1[k].as_str());
            let ghost l0 = linked_before(idv, indices@, hits@, h as int, k as int);
            let ghost l1 = linked_before(idv, indices@, hits@, h as int, k + 1);
            proof {
                lemma_one_more_hit(idv, indices@, hits@, h as int, k as int);
            }
            let ghost g0 = graph@;
            match found {
                Some(j) => {
                    if j != a {
                        add_edge(&mut graph, a, j);
                        let ghost g1 = graph@;
                        add_edge(&mut graph, j, a);
                        proof {
                            assert forall|i: int, y: usize| #![trigger graph@[i]@.contains(y)]
                                0 <= i < n implies (graph@[i]@.contains(y) <==> l1(i, y as int)) by {
                                assert(g1[i]@.contains(y) <==> (g0[i]@.contains(y) || (i == a && y
                                    == j)));
                                assert(g0[i]@.contains(y) <==> l0(i, y as int));
                            }
                        }
                    }
                },
                None => {},
            }
            assert(graph_of(graph@, n as int, l1)) by {
                if found is None || found->0 == a {
                    assert forall|i: int, y: usize| #![trigger graph@[i]@.contains(y)]
                        0 <= i < n implies (graph@[i]@.contains(y) <==> l1(i, y as int)) by {
                        assert(g0[i]@.contains(y) <==> l0(i, y as int));
                    }
                }
            }
            k = k + 1;
        }
        proof {
            let l0 = linked_before(idv, indices@, hits@, h as int, k as int);
            let l1 = linked_before(idv, indices@, hits@, h + 1, 0);
            assert forall|x: int, y: int| #[trigger] l0(x, y) == l1(x, y) by {
                lemma_row_done(idv, indices@, hits@, h as int, x, y);
                lemma_row_done(idv, indices@, hits@, h as int, y, x);
            }
            assert forall|i: int, y: usize| #![trigger graph@[i]@.contains(y)]
                0 <= i < n implies (graph@[i]@.contains(y) <==> l1(i, y as int)) by {
                assert(graph@[i]@.contains(y) <==> l0(i, y as int));
                assert(l0(i, y as int) == l1(i, y as int));
            }
        }
        h = h + 1;
    }
    proof {
        let l = linked_before(idv, indices@, hits@, h as int, 0);
        assert forall|i: int, y: usize| #![trigger graph@[i]@.contains(y)]
            0 <= i < n implies (graph@[i]@.contains(y) <==> are_neighbours(
            idv,
            indices@,
            hits@,
            i,
            y as int,
        )) by {
            assert(graph@[i]@.contains(y) <==> l(i, y as int));
            lemma_all_hits(idv, indices@, hits@, i, y as int);
            lemma_all_hits(idv, indices@, hits@, y as int, i);
        }
    }
    graph
}

proof fn lemma_all_hits(ids: Seq<Seq<char>>, indices: Seq<usize>, hits: Seq<VectorHits>, a: int, b: int)
    ensures
        hit(ids, indices, hits, a, b) == hit_before(
            ids,
            indices,
            hits,
            hits.len() as int,
            0,
            a,
            b,
        ),
{
    if hit(ids, indices, hits, a, b) {
        let (h, k) = choose|h: int, k: int|
            0 <= h < hits.len() && 0 <= k < hits[h].1@.len() && hits[h].0 == a && position_of(
                ids,
                indices,
                (#[trigger] hits[h].1@[k])@,
            ) == Some(b);
        assert(position_of(ids, indices, hits[h].1@[k]@) == Some(b));
    }
}

proof fn lemma_row_done(
    ids: Seq<Seq<char>>,
    indices: Seq<usize>,
    hits: Seq<VectorHits>,
    h0: int,
    a: int,
    b: int,
)
    requires
        0 <= h0 < hits.len(),
    ensures
        hit_before(ids, indices, hits, h0, hits[h0].1@.len() as int, a, b) == hit_before(
            ids,
            indices,
            hits,
            h0 + 1,
            0,
            a,
            b,
        ),
{
    if hit_before(ids, indices, hits, h0 + 1, 0, a, b) {
        let (h, k) = choose|h: int, k: int|
            0 <= h < hits.len() && 0 <= k < hits[h].1@.len() && (h < h0 + 1 || (h == h0 + 1 && k
                < 0)) && hits[h].0 == a && position_of(ids, indices, (#[trigger] hits[h].1@[k])@)
                == Some(b);
        assert(position_of(ids, indices, hits[h].1@[k]@) == Some(b));
    }
}

proof fn lemma_one_more_hit(
    ids: Seq<Seq<char>>,
    indices: Seq<usize>,
    hits: Seq<VectorHits>,
    h0: int,
    k0: int,
)
    requires
        0 <= h0 < hits.len(),
        0 <= k0 < hits[h0].1@.len(),
    ensures
        forall|a: int, b: int| #[trigger]
            hit_before(ids, indices, hits, h0, k0 + 1, a, b) <==> (hit_before(
                ids,
                indices,
                hits,
                h0,
                k0,
                a,
                b,
            ) || (hits[h0].0 == a && position_of(ids, indices, hits[h0].1@[k0]@) == Some(b))),
{
    assert forall|a: int, b: int| #[trigger]
        hit_before(ids, indices, hits, h0, k0 + 1, a, b) <==> (hit_before(
            ids,
            indices,
            hits,
            h0,
            k0,
            a,
            b,
        ) || (hits[h0].0 == a && position_of(ids, indices, hits[h0].1@[k0]@) == Some(b))) by {
        if hit_before(ids, indices, hits, h0, k0 + 1, a, b) {
            let (h, k) = choose|h: int, k: int|
                0 <= h < hits.len() && 0 <= k < hits[h].1@.len() && (h < h0 || (h == h0 && k < k0
                    + 1)) && hits[h].0 == a && position_of(
                    ids,
                    indices,
                    (#[trigger] hits[h].1@[k])@,
                ) == Some(b);
            assert(position_of(ids, indices, hits[h].1@[k]@) == Some(b));
        }
        if hit_before(ids, indices, hits, h0, k0, a, b) {
            let (h, k) = choose|h: int, k: int|
                0 <= h < hits.len() && 0 <= k < hits[h].1@.len() && (h < h0 || (h == h0 && k < k0))
                    && hits[h].0 == a && position_of(ids, indices, (#[trigger] hits[h].1@[k])@)
                    == Some(b);
            assert(position_of(ids, indices, hits[h].1@[k]@) == Some(b));
        }
    }
}

} // verus!
