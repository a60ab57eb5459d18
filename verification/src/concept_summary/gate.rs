//! Whether a living summary is shown.

use crate::text::str_eq;
use vstd::prelude::*;
use vstd::string::*;

verus! {

/// Why a living summary is not shown.
#[derive(Clone, Copy, Debug, PartialEq, Eq, Structural)]
pub enum ConceptSummarySkipReason {
    /// The operator switched the feature off.
    OperatorDisabled,
    /// Its readers did not find such summaries useful.
    AdaptiveDecision,
}

/// Whether a living summary is shown.
#[derive(Clone, Copy, Debug, PartialEq, Eq, Structural)]
pub enum ConceptSummaryDecision {
    Yes,
    Skip(ConceptSummarySkipReason),
}

/// What is known of the summaries shown for one cluster and one type of query.
#[derive(Clone, Debug)]
pub struct SummaryBucket {
    pub cluster_id: Option<i64>,
    pub query_type: String,
    pub viewed_count: u64,
    pub explicit_up: u64,
    pub explicit_down: u64,
    pub llm_judge_count: u64,
    /// The rate at which they were useful reaches the threshold.
    pub useful: bool,
}

/// Whether a bucket is for this cluster and type of query.
pub open spec fn is_bucket(b: SummaryBucket, cluster: Option<i64>, query_type: Seq<char>) -> bool {
    b.cluster_id == cluster && b.query_type@ == query_type
}

/// The bucket for a cluster and a type of query.
pub open spec fn bucket_for(
    buckets: Seq<SummaryBucket>,
    cluster: Option<i64>,
    query_type: Seq<char>,
) -> Option<SummaryBucket>
    decreases buckets.len(),
{
    if buckets.len() == 0 {
        None
    } else if is_bucket(buckets[0], cluster, query_type) {
        Some(buckets[0])
    } else {
        bucket_for(buckets.skip(1), cluster, query_type)
    }
}

/// The lesser of a number and the greatest one.
pub open spec fn held(n: int) -> int {
    if n > u64::MAX {
        u64::MAX as int
    } else {
        n
    }
}

/// Signals gathered in a bucket; the judge's count only if they have weight.
pub open spec fn signals(b: SummaryBucket, judge_counts: bool) -> int {
    held(
        b.viewed_count + b.explicit_up + b.explicit_down + if judge_counts {
            b.llm_judge_count as int
        } else {
            0
        },
    )
}

/// Whether a living summary is shown: never where the operator switched it
/// off, and not where a bucket with enough signals says that such summaries are
/// not useful. Whatever is missing for that counts in its favour.
pub open spec fn decision(
    global_enabled: bool,
    cluster_id: Option<i64>,
    query_type: Seq<char>,
    buckets: Option<Seq<SummaryBucket>>,
    cold_start_n: u64,
    judge_counts: bool,
) -> ConceptSummaryDecision {
    if !global_enabled {
        ConceptSummaryDecision::Skip(ConceptSummarySkipReason::OperatorDisabled)
    } else if cluster_id is None || buckets is None {
        ConceptSummaryDecision::Yes
    } else {
        match bucket_for(buckets->0, cluster_id, query_type) {
            None => ConceptSummaryDecision::Yes,
            Some(b) => if signals(b, judge_counts) < cold_start_n || b.useful {
                ConceptSummaryDecision::Yes
            } else {
                ConceptSummaryDecision::Skip(ConceptSummarySkipReason::AdaptiveDecision)
            },
        }
    }
}

fn same_cluster(a: Option<i64>, b: Option<i64>) -> (r: bool)
    ensures
        r == (a == b),
{
    match (a, b) {
        (Some(x), Some(y)) => x == y,
        (None, None) => true,
        _ => false,
    }
}

/// Index of the bucket for a cluster and a type of query.
pub fn find_bucket(buckets: &Vec<SummaryBucket>, cluster: Option<i64>, query_type: &str) -> (r: Option<
    usize,
>)
    ensures
        match r {
            Some(i) => i < buckets@.len() && bucket_for(buckets@, cluster, query_type@) == Some(
                buckets@[i as int],
            ),
            None => bucket_for(buckets@, cluster, query_type@) is None,
        },
{
    let mut i: usize = 0;
    assert(buckets@.skip(0) =~= buckets@);
    while i < buckets.len()
        invariant
            i <= buckets@.len(),
            bucket_for(buckets@, cluster, query_type@) == bucket_for(
                buckets@.skip(i as int),
                cluster,
                query_type@,
            ),
        decreases buckets@.len() - i,
    {
        assert(buckets@.skip(i as int)[0] == buckets@[i as int]);
        assert(buckets@.skip(i as int).skip(1) =~= buckets@.skip(i + 1));
        if same_cluster(buckets[i].cluster_id, cluster) && str_eq(
            buckets[i].query_type.as_str(),
            query_type,
        ) {
            return Some(i);
        }
        i = i + 1;
    }
    None
}

/// Whether a living summary is shown. `judge_counts` says whether the judge's
/// verdicts have any weight.
pub fn decide_concept_summary_quality(
    global_enabled: bool,
    cluster_id: Option<i64>,
    query_type: &str,
    buckets: Option<&Vec<SummaryBucket>>,
    cold_start_n: u64,
    judge_counts: bool,
) -> (r: ConceptSummaryDecision)
    ensures
        r == decision(
            global_enabled,
            cluster_id,
            query_type@,
            match buckets {
                Some(v) => Some(v@),
                None => None,
            },
            cold_start_n,
            judge_counts,
        ),
{
    if !global_enabled {
        return ConceptSummaryDecision::Skip(ConceptSummarySkipReason::OperatorDisabled);
    }
    if cluster_id.is_none() {
        return ConceptSummaryDecision::Yes;
    }
    match buckets {
        None => ConceptSummaryDecision::Yes,
        Some(v) => match find_bucket(v, cluster_id, query_type) {
            None => ConceptSummaryDecision::Yes,
            Some(i) => {
                let b: &SummaryBucket = &v[i];
                let from_judge: u64 = if judge_counts {
                    b.llm_judge_count
                } else {
                    0
                };
                let total: u64 = b.viewed_count.saturating_add(b.explicit_up).saturating_add(
                    b.explicit_down,
                ).saturating_add(from_judge);
                if total < cold_start_n || b.useful {
                    ConceptSummaryDecision::Yes
                } else {
                    ConceptSummaryDecision::Skip(ConceptSummarySkipReason::AdaptiveDecision)
                }
            },
        },
    }
}

/// The operator's switch wins over everything that was learned.
pub proof fn law_operator_wins(
    cluster_id: Option<i64>,
    query_type: Seq<char>,
    buckets: Option<Seq<SummaryBucket>>,
    cold_start_n: u64,
    judge_counts: bool,
)
    ensures
        decision(false, cluster_id, query_type, buckets, cold_start_n, judge_counts)
            == ConceptSummaryDecision::Skip(ConceptSummarySkipReason::OperatorDisabled),
{
}

/// Where nothing was learned for the cluster and type of query at hand, the
/// summary is shown.
pub proof fn law_cold_start_shows(
    cluster_id: Option<i64>,
    query_type: Seq<char>,
    buckets: Option<Seq<SummaryBucket>>,
    cold_start_n: u64,
    judge_counts: bool,
)
    requires
        cluster_id is None || buckets is None || bucket_for(buckets->0, cluster_id, query_type)
            is None || signals(bucket_for(buckets->0, cluster_id, query_type)->0, judge_counts)
            < cold_start_n,
    ensures
        decision(true, cluster_id, query_type, buckets, cold_start_n, judge_counts) is Yes,
{
}

/// What was learned for one type of query has no say over another.
pub proof fn law_buckets_are_isolated(
    buckets: Seq<SummaryBucket>,
    cluster: Option<i64>,
    query_type: Seq<char>,
)
    requires
        forall|i: int|
            0 <= i < buckets.len() ==> !is_bucket(#[trigger] buckets[i], cluster, query_type),
    ensures
        bucket_for(buckets, cluster, query_type) is None,
    decreases buckets.len(),
{
    if buckets.len() > 0 {
        assert(!is_bucket(buckets[0], cluster, query_type));
        assert forall|i: int| 0 <= i < buckets.skip(1).len() implies !is_bucket(
            #[trigger] buckets.skip(1)[i],
            cluster,
            query_type,
        ) by {
            assert(buckets.skip(1)[i] == buckets[i + 1]);
        }
        law_buckets_are_isolated(buckets.skip(1), cluster, query_type);
    }
}

/// Whether people have given a bucket enough signals of their own.
pub open spec fn is_warm(bucket: Option<SummaryBucket>, human_signal_threshold: u64) -> bool {
    (match bucket {
        Some(b) => held(b.explicit_up + b.explicit_down + b.viewed_count),
        None => 0,
    }) >= human_signal_threshold
}

/// Whether the judge samples at the rate for warm buckets: people have given
/// enough signals themselves.
pub fn samples_at_warm_rate(bucket: Option<&SummaryBucket>, human_signal_threshold: u64) -> (r: bool)
    ensures
        r == is_warm(
            match bucket {
                Some(b) => Some(*b),
                None => None,
            },
            human_signal_threshold,
        ),
{
    let human: u64 = match bucket {
        Some(b) => b.explicit_up.saturating_add(b.explicit_down).saturating_add(b.viewed_count),
        None => 0,
    };
    human >= human_signal_threshold
}

} // verus!
