//! Feedback on how a living summary was read.

use crate::events::{EventType, FeedbackEvent};
use crate::types::opt_text;
use vstd::prelude::*;
use vstd::string::*;

verus! {

/// The type of query under which living summaries are counted.
pub const CONCEPT_SUMMARY_QUERY_TYPE_REFRESH: &'static str = "concept_refresh";

/// Where a living summary belongs among the feedback statistics.
#[derive(Clone, Debug)]
pub struct ConceptSummaryMetadata {
    pub query_type: Option<String>,
    pub cluster_id: Option<i64>,
    pub concept_chars: Option<u32>,
    pub revision_version: Option<u32>,
}

/// Feedback on how a living summary was read.
#[derive(Clone, Debug)]
pub struct ConceptSummaryFeedbackParams {
    pub concept_id: String,
    /// Id of the summary, where the client knows it.
    pub concept_summary_id: Option<String>,
    /// The same under its older name.
    pub living_summary_id: Option<String>,
    pub recall_id: String,
    /// The interaction as JSON text; it is passed on as it is.
    pub interaction: String,
    pub metadata: Option<ConceptSummaryMetadata>,
}

/// What is recorded of an interaction.
#[derive(Debug)]
pub struct ConceptSummaryInteraction {
    pub concept_id: String,
    pub concept_summary_id: String,
    pub recall_id: String,
    pub interaction: String,
    pub metadata: ConceptSummaryMetadata,
}

/// The id of the summary: as given, or under its older name, or else that of
/// the concept.
pub open spec fn summary_id_of(p: ConceptSummaryFeedbackParams) -> Seq<char> {
    match p.concept_summary_id {
        Some(s) => s@,
        None => match p.living_summary_id {
            Some(s) => s@,
            None => p.concept_id@,
        },
    }
}

/// Whether `r` is what is recorded of an interaction with a summary, and the event
/// that tells of it.
pub open spec fn is_interaction(
    r: (ConceptSummaryInteraction, FeedbackEvent),
    params: ConceptSummaryFeedbackParams,
    synthetic_cluster_id: i64,
) -> bool {
    &&& r.0.concept_id@ == params.concept_id@
    &&& r.0.concept_summary_id@ == summary_id_of(params)
    &&& r.0.recall_id@ == params.recall_id@
    &&& r.0.interaction@ == params.interaction@
    &&& r.0.metadata.cluster_id == Some(synthetic_cluster_id)
    &&& opt_text(r.0.metadata.query_type) == Some(CONCEPT_SUMMARY_QUERY_TYPE_REFRESH@)
    &&& r.0.metadata.concept_chars == (match params.metadata {
        Some(m) => m.concept_chars,
        None => None,
    })
    &&& r.0.metadata.revision_version == (match params.metadata {
        Some(m) => m.revision_version,
        None => None,
    })
    &&& r.1.event_type is ConceptSummaryInteraction
    &&& r.1.request_id is None
    &&& r.1.memory_id is None
    &&& opt_text(r.1.concept_id) == Some(params.concept_id@)
    &&& r.1.query is None
    &&& opt_text(r.1.query_type) == Some(CONCEPT_SUMMARY_QUERY_TYPE_REFRESH@)
    &&& r.1.topic is None
}

/// What is recorded of an interaction, and its event. Whatever cluster and type
/// of query the client names, the interaction is counted under the bucket of
/// its concept, where the judge's verdicts are counted and later looked up.
pub fn feedback_concept_summary(params: &ConceptSummaryFeedbackParams, synthetic_cluster_id: i64) -> (r: (
    ConceptSummaryInteraction,
    FeedbackEvent,
))
    ensures
        is_interaction(r, *params, synthetic_cluster_id),
{
    let (concept_chars, revision_version): (Option<u32>, Option<u32>) = match &params.metadata {
        Some(m) => (m.concept_chars, m.revision_version),
        None => (None, None),
    };
    let summary_id: String = match &params.concept_summary_id {
        Some(s) => s.clone(),
        None => match &params.living_summary_id {
            Some(s) => s.clone(),
            None => params.concept_id.clone(),
        },
    };
    let interaction: ConceptSummaryInteraction = ConceptSummaryInteraction {
        concept_id: params.concept_id.clone(),
        concept_summary_id: summary_id,
        recall_id: params.recall_id.clone(),
        interaction: params.interaction.clone(),
        metadata: ConceptSummaryMetadata {
            query_type: Some(CONCEPT_SUMMARY_QUERY_TYPE_REFRESH.to_owned()),
            cluster_id: Some(synthetic_cluster_id),
            concept_chars,
            revision_version,
        },
    };
    let event: FeedbackEvent = FeedbackEvent {
        event_type: EventType::ConceptSummaryInteraction,
        request_id: None,
        memory_id: None,
        concept_id: Some(params.concept_id.clone()),
        query: None,
        query_type: Some(CONCEPT_SUMMARY_QUERY_TYPE_REFRESH.to_owned()),
        topic: None,
    };
    (interaction, event)
}

} // verus!
