//! Events that are recorded for the adaptive parts to learn from.

use crate::types::opt_text;
use vstd::prelude::*;
use vstd::string::*;

verus! {

/// What an event tells of.
#[derive(Clone, Copy, Debug, PartialEq, Eq, Structural)]
pub enum EventType {
    RecallAccess,
    SynthesisInteraction,
    ConceptSummaryInteraction,
    ConceptSummaryRefreshed,
    Forget,
    ParamUpdate,
}

/// An event to be recorded, but for its payload.
#[derive(Clone, Debug)]
pub struct FeedbackEvent {
    pub event_type: EventType,
    pub request_id: Option<String>,
    pub memory_id: Option<String>,
    pub concept_id: Option<String>,
    pub query: Option<String>,
    pub query_type: Option<String>,
    pub topic: Option<String>,
}

/// The event of a cleanup.
pub fn cleanup_event(
    event_type: EventType,
    memory_id: Option<String>,
    topic: Option<String>,
) -> (r: FeedbackEvent)
    ensures
        r.event_type == event_type,
        r.request_id is None,
        r.memory_id == memory_id,
        r.concept_id is None,
        r.query is None,
        opt_text(r.query_type) == Some("cleanup"@),
        r.topic == topic,
{
    FeedbackEvent {
        event_type,
        request_id: None,
        memory_id,
        concept_id: None,
        query: None,
        query_type: Some("cleanup".to_owned()),
        topic,
    }
}

/// The event of a living summary made anew.
pub fn refresh_event(concept_id: &str) -> (r: FeedbackEvent)
    ensures
        r.event_type == EventType::ConceptSummaryRefreshed,
        r.request_id is None,
        r.memory_id is None,
        opt_text(r.concept_id) == Some(concept_id@),
        r.query is None,
        r.query_type is None,
        r.topic is None,
{
    FeedbackEvent {
        event_type: EventType::ConceptSummaryRefreshed,
        request_id: None,
        memory_id: None,
        concept_id: Some(concept_id.to_owned()),
        query: None,
        query_type: None,
        topic: None,
    }
}

} // verus!
