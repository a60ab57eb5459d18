//! Feedback on recalled memories, and the report on the release gate.

use crate::error::{OpsError, bad_request, is_bad_request};
use crate::json::{
    FieldView, JsonField, JsonMembers, find_member, json_members, member, members_view,
    parse_members,
};
use crate::events::{EventType, FeedbackEvent};
use crate::text::{
    bool_text, debug_of, debug_text, decimal, join, join_strings, push_bool, push_decimal,
    push_or, str_eq, text_or, texts,
};
use crate::types::{clone_opt, opt_text};
use vstd::prelude::*;
use vstd::string::*;

verus! {

/// Whether a rollout stage may go ahead.
#[derive(Clone, Debug)]
pub struct GateDecision {
    pub allowed: bool,
    pub blockers: Vec<String>,
    pub warnings: Vec<String>,
}

/// What the decision rests on.
#[derive(Clone, Debug)]
pub struct GateSignals {
    pub policy_status: String,
    pub policy_mode: Option<String>,
    pub policy_allows_runtime: bool,
}

/// The report on the release gate.
#[derive(Clone, Debug)]
pub struct ArsAccelerationReleaseGateReport {
    pub canary: GateDecision,
    pub default_on: GateDecision,
    pub signals: GateSignals,
}

/// The report on the release gate, to be shown.
#[derive(Clone, Debug)]
pub struct ArsAccelerationReleaseGateOutput(pub ArsAccelerationReleaseGateReport);

/// Whether a stage may go ahead, in words.
pub open spec fn gate_word(allowed: bool) -> Seq<char> {
    if allowed {
        "allowed"@
    } else {
        "blocked"@
    }
}

/// A text and a list behind it, or nothing where the list is empty.
pub open spec fn listed(before: Seq<char>, label: Seq<char>, items: Seq<Seq<char>>) -> Seq<char> {
    if items.len() == 0 {
        before
    } else {
        before + label + join(items, ", "@)
    }
}

/// The report in words, one line each for the stages, for what blocks them, for
/// the warnings and for the policy.
pub open spec fn gate_text(r: ArsAccelerationReleaseGateReport) -> Seq<char> {
    let head = "ARS acceleration release gate\ncanary: "@ + gate_word(r.canary.allowed)
        + "\ndefault-on: "@ + gate_word(r.default_on.allowed);
    let a = listed(head, "\ncanary blockers: "@, texts(r.canary.blockers@));
    let b = listed(a, "\ndefault-on blockers: "@, texts(r.default_on.blockers@));
    let c = listed(b, "\nwarnings: "@, texts(r.canary.warnings@));
    c + "\npolicy: status="@ + r.signals.policy_status@ + " mode="@ + text_or(
        r.signals.policy_mode,
        "unknown"@,
    ) + " live_allowed="@ + bool_text(r.signals.policy_allows_runtime)
}

fn push_list(s: &mut String, label: &str, items: &Vec<String>)
    ensures
        final(s)@ == listed(old(s)@, label@, texts(items@)),
{
    assert(texts(items@).len() == items@.len());
    if items.len() > 0 {
        s.append(label);
        s.append(join_strings(items, ", ").as_str());
    }
}

fn gate_word_of(allowed: bool) -> (r: &'static str)
    ensures
        r@ == gate_word(allowed),
{
    if allowed {
        "allowed"
    } else {
        "blocked"
    }
}

impl ArsAccelerationReleaseGateOutput {
    /// The report in words.
    pub fn to_markdown(&self) -> (r: String)
        ensures
            r@ == gate_text(self.0),
    {
        let report: &ArsAccelerationReleaseGateReport = &self.0;
        let mut s: String = "ARS acceleration release gate\ncanary: ".to_owned();
        s.append(gate_word_of(report.canary.allowed));
        s.append("\ndefault-on: ");
        s.append(gate_word_of(report.default_on.allowed));
        push_list(&mut s, "\ncanary blockers: ", &report.canary.blockers);
        push_list(&mut s, "\ndefault-on blockers: ", &report.default_on.blockers);
        push_list(&mut s, "\nwarnings: ", &report.canary.warnings);
        s.append("\npolicy: status=");
        s.append(report.signals.policy_status.as_str());
        s.append(" mode=");
        push_or(&mut s, &report.signals.policy_mode, "unknown");
        s.append(" live_allowed=");
        push_bool(&mut s, report.signals.policy_allows_runtime);
        s
    }

    /// The report in words.
    pub fn to_cli_text(&self) -> (r: String)
        ensures
            r@ == gate_text(self.0),
    {
        self.to_markdown()
    }
}

/// Feedback on which recalled memories were used.
#[derive(Clone, Debug)]
pub struct AccessFeedbackParams {
    pub memory_ids: Vec<String>,
    pub request_id: Option<String>,
    pub query: Option<String>,
    pub helpful: Option<bool>,
}

/// Where a synthesis belongs among the feedback statistics.
#[derive(Clone, Debug)]
pub struct SynthesisMetadata {
    pub query_type: Option<String>,
    pub cluster_id: Option<i64>,
    pub source_count: Option<u32>,
    pub synthesis_chars: Option<u32>,
}

/// Feedback on how a synthesis was read.
#[derive(Clone, Debug)]
pub struct SynthesisInteractionFeedbackParams {
    pub synthesis_id: String,
    pub recall_id: String,
    /// The interaction as JSON text; it is passed on as it is.
    pub interaction: String,
    pub metadata: Option<SynthesisMetadata>,
}

/// Feedback of either kind.
#[derive(Clone, Debug)]
pub enum FeedbackParams {
    Access(AccessFeedbackParams),
    SynthesisInteraction(SynthesisInteractionFeedbackParams),
}

/// The kind of some feedback.
#[derive(Clone, Copy, Debug, PartialEq, Eq, Structural)]
pub enum FeedbackKind {
    Access,
    SynthesisInteraction,
}

/// The name of a type of JSON value.
pub open spec fn json_type(v: FieldView) -> Seq<char> {
    match v {
        FieldView::Null => "null"@,
        FieldView::Bool(_) => "bool"@,
        FieldView::Number { .. } => "number"@,
        FieldView::Text(_) => "string"@,
        FieldView::Array => "array"@,
        FieldView::Object => "object"@,
    }
}

/// The name of the type of a JSON value.
pub fn type_name_of_value(v: &JsonField) -> (r: &'static str)
    ensures
        r@ == json_type(v.view()),
{
    match v {
        JsonField::Null => "null",
        JsonField::Bool(_) => "bool",
        JsonField::Number { signed: _, unsigned: _ } => "number",
        JsonField::Text(_) => "string",
        JsonField::Array => "array",
        JsonField::Object => "object",
    }
}

/// Which kind the feedback in an object is, or why it is refused. Feedback that
/// does not say is of the kind `access`.
pub open spec fn is_kind_of(
    r: Result<FeedbackKind, String>,
    m: Seq<(Seq<char>, FieldView)>,
) -> bool {
    match member(m, "kind"@) {
        None => r == Ok::<FeedbackKind, String>(FeedbackKind::Access),
        Some(FieldView::Text(s)) => if s == "access"@ {
            r == Ok::<FeedbackKind, String>(FeedbackKind::Access)
        } else if s == "synthesis_interaction"@ {
            r == Ok::<FeedbackKind, String>(FeedbackKind::SynthesisInteraction)
        } else {
            r matches Err(e) && e@ == "unknown feedback kind: "@ + debug_text(s)
                + " (expected \"access\" or \"synthesis_interaction\")"@
        },
        Some(other) => r matches Err(e) && e@ == "feedback `kind` must be a string (got "@
            + json_type(other) + ")"@,
    }
}

/// The refusal of a kind that is not known, which is shown quoted.
pub fn unknown_kind(shown: &str) -> (r: String)
    ensures
        r@ == "unknown feedback kind: "@ + shown@
            + " (expected \"access\" or \"synthesis_interaction\")"@,
{
    let mut e: String = "unknown feedback kind: ".to_owned();
    e.append(shown);
    e.append(" (expected \"access\" or \"synthesis_interaction\")");
    e
}

/// Which kind the feedback in an object is, or why it is refused.
pub fn feedback_kind(m: &JsonMembers) -> (r: Result<FeedbackKind, String>)
    ensures
        is_kind_of(r, members_view(m@)),
{
    match find_member(m, "kind") {
        None => Ok(FeedbackKind::Access),
        Some(i) => match &m[i].1 {
            JsonField::Text(s) => {
                proof {
                    reveal_strlit("access");
                    reveal_strlit("synthesis_interaction");
                }
                if str_eq(s.as_str(), "access") {
                    Ok(FeedbackKind::Access)
                } else if str_eq(s.as_str(), "synthesis_interaction") {
                    Ok(FeedbackKind::SynthesisInteraction)
                } else {
                    Err(unknown_kind(debug_of(s.as_str()).as_str()))
                }
            },
            other => {
                let mut e: String = "feedback `kind` must be a string (got ".to_owned();
                e.append(type_name_of_value(other));
                e.append(")");
                Err(e)
            },
        },
    }
}

/// Which kind the feedback in a text is, or why it is refused; `None` where the
/// text is not JSON.
pub fn feedback_kind_of_text(text: &str) -> (r: Option<Result<FeedbackKind, String>>)
    ensures
        match json_members(text@) {
            None => r is None,
            Some(m) => r matches Some(k) && is_kind_of(k, m),
        },
{
    match parse_members(text) {
        None => None,
        Some(m) => Some(feedback_kind(&m)),
    }
}

/// Feedback without a kind is still read as feedback on accesses.
pub proof fn law_missing_kind_is_access(m: Seq<(Seq<char>, FieldView)>, r: Result<FeedbackKind, String>)
    requires
        member(m, "kind"@) is None,
        is_kind_of(r, m),
    ensures
        r == Ok::<FeedbackKind, String>(FeedbackKind::Access),
{
}

/// How much feedback was recorded.
#[derive(Clone, Copy, Debug, PartialEq, Eq, Structural)]
pub struct FeedbackOutput {
    pub emitted: u32,
}

/// What a person is told of recorded feedback.
pub open spec fn recorded_text(emitted: nat) -> Seq<char> {
    "Feedback recorded for "@ + decimal(emitted) + " "@ + (if emitted == 1 {
        "memory"@
    } else {
        "memories"@
    }) + ". This improves future recall quality."@
}

impl FeedbackOutput {
    /// The short form.
    pub fn to_markdown(&self) -> (r: String)
        ensures
            r@ == "ok:"@ + decimal(self.emitted as nat),
    {
        let mut s: String = "ok:".to_owned();
        push_decimal(&mut s, self.emitted as u64);
        s
    }

    /// The form for people.
    pub fn to_cli_text(&self) -> (r: String)
        ensures
            r@ == recorded_text(self.emitted as nat),
    {
        let mut s: String = "Feedback recorded for ".to_owned();
        push_decimal(&mut s, self.emitted as u64);
        s.append(" ");
        if self.emitted == 1 {
            s.append("memory");
        } else {
            s.append("memories");
        }
        s.append(". This improves future recall quality.");
        s
    }
}

/// What is recorded beside an event.
#[derive(Clone, Debug)]
pub enum FeedbackPayload {
    Access {
        source: &'static str,
        helpful: Option<bool>,
    },
    SynthesisInteraction {
        synthesis_id: String,
        recall_id: String,
        /// The interaction as JSON text, as it was given.
        interaction: String,
        metadata: Option<SynthesisMetadata>,
    },
}

/// An event with its payload.
#[derive(Clone, Debug)]
pub struct FeedbackRecord {
    pub event: FeedbackEvent,
    pub payload: FeedbackPayload,
}

/// What is recorded of a memory that was used.
pub open spec fn is_access_record(
    r: FeedbackRecord,
    memory_id: Seq<char>,
    p: AccessFeedbackParams,
) -> bool {
    &&& r.event.event_type is RecallAccess
    &&& r.event.request_id == p.request_id
    &&& opt_text(r.event.memory_id) == Some(memory_id)
    &&& r.event.concept_id is None
    &&& r.event.query == p.query
    &&& r.event.query_type is None
    &&& r.event.topic is None
    &&& r.payload matches FeedbackPayload::Access { source, helpful } && source@
        == "agent_feedback"@ && helpful == p.helpful
}

/// What is recorded of an interaction with a synthesis. Only the type of query
/// is lifted out of its payload.
pub open spec fn is_synthesis_record(
    r: FeedbackRecord,
    p: SynthesisInteractionFeedbackParams,
) -> bool {
    &&& r.event.event_type is SynthesisInteraction
    &&& r.event.request_id is None
    &&& r.event.memory_id is None
    &&& r.event.concept_id is None
    &&& r.event.query is None
    &&& r.event.query_type == (match p.metadata {
        Some(m) => m.query_type,
        None => None,
    })
    &&& r.event.topic is None
    &&& r.payload matches FeedbackPayload::SynthesisInteraction {
        synthesis_id,
        recall_id,
        interaction,
        metadata,
    } && synthesis_id@ == p.synthesis_id@ && recall_id@ == p.recall_id@ && interaction@
        == p.interaction@ && metadata == p.metadata
}

/// Whether `r` holds a record for each memory, in order; without one it is refused.
pub open spec fn are_access_records(
    r: Result<Vec<FeedbackRecord>, OpsError>,
    params: AccessFeedbackParams,
) -> bool {
    if params.memory_ids@.len() == 0 {
        r matches Err(e) && is_bad_request(e, "memory_ids cannot be empty"@)
    } else {
        r matches Ok(v) && v@.len() == params.memory_ids@.len() && forall|i: int|
            0 <= i < v@.len() ==> is_access_record(
                #[trigger] v@[i],
                params.memory_ids@[i]@,
                params,
            )
    }
}

/// What is recorded for feedback on accesses, one record per memory, in order.
/// Feedback on no memory is refused.
pub fn feedback_access(params: &AccessFeedbackParams) -> (r: Result<Vec<FeedbackRecord>, OpsError>)
    ensures
        are_access_records(r, *params),
{
    if params.memory_ids.len() == 0 {
        return Err(bad_request("memory_ids cannot be empty".to_owned()));
    }
    let mut v: Vec<FeedbackRecord> = Vec::new();
    let mut i: usize = 0;
    while i < params.memory_ids.len()
        invariant
            i <= params.memory_ids@.len(),
            v@.len() == i,
            forall|k: int|
                0 <= k < i ==> is_access_record(
                    #[trigger] v@[k],
                    params.memory_ids@[k]@,
                    *params,
                ),
        decreases params.memory_ids@.len() - i,
    {
        v.push(
            FeedbackRecord {
                event: FeedbackEvent {
                    event_type: EventType::RecallAccess,
                    request_id: clone_opt(&params.request_id),
                    memory_id: Some(params.memory_ids[i].clone()),
                    concept_id: None,
                    query: clone_opt(&params.query),
                    query_type: None,
                    topic: None,
                },
                payload: FeedbackPayload::Access {
                    source: "agent_feedback",
                    helpful: params.helpful,
                },
            },
        );
        i = i + 1;
    }
    Ok(v)
}

/// What is recorded for an interaction with a synthesis.
pub fn feedback_synthesis_interaction(params: &SynthesisInteractionFeedbackParams) -> (r:
    FeedbackRecord)
    ensures
        is_synthesis_record(r, *params),
{
    let (query_type, metadata): (Option<String>, Option<SynthesisMetadata>) =
        match &params.metadata {
        Some(m) => (
            clone_opt(&m.query_type),
            Some(
                SynthesisMetadata {
                    query_type: clone_opt(&m.query_type),
                    cluster_id: m.cluster_id,
                    source_count: m.source_count,
                    synthesis_chars: m.synthesis_chars,
                },
            ),
        ),
        None => (None, None),
    };
    FeedbackRecord {
        event: FeedbackEvent {
            event_type: EventType::SynthesisInteraction,
            request_id: None,
            memory_id: None,
            concept_id: None,
            query: None,
            query_type,
            topic: None,
        },
        payload: FeedbackPayload::SynthesisInteraction {
            synthesis_id: params.synthesis_id.clone(),
            recall_id: params.recall_id.clone(),
            interaction: params.interaction.clone(),
            metadata,
        },
    }
}

/// Whether `r` is what is recorded of a feedback of either kind.
pub open spec fn are_feedback_records(
    r: Result<Vec<FeedbackRecord>, OpsError>,
    params: FeedbackParams,
) -> bool {
    match params {
        FeedbackParams::Access(p) => are_access_records(r, p),
        FeedbackParams::SynthesisInteraction(p) => r matches Ok(v) && v@.len() == 1
            && is_synthesis_record(v@[0], p),
    }
}

/// What is recorded for some feedback.
pub fn feedback(params: &FeedbackParams) -> (r: Result<Vec<FeedbackRecord>, OpsError>)
    ensures
        are_feedback_records(r, *params),
{
    match params {
        FeedbackParams::Access(p) => feedback_access(p),
        FeedbackParams::SynthesisInteraction(p) => {
            let mut v: Vec<FeedbackRecord> = Vec::new();
            v.push(feedback_synthesis_interaction(p));
            Ok(v)
        },
    }
}

} // verus!
