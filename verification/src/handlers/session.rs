//! Taking in the transcript of a session.

use crate::error::{OpsError, bad_request, is_bad_request};
use crate::handlers::diagnostics::SurfaceKind;
use crate::text::{bool_text, byte_len, decimal, push_bool, push_decimal, push_or, text_or};
use crate::time::{Timestamp, date_argument, is_instant, parse_dt_start};
use crate::types::{clone_opt, opt_text};
use vstd::prelude::*;
use vstd::string::*;

verus! {

/// Most bytes of one transcript.
pub const INGEST_SESSION_MAX_CHARS: usize = 500_000;

/// Most turns of one transcript.
pub const INGEST_SESSION_MAX_TURNS: usize = 1000;

/// A transcript to take in: either as text or as turns.
#[derive(Debug)]
pub struct IngestSessionInput {
    pub content: Option<String>,
    pub turns: Option<Vec<IngestSessionTurnInput>>,
    pub title: Option<String>,
    pub session_id: Option<String>,
    /// RFC 3339, or a day `YYYY-MM-DD`.
    pub started_at: Option<String>,
    pub summary: Option<String>,
    pub compact_summary: Option<String>,
    pub tool_outputs: Option<Vec<String>>,
    pub agent_label: Option<String>,
    pub is_subagent: Option<bool>,
    /// Only queue the transcript.
    pub async_mode: Option<bool>,
}

/// One turn.
#[derive(Debug)]
pub struct IngestSessionTurnInput {
    pub role: String,
    pub content: String,
}

/// A session as it is handed on.
#[derive(Debug)]
pub struct SessionIngest {
    pub schema_version: u32,
    pub artifact_kind: String,
    pub session_id: Option<String>,
    pub title: Option<String>,
    pub started_at: Option<Timestamp>,
    pub ended_at: Option<Timestamp>,
    pub summary: Option<String>,
    pub source_agent: Option<String>,
    pub source_label: Option<String>,
    pub compact_summary: Option<String>,
    pub tool_outputs: Vec<String>,
    pub turns: Vec<IngestSessionTurnInput>,
}

/// What is handed on, as turns or as text.
#[derive(Debug)]
pub enum IngestSource {
    Session(SessionIngest),
    Text(String),
}

/// What is handed on, and how.
#[derive(Debug)]
pub struct IngestPlan {
    pub source: IngestSource,
    pub agent_label: Option<String>,
    pub is_subagent: bool,
    /// Queue it instead of working on it now.
    pub queue: bool,
}

/// Bytes of the turns, roles and contents together, held at the greatest
/// length.
pub open spec fn turns_len(turns: Seq<IngestSessionTurnInput>) -> int
    decreases turns.len(),
{
    if turns.len() == 0 {
        0
    } else {
        let n = turns_len(turns.drop_last()) + byte_len(turns.last().role@) + byte_len(
            turns.last().content@,
        );
        if n > usize::MAX {
            usize::MAX as int
        } else {
            n
        }
    }
}

fn sum_turns(turns: &Vec<IngestSessionTurnInput>) -> (r: usize)
    ensures
        r == turns_len(turns@),
{
    let mut n: usize = 0;
    let mut i: usize = 0;
    assert(turns@.take(0) =~= Seq::<IngestSessionTurnInput>::empty());
    while i < turns.len()
        invariant
            i <= turns@.len(),
            n == turns_len(turns@.take(i as int)),
        decreases turns@.len() - i,
    {
        assert(turns@.take(i + 1).drop_last() =~= turns@.take(i as int));
        n = n.saturating_add(turns[i].role.as_str().len()).saturating_add(
            turns[i].content.as_str().len(),
        );
        i = i + 1;
    }
    assert(turns@.take(i as int) =~= turns@);
    n
}

/// The name of a surface in the metadata of what came through it.
pub open spec fn surface_label(surface: SurfaceKind) -> Seq<char> {
    match surface {
        SurfaceKind::Mcp => "mcp"@,
        SurfaceKind::Rest => "rest"@,
        SurfaceKind::Cli => "cli"@,
    }
}

/// The name of a surface in the metadata of what came through it.
pub fn surface_source_label(surface: SurfaceKind) -> (r: &'static str)
    ensures
        r@ == surface_label(surface),
{
    match surface {
        SurfaceKind::Mcp => "mcp",
        SurfaceKind::Rest => "rest",
        SurfaceKind::Cli => "cli",
    }
}

/// Why a transcript is refused, if it is. Turns win over text.
pub open spec fn refusal(p: IngestSessionInput) -> Option<Seq<char>> {
    match (p.turns, p.content) {
        (Some(turns), _) => if turns_len(turns@) > INGEST_SESSION_MAX_CHARS {
            Some("turns too large (max 500000 bytes aggregate)"@)
        } else if turns@.len() > INGEST_SESSION_MAX_TURNS {
            Some("too many turns (max 1000)"@)
        } else {
            None
        },
        (None, Some(content)) => if byte_len(content@) > INGEST_SESSION_MAX_CHARS {
            Some("content too large (max 500000 bytes)"@)
        } else {
            None
        },
        (None, None) => Some("ingest_session requires either `content` or `turns`"@),
    }
}

/// Whether `s` is the session of a transcript in turns.
pub open spec fn is_session_of(s: SessionIngest, p: IngestSessionInput, surface: SurfaceKind) -> bool {
    &&& s.schema_version == 1
    &&& s.artifact_kind@ == "session"@
    &&& s.session_id == p.session_id
    &&& s.title == p.title
    &&& match p.started_at {
        Some(text) => is_instant(s.started_at, date_argument(text@, false)),
        None => s.started_at is None,
    }
    &&& s.ended_at is None
    &&& s.summary == p.summary
    &&& s.source_agent == p.agent_label
    &&& opt_text(s.source_label) == Some(surface_label(surface))
    &&& s.compact_summary == p.compact_summary
    &&& match p.tool_outputs {
        Some(v) => s.tool_outputs == v,
        None => s.tool_outputs@.len() == 0,
    }
    &&& Some(s.turns) == p.turns
}

/// Whether `r` is what is done with a transcript: it is refused, or taken in as turns
/// or as text, at once or later.
pub open spec fn is_ingest_plan(
    r: Result<IngestPlan, OpsError>,
    params: IngestSessionInput,
    surface: SurfaceKind,
) -> bool {
    match refusal(params) {
        Some(message) => r matches Err(e) && is_bad_request(e, message),
        None => r matches Ok(plan) && plan.agent_label == params.agent_label && plan.is_subagent
            == (params.is_subagent == Some(true)) && plan.queue == (params.async_mode == Some(true))
            && match plan.source {
            IngestSource::Session(s) => params.turns is Some && is_session_of(s, params, surface),
            IngestSource::Text(t) => params.turns is None && params.content == Some(t),
        },
    }
}

/// What is handed on of a transcript, or why it is refused.
pub fn ingest_session(params: IngestSessionInput, surface: SurfaceKind) -> (r: Result<
    IngestPlan,
    OpsError,
>)
    ensures
        is_ingest_plan(r, params, surface),
{
    let is_subagent: bool = match params.is_subagent {
        Some(b) => b,
        None => false,
    };
    let queue: bool = match params.async_mode {
        Some(b) => b,
        None => false,
    };
    let agent_label: Option<String> = clone_opt(&params.agent_label);
    match (params.turns, params.content) {
        (Some(turns), _) => {
            if sum_turns(&turns) > INGEST_SESSION_MAX_CHARS {
                return Err(
                    bad_request("turns too large (max 500000 bytes aggregate)".to_owned()),
                );
            }
            if turns.len() > INGEST_SESSION_MAX_TURNS {
                return Err(bad_request("too many turns (max 1000)".to_owned()));
            }
            let started_at: Option<Timestamp> = match &params.started_at {
                Some(text) => parse_dt_start(text.as_str()),
                None => None,
            };
            let tool_outputs: Vec<String> = match params.tool_outputs {
                Some(v) => v,
                None => Vec::new(),
            };
            let session: SessionIngest = SessionIngest {
                schema_version: 1,
                artifact_kind: "session".to_owned(),
                session_id: params.session_id,
                title: params.title,
                started_at,
                ended_at: None,
                summary: params.summary,
                source_agent: clone_opt(&agent_label),
                source_label: Some(surface_source_label(surface).to_owned()),
                compact_summary: params.compact_summary,
                tool_outputs,
                turns,
            };
            Ok(
                IngestPlan {
                    source: IngestSource::Session(session),
                    agent_label,
                    is_subagent,
                    queue,
                },
            )
        },
        (None, Some(content)) => {
            if content.as_str().len() > INGEST_SESSION_MAX_CHARS {
                return Err(bad_request("content too large (max 500000 bytes)".to_owned()));
            }
            Ok(IngestPlan { source: IngestSource::Text(content), agent_label, is_subagent, queue })
        },
        (None, None) => Err(
            bad_request("ingest_session requires either `content` or `turns`".to_owned()),
        ),
    }
}

/// What came of taking in a transcript.
#[derive(Clone, Debug)]
pub struct IngestSessionOutput {
    pub queued: bool,
    pub artifact_id: Option<String>,
    pub session_id: Option<String>,
    pub episode_id: Option<String>,
    pub memory_count: u32,
    pub concept_count: u32,
    pub link_count: u32,
    pub turn_count: u32,
    pub filtered_count: u32,
    pub secret_filtered_count: u32,
    pub created_count: u32,
    pub merged_count: u32,
    pub superseded_count: u32,
    pub primary_topics: Vec<String>,
    pub stored_memory_ids: Vec<String>,
}

/// What came of it, as a list.
pub open spec fn ingest_list(o: IngestSessionOutput) -> Seq<char> {
    "**Ingested session**\n\n- queued: "@ + bool_text(o.queued) + "\n- artifact: "@ + text_or(
        o.artifact_id,
        "-"@,
    ) + "\n- episode: "@ + text_or(o.episode_id, "-"@) + "\n- memories: "@ + decimal(
        o.memory_count as nat,
    ) + "\n- concepts: "@ + decimal(o.concept_count as nat) + "\n- links: "@ + decimal(
        o.link_count as nat,
    ) + "\n- turns: "@ + decimal(o.turn_count as nat) + "\n- filtered: "@ + decimal(
        o.filtered_count as nat,
    ) + " ("@ + decimal(o.secret_filtered_count as nat) + " secret)\n"@
}

/// What came of it, in one line.
pub open spec fn ingest_line(o: IngestSessionOutput) -> Seq<char> {
    "ok queued:"@ + bool_text(o.queued) + " memories:"@ + decimal(o.memory_count as nat)
        + " concepts:"@ + decimal(o.concept_count as nat) + " links:"@ + decimal(
        o.link_count as nat,
    ) + " artifact:"@ + text_or(o.artifact_id, "-"@) + " episode:"@ + text_or(o.episode_id, "-"@)
}

impl IngestSessionOutput {
    /// What came of it, as a list.
    pub fn to_markdown(&self) -> (r: String)
        ensures
            r@ == ingest_list(*self),
    {
        let mut s: String = "**Ingested session**\n\n- queued: ".to_owned();
        push_bool(&mut s, self.queued);
        s.append("\n- artifact: ");
        push_or(&mut s, &self.artifact_id, "-");
        s.append("\n- episode: ");
        push_or(&mut s, &self.episode_id, "-");
        s.append("\n- memories: ");
        push_decimal(&mut s, self.memory_count as u64);
        s.append("\n- concepts: ");
        push_decimal(&mut s, self.concept_count as u64);
        s.append("\n- links: ");
        push_decimal(&mut s, self.link_count as u64);
        s.append("\n- turns: ");
        push_decimal(&mut s, self.turn_count as u64);
        s.append("\n- filtered: ");
        push_decimal(&mut s, self.filtered_count as u64);
        s.append(" (");
        push_decimal(&mut s, self.secret_filtered_count as u64);
        s.append(" secret)\n");
        s
    }

    /// What came of it, in one line.
    pub fn to_cli_text(&self) -> (r: String)
        ensures
            r@ == ingest_line(*self),
    {
        let mut s: String = "ok queued:".to_owned();
        push_bool(&mut s, self.queued);
        s.append(" memories:");
        push_decimal(&mut s, self.memory_count as u64);
        s.append(" concepts:");
        push_decimal(&mut s, self.concept_count as u64);
        s.append(" links:");
        push_decimal(&mut s, self.link_count as u64);
        s.append(" artifact:");
        push_or(&mut s, &self.artifact_id, "-");
        s.append(" episode:");
        push_or(&mut s, &self.episode_id, "-");
        s
    }
}

} // verus!
