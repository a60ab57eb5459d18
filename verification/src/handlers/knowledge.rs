//! Memoirs, their concepts and the links between them.

use crate::concept_summary::gate::{
    ConceptSummaryDecision, SummaryBucket, decide_concept_summary_quality, decision,
};
use crate::concept_summary::refresh::ConceptSummaryOutcome;
use crate::error::{OpsError, bad_request, is_bad_request, is_not_found, not_found};
use crate::handlers::memory::{bounded_limit, is_stamp, limit_or, stamp_of};
use crate::handlers::timeline::stamp;
use crate::json::{json_members, parse_members};
use crate::text::{
    ascii_lower, decimal, join, join_strings, list_items, push_decimal, split_list, split_on,
    str_eq, text_or, texts, to_ascii_lower,
};
use crate::time::{Timestamp, to_rfc3339};
use crate::types::{Concept, ConceptLink, Memoir, opt_text};
use vstd::prelude::*;
use vstd::string::*;

verus! {

/// Listing memoirs takes nothing.
#[derive(Clone, Debug, Default)]
pub struct MemoirListParams {}

/// All memoirs.
#[derive(Clone, Debug)]
pub struct MemoirListOutput {
    pub memoirs: Vec<Memoir>,
    pub compact: bool,
}

/// A memoir in the list.
pub open spec fn memoir_line(m: Memoir, compact: bool) -> Seq<char> {
    if compact {
        m.name@ + ":"@ + m.description@ + "\n"@
    } else {
        "- "@ + m.name@ + " — "@ + m.description@ + "\n"@
    }
}

/// Memoirs in the list, one after another.
pub open spec fn memoir_lines(v: Seq<Memoir>, compact: bool) -> Seq<char>
    decreases v.len(),
{
    if v.len() == 0 {
        Seq::empty()
    } else {
        memoir_lines(v.drop_last(), compact) + memoir_line(v.last(), compact)
    }
}

/// The list in words.
pub open spec fn memoir_list_text(o: MemoirListOutput) -> Seq<char> {
    if o.memoirs@.len() == 0 {
        if o.compact {
            "none"@
        } else {
            "No memoirs found."@
        }
    } else {
        memoir_lines(o.memoirs@, o.compact)
    }
}

fn memoir_line_of(m: &Memoir, compact: bool) -> (r: String)
    ensures
        r@ == memoir_line(*m, compact),
{
    let mut s: String = String::new();
    if !compact {
        s.append("- ");
    }
    s.append(m.name.as_str());
    if compact {
        s.append(":");
    } else {
        s.append(" — ");
    }
    s.append(m.description.as_str());
    s.append("\n");
    assert(s@ =~= memoir_line(*m, compact));
    s
}

impl MemoirListOutput {
    /// The list in words.
    pub fn to_markdown(&self) -> (r: String)
        ensures
            r@ == memoir_list_text(*self),
    {
        if self.memoirs.len() == 0 {
            return if self.compact {
                "none".to_owned()
            } else {
                "No memoirs found.".to_owned()
            };
        }
        let mut s: String = String::new();
        let mut i: usize = 0;
        assert(s@ =~= memoir_lines(self.memoirs@.take(0), self.compact));
        while i < self.memoirs.len()
            invariant
                i <= self.memoirs@.len(),
                s@ == memoir_lines(self.memoirs@.take(i as int), self.compact),
            decreases self.memoirs@.len() - i,
        {
            assert(self.memoirs@.take(i + 1).drop_last() =~= self.memoirs@.take(i as int));
            s.append(memoir_line_of(&self.memoirs[i], self.compact).as_str());
            i = i + 1;
        }
        assert(self.memoirs@.take(i as int) =~= self.memoirs@);
        s
    }

    /// The list in words.
    pub fn to_cli_text(&self) -> (r: String)
        ensures
            r@ == memoir_list_text(*self),
    {
        self.to_markdown()
    }
}

/// Which memoir is shown.
#[derive(Clone, Debug, Default)]
pub struct MemoirShowParams {
    pub name: String,
}

/// The body of an answer in JSON.
#[derive(Clone, Debug)]
pub enum JsonBody {
    /// A text that is JSON and stands for itself.
    Parsed(String),
    /// A text that is not JSON, to be wrapped as the member `raw` of an object.
    Raw(String),
}

/// Whether a body is the one for a text.
pub open spec fn is_body_of(b: JsonBody, text: Seq<char>) -> bool {
    match b {
        JsonBody::Parsed(s) => s@ == text && json_members(text) is Some,
        JsonBody::Raw(s) => s@ == text && json_members(text) is None,
    }
}

/// The body for a text.
pub fn json_body(text: &str) -> (r: JsonBody)
    ensures
        is_body_of(r, text@),
{
    match parse_members(text) {
        Some(_) => JsonBody::Parsed(text.to_owned()),
        None => JsonBody::Raw(text.to_owned()),
    }
}

/// A memoir with all it holds, drawn and in JSON.
#[derive(Clone, Debug)]
pub struct MemoirShowOutput {
    pub memoir: Memoir,
    pub ascii: String,
    pub json_value: JsonBody,
    pub compact: bool,
}

/// A memoir in words.
pub open spec fn memoir_text(o: MemoirShowOutput) -> Seq<char> {
    if o.compact {
        o.ascii@
    } else {
        "Memoir: "@ + o.memoir.name@ + " — "@ + o.memoir.description@ + "\n\n"@ + o.ascii@
    }
}

impl MemoirShowOutput {
    /// A memoir in words.
    pub fn to_markdown(&self) -> (r: String)
        ensures
            r@ == memoir_text(*self),
    {
        if self.compact {
            return self.ascii.clone();
        }
        let mut s: String = "Memoir: ".to_owned();
        s.append(self.memoir.name.as_str());
        s.append(" — ");
        s.append(self.memoir.description.as_str());
        s.append("\n\n");
        s.append(self.ascii.as_str());
        s
    }

    /// A memoir in words.
    pub fn to_cli_text(&self) -> (r: String)
        ensures
            r@ == memoir_text(*self),
    {
        self.to_markdown()
    }
}

/// Whether `r` is the memoir that was found, or says that there is none of this name.
pub open spec fn is_found(r: Result<Memoir, OpsError>, name: Seq<char>, memoir: Option<Memoir>) -> bool {
    match memoir {
        Some(m) => r == Ok::<Memoir, OpsError>(m),
        None => r matches Err(e) && is_not_found(e, "memoir '"@ + name + "' not found"@),
    }
}

/// A memoir that was looked up under its name, or that there is none.
pub fn found_memoir(params: &MemoirShowParams, memoir: Option<Memoir>) -> (r: Result<
    Memoir,
    OpsError,
>)
    ensures
        is_found(r, params.name@, memoir),
{
    match memoir {
        Some(m) => Ok(m),
        None => {
            let mut s: String = "memoir '".to_owned();
            s.append(params.name.as_str());
            s.append("' not found");
            Err(not_found(s))
        },
    }
}

/// A memoir from its two exports.
pub fn memoir_show(memoir: Memoir, ascii: String, json: &str, compact: bool) -> (r: MemoirShowOutput)
    ensures
        r.memoir == memoir,
        r.ascii == ascii,
        is_body_of(r.json_value, json@),
        r.compact == compact,
{
    MemoirShowOutput { memoir, ascii, json_value: json_body(json), compact }
}

/// Which memoir is exported, and how.
#[derive(Clone, Debug, Default)]
pub struct MemoirExportParams {
    pub name: String,
    /// `json`, `ascii` or `dot`; `json` where nothing is said.
    pub format: Option<String>,
}

/// The memoir that is asked for: by its name, or by what older callers call it.
pub open spec fn asked_memoir(name: Option<String>, memoir: Option<String>) -> Option<String> {
    match name {
        Some(n) => Some(n),
        None => memoir,
    }
}

impl MemoirExportParams {
    /// The parameters as a caller sends them: the name may come as `name` or, as
    /// it did once, as `memoir`; `name` wins. `None` where there is neither.
    pub fn from_wire(
        name: Option<String>,
        memoir: Option<String>,
        format: Option<String>,
    ) -> (r: Option<MemoirExportParams>)
        ensures
            match asked_memoir(name, memoir) {
                Some(n) => r == Some(MemoirExportParams { name: n, format }),
                None => r is None,
            },
    {
        match (name, memoir) {
            (Some(n), _) => Some(MemoirExportParams { name: n, format }),
            (None, Some(m)) => Some(MemoirExportParams { name: m, format }),
            (None, None) => None,
        }
    }
}

/// The format asked for, in lower case; `json` where nothing is said.
pub open spec fn wanted_format(format: Option<String>) -> Seq<char> {
    match format {
        Some(s) => ascii_lower(s@),
        None => "json"@,
    }
}

/// Whether there is such a format.
pub open spec fn is_export_format(format: Seq<char>) -> bool {
    format == "json"@ || format == "ascii"@ || format == "dot"@
}

/// Whether `r` is the format of an export: the one asked for, if there is such a one.
pub open spec fn is_format_choice(r: Result<String, OpsError>, format: Option<String>) -> bool {
    if is_export_format(wanted_format(format)) {
        r matches Ok(s) && s@ == wanted_format(format)
    } else {
        r matches Err(e) && is_bad_request(
            e,
            "invalid export format '"@ + wanted_format(format)
                + "' (expected one of: json, ascii, dot)"@,
        )
    }
}

/// The format of an export, or that there is no such format.
pub fn export_format(params: &MemoirExportParams) -> (r: Result<String, OpsError>)
    ensures
        is_format_choice(r, params.format),
{
    let format: String = match &params.format {
        Some(s) => to_ascii_lower(s.as_str()),
        None => "json".to_owned(),
    };
    if str_eq(format.as_str(), "json") || str_eq(format.as_str(), "ascii") || str_eq(
        format.as_str(),
        "dot",
    ) {
        Ok(format)
    } else {
        let mut s: String = "invalid export format '".to_owned();
        s.append(format.as_str());
        s.append("' (expected one of: json, ascii, dot)");
        Err(bad_request(s))
    }
}

/// A memoir as it was exported.
#[derive(Clone, Debug)]
pub struct MemoirExportOutput {
    pub format: String,
    pub output: String,
}

/// Whether an export is handed out as plain text, not as JSON.
pub open spec fn is_plain_format(format: Seq<char>) -> bool {
    format == "ascii"@ || format == "dot"@
}

impl MemoirExportOutput {
    /// The body of an answer in JSON.
    pub fn to_json(&self) -> (r: JsonBody)
        ensures
            is_body_of(r, self.output@),
    {
        json_body(self.output.as_str())
    }

    /// The type and the bytes of an answer that is not JSON: drawings and graphs
    /// are plain text.
    pub fn to_raw_response(&self) -> (r: Option<(&'static str, Vec<u8>)>)
        ensures
            if is_plain_format(self.format@) {
                r matches Some(p) && p.0@ == "text/plain"@ && p.1@ == vstd::utf8::encode_utf8(
                    self.output@,
                )
            } else {
                r is None
            },
    {
        if str_eq(self.format.as_str(), "ascii") || str_eq(self.format.as_str(), "dot") {
            Some(("text/plain", self.output.as_str().as_bytes_vec()))
        } else {
            None
        }
    }

    /// The export as it is.
    pub fn to_markdown(&self) -> (r: String)
        ensures
            r@ == self.output@,
    {
        self.output.clone()
    }

    /// The export as it is.
    pub fn to_cli_text(&self) -> (r: String)
        ensures
            r@ == self.output@,
    {
        self.output.clone()
    }
}

/// Which concept is looked at, and how far around it.
#[derive(Clone, Debug, Default)]
pub struct MemoirInspectParams {
    pub memoir: String,
    pub name: String,
    pub depth: Option<usize>,
}

/// Steps from a concept that an inspection goes: one where nothing is said, five at
/// most.
pub open spec fn depth_bound(depth: Option<usize>) -> usize {
    limit_or(depth, 1, 5)
}

/// How far around a concept is looked: one step unless another number is asked
/// for, five at most.
pub fn inspect_depth(params: &MemoirInspectParams) -> (r: usize)
    ensures
        r == depth_bound(params.depth),
{
    bounded_limit(params.depth, 1, 5)
}

/// A concept as it is listed.
#[derive(Clone, Debug)]
pub struct ConceptCard {
    pub name: String,
    pub definition: String,
    pub revision: u32,
    /// As shown, with one digit behind the point.
    pub confidence: String,
}

/// A concept and what is around it.
#[derive(Clone, Debug)]
pub struct MemoirInspectOutput {
    pub center: ConceptCard,
    pub neighbors: Vec<ConceptCard>,
    pub links: Vec<ConceptLink>,
    pub compact: bool,
}

/// A concept in short.
pub open spec fn short_concept(label: Seq<char>, c: ConceptCard) -> Seq<char> {
    label + c.name@ + ":c"@ + c.confidence@ + ":r"@ + decimal(c.revision as nat) + "\n"@
}

/// A neighbour in the list.
pub open spec fn neighbor_line(c: ConceptCard, compact: bool) -> Seq<char> {
    if compact {
        short_concept("neighbor:"@, c)
    } else {
        "  - "@ + c.name@ + " (conf:"@ + c.confidence@ + ", rev:"@ + decimal(c.revision as nat)
            + ") — "@ + c.definition@ + "\n"@
    }
}

/// A link in the list.
pub open spec fn link_line(l: ConceptLink, compact: bool) -> Seq<char> {
    if compact {
        "link:"@ + l.source_id@ + "->"@ + l.target_id@ + ":"@ + l.relation@ + "\n"@
    } else {
        "  "@ + l.source_id@ + " --"@ + l.relation@ + "-> "@ + l.target_id@ + "\n"@
    }
}

/// Neighbours in the list, one after another.
pub open spec fn neighbor_lines(v: Seq<ConceptCard>, compact: bool) -> Seq<char>
    decreases v.len(),
{
    if v.len() == 0 {
        Seq::empty()
    } else {
        neighbor_lines(v.drop_last(), compact) + neighbor_line(v.last(), compact)
    }
}

/// Links in the list, one after another.
pub open spec fn link_lines(v: Seq<ConceptLink>, compact: bool) -> Seq<char>
    decreases v.len(),
{
    if v.len() == 0 {
        Seq::empty()
    } else {
        link_lines(v.drop_last(), compact) + link_line(v.last(), compact)
    }
}

/// A heading, unless there is nothing under it or the output is compact.
pub open spec fn heading(s: Seq<char>, n: nat, compact: bool) -> Seq<char> {
    if compact || n == 0 {
        Seq::empty()
    } else {
        s
    }
}

/// A concept and what is around it, in words.
pub open spec fn inspect_text(o: MemoirInspectOutput) -> Seq<char> {
    let center = if o.compact {
        short_concept("center:"@, o.center)
    } else {
        "Center: "@ + o.center.name@ + " (conf:"@ + o.center.confidence@ + ", rev:"@ + decimal(
            o.center.revision as nat,
        ) + ")\n  "@ + o.center.definition@ + "\n\n"@
    };
    center + heading("Neighbors:\n"@, o.neighbors@.len(), o.compact) + neighbor_lines(
        o.neighbors@,
        o.compact,
    ) + heading("\nLinks:\n"@, o.links@.len(), o.compact) + link_lines(o.links@, o.compact)
}

fn short_concept_of(label: &str, c: &ConceptCard) -> (r: String)
    ensures
        r@ == short_concept(label@, *c),
{
    let mut s: String = label.to_owned();
    s.append(c.name.as_str());
    s.append(":c");
    s.append(c.confidence.as_str());
    s.append(":r");
    push_decimal(&mut s, c.revision as u64);
    s.append("\n");
    s
}

fn neighbor_line_of(c: &ConceptCard, compact: bool) -> (r: String)
    ensures
        r@ == neighbor_line(*c, compact),
{
    if compact {
        return short_concept_of("neighbor:", c);
    }
    let mut s: String = "  - ".to_owned();
    s.append(c.name.as_str());
    s.append(" (conf:");
    s.append(c.confidence.as_str());
    s.append(", rev:");
    push_decimal(&mut s, c.revision as u64);
    s.append(") — ");
    s.append(c.definition.as_str());
    s.append("\n");
    s
}

fn link_line_of(l: &ConceptLink, compact: bool) -> (r: String)
    ensures
        r@ == link_line(*l, compact),
{
    if compact {
        let mut s: String = "link:".to_owned();
        s.append(l.source_id.as_str());
        s.append("->");
        s.append(l.target_id.as_str());
        s.append(":");
        s.append(l.relation.as_str());
        s.append("\n");
        return s;
    }
    let mut s: String = "  ".to_owned();
    s.append(l.source_id.as_str());
    s.append(" --");
    s.append(l.relation.as_str());
    s.append("-> ");
    s.append(l.target_id.as_str());
    s.append("\n");
    s
}

fn neighbor_lines_of(v: &Vec<ConceptCard>, compact: bool) -> (r: String)
    ensures
        r@ == neighbor_lines(v@, compact),
{
    let mut s: String = String::new();
    let mut i: usize = 0;
    assert(s@ =~= neighbor_lines(v@.take(0), compact));
    while i < v.len()
        invariant
            i <= v@.len(),
            s@ == neighbor_lines(v@.take(i as int), compact),
        decreases v@.len() - i,
    {
        assert(v@.take(i + 1).drop_last() =~= v@.take(i as int));
        s.append(neighbor_line_of(&v[i], compact).as_str());
        i = i + 1;
    }
    assert(v@.take(i as int) =~= v@);
    s
}

fn link_lines_of(v: &Vec<ConceptLink>, compact: bool) -> (r: String)
    ensures
        r@ == link_lines(v@, compact),
{
    let mut s: String = String::new();
    let mut i: usize = 0;
    assert(s@ =~= link_lines(v@.take(0), compact));
    while i < v.len()
        invariant
            i <= v@.len(),
            s@ == link_lines(v@.take(i as int), compact),
        decreases v@.len() - i,
    {
        assert(v@.take(i + 1).drop_last() =~= v@.take(i as int));
        s.append(link_line_of(&v[i], compact).as_str());
        i = i + 1;
    }
    assert(v@.take(i as int) =~= v@);
    s
}

fn heading_of(s: &str, n: usize, compact: bool) -> (r: String)
    ensures
        r@ == heading(s@, n as nat, compact),
{
    if compact || n == 0 {
        String::new()
    } else {
        s.to_owned()
    }
}

impl MemoirInspectOutput {
    /// A concept and what is around it, in words.
    pub fn to_markdown(&self) -> (r: String)
        ensures
            r@ == inspect_text(*self),
    {
        let mut s: String;
        if self.compact {
            s = short_concept_of("center:", &self.center);
        } else {
            s = "Center: ".to_owned();
            s.append(self.center.name.as_str());
            s.append(" (conf:");
            s.append(self.center.confidence.as_str());
            s.append(", rev:");
            push_decimal(&mut s, self.center.revision as u64);
            s.append(")\n  ");
            s.append(self.center.definition.as_str());
            s.append("\n\n");
        }
        s.append(heading_of("Neighbors:\n", self.neighbors.len(), self.compact).as_str());
        s.append(neighbor_lines_of(&self.neighbors, self.compact).as_str());
        s.append(heading_of("\nLinks:\n", self.links.len(), self.compact).as_str());
        s.append(link_lines_of(&self.links, self.compact).as_str());
        s
    }

    /// A concept and what is around it, in words.
    pub fn to_cli_text(&self) -> (r: String)
        ensures
            r@ == inspect_text(*self),
    {
        self.to_markdown()
    }
}

/// What is searched for in one memoir.
#[derive(Clone, Debug, Default)]
pub struct MemoirSearchParams {
    pub memoir: String,
    pub query: String,
    pub limit: Option<usize>,
}

/// What is searched for in all memoirs.
#[derive(Clone, Debug, Default)]
pub struct MemoirSearchAllParams {
    pub query: String,
    pub limit: Option<usize>,
}

/// Concepts that a search shows: ten where nothing is said, a hundred at most.
pub open spec fn search_bound(limit: Option<usize>) -> usize {
    limit_or(limit, 10, 100)
}

/// How many concepts a search fetches: 10 unless another number is asked for,
/// 100 at most.
pub fn search_limit(limit: Option<usize>) -> (r: usize)
    ensures
        r == search_bound(limit),
{
    bounded_limit(limit, 10, 100)
}

/// The concepts that were found.
#[derive(Clone, Debug)]
pub struct ConceptSearchOutput {
    pub concepts: Vec<ConceptCard>,
    pub compact: bool,
}

/// A concept in the list of what was found.
pub open spec fn concept_line(c: ConceptCard, compact: bool) -> Seq<char> {
    if compact {
        c.name@ + ":"@ + c.definition@ + ":r"@ + decimal(c.revision as nat) + ":c"@ + c.confidence@
            + "\n"@
    } else {
        "- "@ + c.name@ + " (rev:"@ + decimal(c.revision as nat) + ", conf:"@ + c.confidence@
            + ") — "@ + c.definition@ + "\n"@
    }
}

/// Concepts in the list, one after another.
pub open spec fn concept_lines(v: Seq<ConceptCard>, compact: bool) -> Seq<char>
    decreases v.len(),
{
    if v.len() == 0 {
        Seq::empty()
    } else {
        concept_lines(v.drop_last(), compact) + concept_line(v.last(), compact)
    }
}

/// What was found, in words.
pub open spec fn concept_search_text(o: ConceptSearchOutput) -> Seq<char> {
    if o.concepts@.len() == 0 {
        if o.compact {
            "none"@
        } else {
            "No concepts found."@
        }
    } else {
        concept_lines(o.concepts@, o.compact)
    }
}

fn concept_line_of(c: &ConceptCard, compact: bool) -> (r: String)
    ensures
        r@ == concept_line(*c, compact),
{
    if compact {
        let mut s: String = c.name.clone();
        s.append(":");
        s.append(c.definition.as_str());
        s.append(":r");
        push_decimal(&mut s, c.revision as u64);
        s.append(":c");
        s.append(c.confidence.as_str());
        s.append("\n");
        return s;
    }
    let mut s: String = "- ".to_owned();
    s.append(c.name.as_str());
    s.append(" (rev:");
    push_decimal(&mut s, c.revision as u64);
    s.append(", conf:");
    s.append(c.confidence.as_str());
    s.append(") — ");
    s.append(c.definition.as_str());
    s.append("\n");
    s
}

impl ConceptSearchOutput {
    /// What was found, in words.
    pub fn to_markdown(&self) -> (r: String)
        ensures
            r@ == concept_search_text(*self),
    {
        if self.concepts.len() == 0 {
            return if self.compact {
                "none".to_owned()
            } else {
                "No concepts found.".to_owned()
            };
        }
        let mut s: String = String::new();
        let mut i: usize = 0;
        assert(s@ =~= concept_lines(self.concepts@.take(0), self.compact));
        while i < self.concepts.len()
            invariant
                i <= self.concepts@.len(),
                s@ == concept_lines(self.concepts@.take(i as int), self.compact),
            decreases self.concepts@.len() - i,
        {
            assert(self.concepts@.take(i + 1).drop_last() =~= self.concepts@.take(i as int));
            s.append(concept_line_of(&self.concepts[i], self.compact).as_str());
            i = i + 1;
        }
        assert(self.concepts@.take(i as int) =~= self.concepts@);
        s
    }

    /// What was found, in words.
    pub fn to_cli_text(&self) -> (r: String)
        ensures
            r@ == concept_search_text(*self),
    {
        self.to_markdown()
    }
}

/// A memoir to make.
#[derive(Clone, Debug, Default)]
pub struct MemoirCreateParams {
    pub name: String,
    pub description: Option<String>,
}

/// The memoir that was made.
#[derive(Clone, Debug)]
pub struct MemoirCreateOutput {
    pub id: String,
    pub name: String,
    pub compact: bool,
}

/// Whether `r` is a new memoir, with an id still to be given.
pub open spec fn is_new_memoir(r: Memoir, params: MemoirCreateParams, now: Timestamp) -> bool {
    &&& r.id@.len() == 0
    &&& r.name == params.name
    &&& r.description@ == text_or(params.description, Seq::empty())
    &&& r.created_at == now
    &&& r.updated_at == now
}

/// The new memoir, before the store has given it an id.
pub fn memoir_create(params: MemoirCreateParams, now: &Timestamp) -> (r: Memoir)
    ensures
        is_new_memoir(r, params, *now),
{
    let description: String = match params.description {
        Some(s) => s,
        None => String::new(),
    };
    assert(description@ =~= text_or(params.description, Seq::empty()));
    Memoir {
        id: String::new(),
        name: params.name,
        description,
        created_at: *now,
        updated_at: *now,
    }
}

/// What is said of a new memoir.
pub open spec fn created_text(o: MemoirCreateOutput) -> Seq<char> {
    if o.compact {
        "ok:"@ + o.id@
    } else {
        "Created memoir '"@ + o.name@ + "': "@ + o.id@
    }
}

impl MemoirCreateOutput {
    /// What was made, in words.
    pub fn to_markdown(&self) -> (r: String)
        ensures
            r@ == created_text(*self),
    {
        if self.compact {
            let mut s: String = "ok:".to_owned();
            s.append(self.id.as_str());
            return s;
        }
        let mut s: String = "Created memoir '".to_owned();
        s.append(self.name.as_str());
        s.append("': ");
        s.append(self.id.as_str());
        s
    }

    /// What was made, in words.
    pub fn to_cli_text(&self) -> (r: String)
        ensures
            r@ == created_text(*self),
    {
        self.to_markdown()
    }
}

/// A concept to add.
#[derive(Clone, Debug, Default)]
pub struct ConceptAddParams {
    pub memoir: String,
    pub name: String,
    pub definition: String,
    /// Separated by commas.
    pub labels: Option<String>,
}

/// The concept that was added.
#[derive(Clone, Debug)]
pub struct ConceptAddOutput {
    pub id: String,
    pub name: String,
    pub memoir: String,
    pub compact: bool,
}

/// The labels of a new concept.
pub open spec fn label_list(labels: Option<String>) -> Seq<Seq<char>> {
    match labels {
        Some(s) => list_items(split_on(s@, ',')),
        None => Seq::empty(),
    }
}

/// Whether `r` is a new concept: in its first revision, with no summary and no source,
/// and with an id still to be given.
pub open spec fn is_new_concept(r: Concept, params: ConceptAddParams, now: Timestamp) -> bool {
    &&& r.id@.len() == 0
    &&& r.memoir_id@ == params.memoir@
    &&& r.name@ == params.name@
    &&& r.definition@ == params.definition@
    &&& texts(r.labels@) == label_list(params.labels)
    &&& r.source_memory_ids@.len() == 0
    &&& r.revision == 1
    &&& r.last_episode_id is None
    &&& r.created_at == now
    &&& r.updated_at == now
    &&& r.living_summary is None
    &&& r.living_summary_updated_at is None
    &&& r.living_summary_source_revision is None
    &&& r.living_summary_id is None
}

/// The new concept, before the store has given it an id.
pub fn memoir_add_concept(params: &ConceptAddParams, now: &Timestamp) -> (r: Concept)
    ensures
        is_new_concept(r, *params, *now),
{
    let labels: Vec<String> = match &params.labels {
        Some(s) => split_list(s.as_str()),
        None => Vec::new(),
    };
    assert(texts(labels@) =~= label_list(params.labels));
    Concept {
        id: String::new(),
        memoir_id: params.memoir.clone(),
        name: params.name.clone(),
        definition: params.definition.clone(),
        labels,
        source_memory_ids: Vec::new(),
        revision: 1,
        last_episode_id: None,
        created_at: *now,
        updated_at: *now,
        living_summary: None,
        living_summary_updated_at: None,
        living_summary_source_revision: None,
        living_summary_id: None,
    }
}

/// What is said of a new concept.
pub open spec fn added_text(o: ConceptAddOutput) -> Seq<char> {
    if o.compact {
        "ok:"@ + o.id@
    } else {
        "Added concept '"@ + o.name@ + "' to memoir '"@ + o.memoir@ + "': "@
            + o.id@
    }
}

impl ConceptAddOutput {
    /// What was added, in words.
    pub fn to_markdown(&self) -> (r: String)
        ensures
            r@ == added_text(*self),
    {
        if self.compact {
            let mut s: String = "ok:".to_owned();
            s.append(self.id.as_str());
            return s;
        }
        let mut s: String = "Added concept '".to_owned();
        s.append(self.name.as_str());
        s.append("' to memoir '");
        s.append(self.memoir.as_str());
        s.append("': ");
        s.append(self.id.as_str());
        s
    }

    /// What was added, in words.
    pub fn to_cli_text(&self) -> (r: String)
        ensures
            r@ == added_text(*self),
    {
        self.to_markdown()
    }
}

/// A concept that gets a new definition.
#[derive(Clone, Debug, Default)]
pub struct ConceptRefineParams {
    pub memoir: String,
    pub name: String,
    pub definition: String,
}

/// The concept that got it.
#[derive(Clone, Debug)]
pub struct ConceptRefineOutput {
    pub name: String,
    pub memoir: String,
    pub compact: bool,
}

/// What is said of a refined concept.
pub open spec fn refined_text(o: ConceptRefineOutput) -> Seq<char> {
    if o.compact {
        "ok:"@ + o.name@
    } else {
        "Refined concept '"@ + o.name@ + "' in memoir '"@ + o.memoir@ + "'"@
    }
}

impl ConceptRefineOutput {
    /// What was refined, in words.
    pub fn to_markdown(&self) -> (r: String)
        ensures
            r@ == refined_text(*self),
    {
        if self.compact {
            let mut s: String = "ok:".to_owned();
            s.append(self.name.as_str());
            return s;
        }
        let mut s: String = "Refined concept '".to_owned();
        s.append(self.name.as_str());
        s.append("' in memoir '");
        s.append(self.memoir.as_str());
        s.append("'");
        s
    }

    /// What was refined, in words.
    pub fn to_cli_text(&self) -> (r: String)
        ensures
            r@ == refined_text(*self),
    {
        self.to_markdown()
    }
}

/// Two concepts of one memoir to link.
#[derive(Clone, Debug, Default)]
pub struct LinkParams {
    pub memoir: String,
    pub from: String,
    pub to: String,
    pub relation: String,
}

/// The link that was made.
#[derive(Clone, Debug)]
pub struct LinkOutput {
    pub id: String,
    pub from: String,
    pub to: String,
    pub relation: String,
    pub compact: bool,
}

/// That a memoir has no such concept.
pub open spec fn missing_concept(name: Seq<char>, memoir: Seq<char>) -> Seq<char> {
    "concept '"@ + name + "' not found in memoir '"@ + memoir + "'"@
}

fn refuse_concept(name: &str, memoir: &str) -> (e: OpsError)
    ensures
        is_not_found(e, missing_concept(name@, memoir@)),
{
    let mut s: String = "concept '".to_owned();
    s.append(name);
    s.append("' not found in memoir '");
    s.append(memoir);
    s.append("'");
    not_found(s)
}

/// The relation of a link, or why it is refused. `parsed` is what reading the
/// name of the relation gave.
pub fn link_relation(parsed: Result<String, String>) -> (r: Result<String, OpsError>)
    ensures
        match parsed {
            Ok(relation) => r == Ok::<String, OpsError>(relation),
            Err(message) => r matches Err(e) && is_bad_request(e, message@),
        },
{
    match parsed {
        Ok(relation) => Ok(relation),
        Err(message) => Err(bad_request(message)),
    }
}

/// Whether `r` is a new link between the two concepts that were found under the names
/// asked for; one that is missing is named, the first before the second.
pub open spec fn is_new_link(
    r: Result<ConceptLink, OpsError>,
    params: LinkParams,
    relation: String,
    from: Option<String>,
    to: Option<String>,
    now: Timestamp,
) -> bool {
    match (from, to) {
        (None, _) => r matches Err(e) && is_not_found(
            e,
            missing_concept(params.from@, params.memoir@),
        ),
        (Some(f), None) => r matches Err(e) && is_not_found(
            e,
            missing_concept(params.to@, params.memoir@),
        ),
        (Some(f), Some(t)) => r matches Ok(l) && l.id@.len() == 0 && l.source_id == f && l.target_id
            == t && l.relation == relation && l.created_at == now && l.valid_from is None
            && l.valid_until is None,
    }
}

/// The new link, before the store has given it an id. `from` and `to` are the
/// ids of the two concepts, where the memoir has them.
pub fn memoir_link(
    params: &LinkParams,
    relation: String,
    from: Option<String>,
    to: Option<String>,
    now: &Timestamp,
) -> (r: Result<ConceptLink, OpsError>)
    ensures
        is_new_link(r, *params, relation, from, to, *now),
{
    let source_id: String = match from {
        Some(f) => f,
        None => return Err(refuse_concept(params.from.as_str(), params.memoir.as_str())),
    };
    let target_id: String = match to {
        Some(t) => t,
        None => return Err(refuse_concept(params.to.as_str(), params.memoir.as_str())),
    };
    Ok(
        ConceptLink {
            id: String::new(),
            source_id,
            target_id,
            relation,
            created_at: *now,
            valid_from: None,
            valid_until: None,
        },
    )
}

/// What is said of a new link.
pub open spec fn linked_text(o: LinkOutput) -> Seq<char> {
    if o.compact {
        "ok:"@ + o.id@
    } else {
        "Linked '"@ + o.from@ + "' --"@ + o.relation@ + "-> '"@ + o.to@ + "': "@
            + o.id@
    }
}

impl LinkOutput {
    /// What was linked, in words.
    pub fn to_markdown(&self) -> (r: String)
        ensures
            r@ == linked_text(*self),
    {
        if self.compact {
            let mut s: String = "ok:".to_owned();
            s.append(self.id.as_str());
            return s;
        }
        let mut s: String = "Linked '".to_owned();
        s.append(self.from.as_str());
        s.append("' --");
        s.append(self.relation.as_str());
        s.append("-> '");
        s.append(self.to.as_str());
        s.append("': ");
        s.append(self.id.as_str());
        s
    }

    /// What was linked, in words.
    pub fn to_cli_text(&self) -> (r: String)
        ensures
            r@ == linked_text(*self),
    {
        self.to_markdown()
    }
}

/// Which concept is fetched, and for which kind of query.
#[derive(Clone, Debug, Default)]
pub struct ConceptStateParams {
    pub concept_id: String,
    /// Where both the type of query and its cluster are given, the quality of the
    /// living summary decides whether it is shown; else it is always shown.
    pub query_type: Option<String>,
    pub cluster_id: Option<i64>,
}

/// A concept with its living summary.
#[derive(Clone, Debug)]
pub struct ConceptStateOutput {
    pub id: String,
    pub memoir_id: String,
    pub name: String,
    pub definition: String,
    pub revision: u32,
    pub last_episode_id: Option<String>,
    pub living_summary: Option<String>,
    pub living_summary_updated_at: Option<String>,
    pub living_summary_source_revision: Option<u32>,
    pub created_at: String,
    pub updated_at: String,
    /// Whether there is a living summary that is not shown.
    pub living_summary_suppressed: bool,
    /// The cluster that most source memories are in.
    pub cluster_id: Option<i64>,
}

/// How often a number occurs.
pub open spec fn tally(v: Seq<i64>, x: i64) -> nat
    decreases v.len(),
{
    if v.len() == 0 {
        0
    } else {
        tally(v.drop_last(), x) + if v.last() == x {
            1nat
        } else {
            0nat
        }
    }
}

/// Whether a number occurs at least as often as every other; `None` where there
/// are no numbers.
pub open spec fn is_mode(r: Option<i64>, v: Seq<i64>) -> bool {
    match r {
        Some(x) => v.contains(x) && forall|y: i64| #[trigger] tally(v, y) <= tally(v, x),
        None => v.len() == 0,
    }
}

fn count(v: &Vec<i64>, x: i64) -> (r: usize)
    ensures
        r == tally(v@, x),
{
    let mut n: usize = 0;
    let mut i: usize = 0;
    assert(v@.take(0) =~= Seq::<i64>::empty());
    while i < v.len()
        invariant
            i <= v@.len(),
            n <= i,
            n == tally(v@.take(i as int), x),
        decreases v@.len() - i,
    {
        assert(v@.take(i + 1).drop_last() =~= v@.take(i as int));
        if v[i] == x {
            n = n + 1;
        }
        i = i + 1;
    }
    assert(v@.take(i as int) =~= v@);
    n
}

proof fn lemma_absent(v: Seq<i64>, x: i64)
    requires
        !v.contains(x),
    ensures
        tally(v, x) == 0,
    decreases v.len(),
{
    if v.len() > 0 {
        assert forall|i: int| 0 <= i < v.drop_last().len() implies v.drop_last()[i] != x by {
            assert(v[i] != x);
        }
        lemma_absent(v.drop_last(), x);
        assert(v[v.len() - 1] != x);
    }
}

/// The cluster that most memories are in. Where several have the same number of
/// memories, any of them may be it.
pub fn representative_cluster(clusters: &Vec<i64>) -> (r: Option<i64>)
    ensures
        is_mode(r, clusters@),
{
    if clusters.len() == 0 {
        return None;
    }
    let mut best: i64 = clusters[0];
    let mut most: usize = count(clusters, best);
    let mut i: usize = 1;
    while i < clusters.len()
        invariant
            1 <= i <= clusters@.len(),
            clusters@.contains(best),
            most == tally(clusters@, best),
            forall|k: int| 0 <= k < i ==> tally(clusters@, #[trigger] clusters@[k]) <= most,
        decreases clusters@.len() - i,
    {
        let n: usize = count(clusters, clusters[i]);
        if n > most {
            best = clusters[i];
            most = n;
        }
        i = i + 1;
    }
    assert forall|y: i64| #[trigger] tally(clusters@, y) <= tally(clusters@, best) by {
        if clusters@.contains(y) {
            let k = choose|k: int| 0 <= k < clusters@.len() && clusters@[k] == y;
            assert(tally(clusters@, clusters@[k]) <= most);
        } else {
            lemma_absent(clusters@, y);
        }
    }
    Some(best)
}

/// As many `?` as there are, with commas between.
pub open spec fn placeholders(n: nat) -> Seq<char> {
    join(Seq::new(n, |i: int| "?"@), ","@)
}

/// The query for the clusters of this many memories; none for no memory.
pub open spec fn cluster_sql(memories: nat) -> Option<Seq<char>> {
    if memories == 0 {
        None
    } else {
        Some(
            "SELECT cluster_id FROM memories WHERE id IN ("@ + placeholders(memories)
                + ") AND cluster_id IS NOT NULL"@,
        )
    }
}

/// The query for the clusters of the source memories of a concept; none where it
/// has no source memories.
pub fn cluster_query(concept: &Concept) -> (r: Option<String>)
    ensures
        opt_text(r) == cluster_sql(concept.source_memory_ids@.len()),
{
    if concept.source_memory_ids.len() == 0 {
        return None;
    }
    let mut marks: Vec<String> = Vec::new();
    while marks.len() < concept.source_memory_ids.len()
        invariant
            marks@.len() <= concept.source_memory_ids@.len(),
            forall|k: int| 0 <= k < marks@.len() ==> (#[trigger] marks@[k])@ == "?"@,
        decreases concept.source_memory_ids@.len() - marks@.len(),
    {
        marks.push("?".to_owned());
    }
    assert(texts(marks@) =~= Seq::new(concept.source_memory_ids@.len(), |i: int| "?"@));
    let mut s: String = "SELECT cluster_id FROM memories WHERE id IN (".to_owned();
    s.append(join_strings(&marks, ",").as_str());
    s.append(") AND cluster_id IS NOT NULL");
    Some(s)
}

/// The clusters that count: those of the source memories, where there are any.
pub open spec fn source_clusters(c: Concept, clusters: Seq<i64>) -> Seq<i64> {
    if c.source_memory_ids@.len() == 0 {
        Seq::empty()
    } else {
        clusters
    }
}

/// Whether the living summary is shown: where the caller gives both a type of
/// query and a cluster, as its quality for them decides, and else always.
pub open spec fn summary_shown(
    params: ConceptStateParams,
    global_enabled: bool,
    buckets: Seq<SummaryBucket>,
    cold_start_n: u64,
    judge_counts: bool,
) -> bool {
    match (params.query_type, params.cluster_id) {
        (Some(query_type), Some(_)) => decision(
            global_enabled,
            params.cluster_id,
            query_type@,
            Some(buckets),
            cold_start_n,
            judge_counts,
        ) is Yes,
        _ => true,
    }
}

/// Whether an output shows a concept.
pub open spec fn shows_concept(o: ConceptStateOutput, c: Concept, shown: bool) -> bool {
    &&& o.id == c.id
    &&& o.memoir_id == c.memoir_id
    &&& o.name == c.name
    &&& o.definition == c.definition
    &&& o.revision == c.revision
    &&& o.last_episode_id == c.last_episode_id
    &&& if shown {
        o.living_summary == c.living_summary && !o.living_summary_suppressed
    } else {
        o.living_summary is None && o.living_summary_suppressed == (c.living_summary is Some)
    }
    &&& is_stamp(o.living_summary_updated_at, c.living_summary_updated_at)
    &&& o.living_summary_source_revision == c.living_summary_source_revision
    &&& o.created_at@ == stamp(c.created_at)
    &&& o.updated_at@ == stamp(c.updated_at)
}

/// Whether `r` is the state of a concept: itself, with its summary where the caller is
/// shown it, and with the cluster that most of its sources are in.
pub open spec fn is_state_of(
    r: Result<ConceptStateOutput, OpsError>,
    id: Seq<char>,
    concept: Option<Concept>,
    clusters: Seq<i64>,
    shown: bool,
) -> bool {
    match concept {
        None => r matches Err(e) && is_not_found(e, "concept '"@ + id + "' not found"@),
        Some(c) => r matches Ok(o) && is_mode(o.cluster_id, source_clusters(c, clusters))
            && shows_concept(o, c, shown),
    }
}

/// A concept as it is shown, or that there is none. `clusters` holds the
/// clusters of its source memories, one for each memory that is in one.
pub fn concept_state(
    params: &ConceptStateParams,
    concept: Option<Concept>,
    clusters: &Vec<i64>,
    global_enabled: bool,
    buckets: &Vec<SummaryBucket>,
    cold_start_n: u64,
    judge_counts: bool,
) -> (r: Result<ConceptStateOutput, OpsError>)
    ensures
        is_state_of(
            r,
            params.concept_id@,
            concept,
            clusters@,
            summary_shown(*params, global_enabled, buckets@, cold_start_n, judge_counts),
        ),
{
    let c: Concept = match concept {
        Some(c) => c,
        None => {
            let mut s: String = "concept '".to_owned();
            s.append(params.concept_id.as_str());
            s.append("' not found");
            return Err(not_found(s));
        },
    };
    let cluster_id: Option<i64> = if c.source_memory_ids.len() == 0 {
        None
    } else {
        representative_cluster(clusters)
    };
    let shown: bool = match (&params.query_type, params.cluster_id) {
        (Some(query_type), Some(_)) => match decide_concept_summary_quality(
            global_enabled,
            params.cluster_id,
            query_type.as_str(),
            Some(buckets),
            cold_start_n,
            judge_counts,
        ) {
            ConceptSummaryDecision::Yes => true,
            ConceptSummaryDecision::Skip(_) => false,
        },
        _ => true,
    };
    let living_summary_suppressed: bool = !shown && c.living_summary.is_some();
    let living_summary: Option<String> = if shown {
        c.living_summary
    } else {
        None
    };
    Ok(
        ConceptStateOutput {
            id: c.id,
            memoir_id: c.memoir_id,
            name: c.name,
            definition: c.definition,
            revision: c.revision,
            last_episode_id: c.last_episode_id,
            living_summary,
            living_summary_updated_at: stamp_of(&c.living_summary_updated_at),
            living_summary_source_revision: c.living_summary_source_revision,
            created_at: to_rfc3339(&c.created_at),
            updated_at: to_rfc3339(&c.updated_at),
            living_summary_suppressed,
            cluster_id,
        },
    )
}

/// With the feature switched off, no query that gives its type and cluster is
/// shown a living summary, however good the summaries there are.
pub proof fn law_switched_off_shows_nothing(
    params: ConceptStateParams,
    buckets: Seq<SummaryBucket>,
    cold_start_n: u64,
    judge_counts: bool,
)
    requires
        params.query_type is Some,
        params.cluster_id is Some,
    ensures
        !summary_shown(params, false, buckets, cold_start_n, judge_counts),
{
}

/// A query that gives no type or no cluster is always shown the living summary.
pub proof fn law_no_context_shows_the_summary(
    params: ConceptStateParams,
    global_enabled: bool,
    buckets: Seq<SummaryBucket>,
    cold_start_n: u64,
    judge_counts: bool,
)
    requires
        params.query_type is None || params.cluster_id is None,
    ensures
        summary_shown(params, global_enabled, buckets, cold_start_n, judge_counts),
{
}

/// When and from which revision the living summary was made.
pub open spec fn summary_note(o: ConceptStateOutput) -> Seq<char> {
    match o.living_summary_updated_at {
        Some(ts) => "_updated at "@ + ts@ + match o.living_summary_source_revision {
            Some(rev) => ", source revision r"@ + decimal(rev as nat),
            None => Seq::empty(),
        } + "_\n"@,
        None => Seq::empty(),
    }
}

/// A concept in words.
pub open spec fn concept_state_text(o: ConceptStateOutput) -> Seq<char> {
    "## "@ + o.name@ + " (r"@ + decimal(o.revision as nat) + ")\n"@ + o.definition@ + "\n"@
        + match o.living_summary {
        Some(summary) => "\n### Living summary\n"@ + summary@ + "\n"@ + summary_note(o),
        None => Seq::empty(),
    }
}

impl ConceptStateOutput {
    fn note(&self) -> (r: String)
        ensures
            r@ == summary_note(*self),
    {
        let mut s: String = String::new();
        if let Some(ts) = &self.living_summary_updated_at {
            s.append("_updated at ");
            s.append(ts.as_str());
            if let Some(rev) = self.living_summary_source_revision {
                s.append(", source revision r");
                push_decimal(&mut s, rev as u64);
            }
            s.append("_\n");
        }
        assert(s@ =~= summary_note(*self));
        s
    }

    /// A concept in words.
    pub fn to_markdown(&self) -> (r: String)
        ensures
            r@ == concept_state_text(*self),
    {
        let mut s: String = "## ".to_owned();
        s.append(self.name.as_str());
        s.append(" (r");
        push_decimal(&mut s, self.revision as u64);
        s.append(")\n");
        s.append(self.definition.as_str());
        s.append("\n");
        if let Some(summary) = &self.living_summary {
            s.append("\n### Living summary\n");
            s.append(summary.as_str());
            s.append("\n");
            s.append(self.note().as_str());
        }
        assert(s@ =~= concept_state_text(*self));
        s
    }

    /// A concept in words.
    pub fn to_cli_text(&self) -> (r: String)
        ensures
            r@ == concept_state_text(*self),
    {
        self.to_markdown()
    }
}

/// Which living summaries are refreshed.
#[derive(Clone, Debug, Default)]
pub struct ConceptSummaryRefreshParams {
    /// `None`: all that are due.
    pub concept_id: Option<String>,
    /// Only say what would be done.
    pub dry_run: Option<bool>,
}

/// What came of refreshing living summaries.
#[derive(Clone, Debug)]
pub struct ConceptSummaryRefreshOutput(pub ConceptSummaryOutcome);

/// What came of it, in words.
pub open spec fn summary_refresh_text(o: ConceptSummaryOutcome) -> Seq<char> {
    if o.skipped_disabled {
        "Concept summary refresh disabled in config"@
    } else if o.skipped_no_llm {
        "Concept summary refresh skipped: no LLM provider configured"@
    } else {
        "Concept summary refresh"@ + (if o.dry_run {
            " (dry run)"@
        } else {
            Seq::empty()
        }) + ": attempted "@ + decimal(o.attempted as nat) + ", succeeded "@ + decimal(
            o.succeeded as nat,
        ) + ", ineligible "@ + decimal(o.skipped_not_eligible as nat) + ", llm_failed "@ + decimal(
            o.llm_failed as nat,
        )
    }
}

impl ConceptSummaryRefreshOutput {
    /// What came of it, in words.
    pub fn to_markdown(&self) -> (r: String)
        ensures
            r@ == summary_refresh_text(self.0),
    {
        let o: &ConceptSummaryOutcome = &self.0;
        if o.skipped_disabled {
            return "Concept summary refresh disabled in config".to_owned();
        }
        if o.skipped_no_llm {
            return "Concept summary refresh skipped: no LLM provider configured".to_owned();
        }
        let mut s: String = "Concept summary refresh".to_owned();
        if o.dry_run {
            s.append(" (dry run)");
        }
        s.append(": attempted ");
        push_decimal(&mut s, o.attempted as u64);
        s.append(", succeeded ");
        push_decimal(&mut s, o.succeeded as u64);
        s.append(", ineligible ");
        push_decimal(&mut s, o.skipped_not_eligible as u64);
        s.append(", llm_failed ");
        push_decimal(&mut s, o.llm_failed as u64);
        assert(s@ =~= summary_refresh_text(*o));
        s
    }

    /// What came of it, in words.
    pub fn to_cli_text(&self) -> (r: String)
        ensures
            r@ == summary_refresh_text(self.0),
    {
        self.to_markdown()
    }
}

} // verus!
