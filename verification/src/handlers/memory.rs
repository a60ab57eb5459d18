//! Storing, fetching, listing and removing memories.

use crate::error::{OpsError, bad_request, is_bad_request, is_not_found, not_found};
use crate::text::{
    byte_len, debug_of, debug_text, decimal, expand, join, join_strings, prefix, push_decimal,
    push_or, push_signed, signed_decimal, str_eq, take_chars, text_or, texts,
};
use crate::time::{
    Timestamp, date_argument, elapsed_secs, format_minute, formatted, is_instant, parse_dt_end,
    parse_dt_start, rfc3339_text, span_secs, to_rfc3339,
};
use crate::types::{
    Concept, ConceptRevision, Importance, Memory, MemoryEvidence, importance_word, opt_text,
};
use vstd::prelude::*;
use vstd::string::*;

verus! {

/// Which memory is removed for good.
#[derive(Clone, Debug, Default)]
pub struct ForgetParams {
    pub id: String,
}

/// What was removed.
#[derive(Clone, Debug)]
pub struct ForgetOutput {
    pub id: String,
    pub deleted: bool,
}

impl ForgetOutput {
    /// `ok:` and the id.
    pub fn to_markdown(&self) -> (r: String)
        ensures
            r@ == "ok:"@ + self.id@,
    {
        let mut s: String = "ok:".to_owned();
        s.append(self.id.as_str());
        s
    }

    /// What was removed, for the command line.
    pub fn to_cli_text(&self) -> (r: String)
        ensures
            r@ == "Deleted memory: "@ + self.id@,
    {
        let mut s: String = "Deleted memory: ".to_owned();
        s.append(self.id.as_str());
        s
    }
}

/// The answer once the memory is gone from the store.
pub fn forget(params: ForgetParams) -> (r: ForgetOutput)
    ensures
        r.id == params.id,
        r.deleted,
{
    ForgetOutput { id: params.id, deleted: true }
}

/// Listing topics takes nothing.
#[derive(Clone, Debug, Default)]
pub struct ListTopicsParams {}

/// The topics of all memories.
#[derive(Clone, Debug)]
pub struct ListTopicsOutput {
    pub topics: Vec<String>,
    pub compact: bool,
}

/// How many recent memories are listed.
#[derive(Clone, Debug, Default)]
pub struct RecentParams {
    pub limit: Option<usize>,
}

/// The limit asked for, 20 where none is, held between 1 and 100.
pub open spec fn recent_bound(limit: Option<usize>) -> usize {
    match limit {
        Some(n) => if n < 1 {
            1
        } else if n > 100 {
            100
        } else {
            n
        },
        None => 20,
    }
}

/// How many memories `recent` fetches.
pub fn recent_limit(params: &RecentParams) -> (r: usize)
    ensures
        r == recent_bound(params.limit),
{
    match params.limit {
        Some(n) => if n < 1 {
            1
        } else if n > 100 {
            100
        } else {
            n
        },
        None => 20,
    }
}

/// A memory as it is listed.
#[derive(Clone, Debug)]
pub struct RecentMemory {
    pub id: String,
    pub topic: String,
    pub summary: String,
    pub importance: Importance,
    pub created_at: Timestamp,
    /// As shown, with two digits behind the point.
    pub strength: String,
}

/// The most recent memories.
#[derive(Clone, Debug)]
pub struct RecentOutput {
    pub memories: Vec<RecentMemory>,
    pub compact: bool,
}

/// How often `unit` seconds fit into a span, rounded toward zero.
pub open spec fn whole_units(secs: int, unit: int) -> int {
    if secs >= 0 {
        secs / unit
    } else {
        -((-secs) / unit)
    }
}

fn units(secs: i64, unit: i64) -> (r: i64)
    requires
        unit > 1,
    ensures
        r == whole_units(secs as int, unit as int),
{
    let n: i128 = if secs >= 0 {
        secs as i128
    } else {
        -(secs as i128)
    };
    let q: i128 = n / (unit as i128);
    assert(0 <= q <= n && 2 * q <= n) by (nonlinear_arith)
        requires
            n >= 0,
            unit > 1,
            q == (n as int) / (unit as int),
    ;
    if secs >= 0 {
        q as i64
    } else {
        -(q as i64)
    }
}

/// How long ago something was, in the largest unit that fits: days, hours or
/// minutes.
pub open spec fn age_text(secs: int) -> Seq<char> {
    if whole_units(secs, 86_400) > 0 {
        signed_decimal(whole_units(secs, 86_400)) + "d ago"@
    } else if whole_units(secs, 3_600) > 0 {
        signed_decimal(whole_units(secs, 3_600)) + "h ago"@
    } else {
        signed_decimal(whole_units(secs, 60)) + "m ago"@
    }
}

fn age_of(secs: i64) -> (r: String)
    ensures
        r@ == age_text(secs as int),
{
    let mut s: String = String::new();
    let days: i64 = units(secs, 86_400);
    let hours: i64 = units(secs, 3_600);
    let minutes: i64 = units(secs, 60);
    if days > 0 {
        push_signed(&mut s, days);
        s.append("d ago");
    } else if hours > 0 {
        push_signed(&mut s, hours);
        s.append("h ago");
    } else {
        push_signed(&mut s, minutes);
        s.append("m ago");
    }
    assert(s@ =~= age_text(secs as int));
    s
}

/// A memory in one line, with its topic first.
pub open spec fn short_line(m: RecentMemory) -> Seq<char> {
    "["@ + m.topic@ + "] "@ + m.summary@
}

/// A memory of this age in seconds in the list for programs.
pub open spec fn recent_line(m: RecentMemory, compact: bool, age: int) -> Seq<char> {
    if compact {
        short_line(m)
    } else {
        short_line(m) + " ("@ + importance_word(m.importance) + ", "@ + age_text(age)
            + ", str:"@ + m.strength@ + ")\n  id: "@ + m.id@
    }
}

/// A memory of this age in seconds in the list for people.
pub open spec fn recent_cli_line(m: RecentMemory, compact: bool, age: int) -> Seq<char> {
    if compact {
        short_line(m)
    } else {
        short_line(m) + " ("@ + importance_word(m.importance) + ", "@ + age_text(age) + ")"@
    }
}

/// The list for programs.
pub open spec fn recent_text(o: RecentOutput, now: Timestamp) -> Seq<char> {
    if o.memories@.len() == 0 {
        "No memories found."@
    } else {
        join(
            o.memories@.map_values(
                |m: RecentMemory| recent_line(m, o.compact, span_secs(now, m.created_at)),
            ),
            "\n"@,
        )
    }
}

/// The list for people.
pub open spec fn recent_cli_text(o: RecentOutput, now: Timestamp) -> Seq<char> {
    if o.memories@.len() == 0 {
        "No memories found."@
    } else {
        join(
            o.memories@.map_values(
                |m: RecentMemory| recent_cli_line(m, o.compact, span_secs(now, m.created_at)),
            ),
            "\n"@,
        )
    }
}

fn short_line_of(m: &RecentMemory) -> (r: String)
    ensures
        r@ == short_line(*m),
{
    let mut s: String = "[".to_owned();
    s.append(m.topic.as_str());
    s.append("] ");
    s.append(m.summary.as_str());
    s
}

/// A memory of this age in seconds in the list for programs.
pub fn format_recent_line(m: &RecentMemory, compact: bool, age: i64) -> (r: String)
    ensures
        r@ == recent_line(*m, compact, age as int),
{
    let mut s: String = short_line_of(m);
    if !compact {
        s.append(" (");
        s.append(m.importance.as_str());
        s.append(", ");
        s.append(age_of(age).as_str());
        s.append(", str:");
        s.append(m.strength.as_str());
        s.append(")\n  id: ");
        s.append(m.id.as_str());
    }
    s
}

/// A memory of this age in seconds in the list for people.
pub fn format_recent_cli_line(m: &RecentMemory, compact: bool, age: i64) -> (r: String)
    ensures
        r@ == recent_cli_line(*m, compact, age as int),
{
    let mut s: String = short_line_of(m);
    if !compact {
        s.append(" (");
        s.append(m.importance.as_str());
        s.append(", ");
        s.append(age_of(age).as_str());
        s.append(")");
    }
    s
}

impl RecentOutput {
    /// The list for programs, with ages counted up to `now`.
    pub fn to_markdown(&self, now: &Timestamp) -> (r: String)
        ensures
            r@ == recent_text(*self, *now),
    {
        if self.memories.len() == 0 {
            return "No memories found.".to_owned();
        }
        let mut v: Vec<String> = Vec::new();
        let mut i: usize = 0;
        while i < self.memories.len()
            invariant
                i <= self.memories@.len(),
                v@.len() == i,
                forall|k: int|
                    0 <= k < i ==> (#[trigger] v@[k])@ == recent_line(
                        self.memories@[k],
                        self.compact,
                        span_secs(*now, self.memories@[k].created_at),
                    ),
            decreases self.memories@.len() - i,
        {
            let age: i64 = elapsed_secs(now, &self.memories[i].created_at);
            v.push(format_recent_line(&self.memories[i], self.compact, age));
            i = i + 1;
        }
        assert(texts(v@) =~= self.memories@.map_values(
            |m: RecentMemory| recent_line(m, self.compact, span_secs(*now, m.created_at)),
        ));
        join_strings(&v, "\n")
    }

    /// The list for people, with ages counted up to `now`.
    pub fn to_cli_text(&self, now: &Timestamp) -> (r: String)
        ensures
            r@ == recent_cli_text(*self, *now),
    {
        if self.memories.len() == 0 {
            return "No memories found.".to_owned();
        }
        let mut v: Vec<String> = Vec::new();
        let mut i: usize = 0;
        while i < self.memories.len()
            invariant
                i <= self.memories@.len(),
                v@.len() == i,
                forall|k: int|
                    0 <= k < i ==> (#[trigger] v@[k])@ == recent_cli_line(
                        self.memories@[k],
                        self.compact,
                        span_secs(*now, self.memories@[k].created_at),
                    ),
            decreases self.memories@.len() - i,
        {
            let age: i64 = elapsed_secs(now, &self.memories[i].created_at);
            v.push(format_recent_cli_line(&self.memories[i], self.compact, age));
            i = i + 1;
        }
        assert(texts(v@) =~= self.memories@.map_values(
            |m: RecentMemory| recent_cli_line(m, self.compact, span_secs(*now, m.created_at)),
        ));
        join_strings(&v, "\n")
    }
}

/// What is searched for, and within which bounds.
#[derive(Clone, Debug, Default)]
pub struct RecallMemoryParams {
    pub query: String,
    pub topic: Option<String>,
    pub keyword: Option<String>,
    pub limit: Option<usize>,
    /// Only memories made at this date or later.
    pub from: Option<String>,
    /// Only memories made at this date or earlier.
    pub to: Option<String>,
    /// Whether the query is expanded; where nothing is said, as configured.
    pub expand: Option<bool>,
    /// Whether a model writes an answer over the results.
    pub synthesize: Option<bool>,
}

/// The bounds of a search.
#[derive(Clone, Copy, Debug)]
pub struct RecallBounds {
    pub limit: usize,
    pub from: Option<Timestamp>,
    pub to: Option<Timestamp>,
}

/// A limit, `other` where none is given, held at `most`.
pub open spec fn limit_or(limit: Option<usize>, other: usize, most: usize) -> usize {
    let n = match limit {
        Some(n) => n,
        None => other,
    };
    if n > most {
        most
    } else {
        n
    }
}

/// A limit, `other` where none is given, held at `most`.
pub(crate) fn bounded_limit(limit: Option<usize>, other: usize, most: usize) -> (r: usize)
    ensures
        r == limit_or(limit, other, most),
{
    let n: usize = match limit {
        Some(n) => n,
        None => other,
    };
    if n > most {
        most
    } else {
        n
    }
}

/// What an optional date argument means; one that cannot be read means nothing.
pub open spec fn date_bound(text: Option<String>, end: bool) -> Option<(int, int)> {
    match text {
        Some(s) => date_argument(s@, end),
        None => None,
    }
}

/// Reads an optional date argument.
pub(crate) fn read_date(text: &Option<String>, end: bool) -> (r: Option<Timestamp>)
    ensures
        is_instant(r, date_bound(*text, end)),
{
    match text {
        Some(s) => if end {
            parse_dt_end(s.as_str())
        } else {
            parse_dt_start(s.as_str())
        },
        None => None,
    }
}

/// Whether `r` bounds a search: its limit, and the instants of its dates as far as
/// they can be read.
pub open spec fn is_recall_of(r: RecallBounds, params: RecallMemoryParams) -> bool {
    &&& r.limit == limit_or(params.limit, 10, 200)
    &&& is_instant(r.from, date_bound(params.from, false))
    &&& is_instant(r.to, date_bound(params.to, true))
}

/// The bounds of a search: 10 results unless another number is asked for, 200
/// at most. A date that cannot be read bounds nothing.
pub fn recall(params: &RecallMemoryParams) -> (r: RecallBounds)
    ensures
        is_recall_of(r, *params),
{
    RecallBounds {
        limit: bounded_limit(params.limit, 10, 200),
        from: read_date(&params.from, false),
        to: read_date(&params.to, true),
    }
}

/// What came of asking for an answer over the results.
#[derive(Clone, Debug)]
pub struct RecallSynthesisOutcome {
    /// The answer, where one was made.
    pub synthesis: Option<String>,
}

/// The results of a search.
#[derive(Clone, Debug)]
pub struct RecallMemoryOutput {
    /// Ids of the memories found.
    pub results: Vec<String>,
    pub route: String,
    pub request_id: String,
    /// `None` where no answer was asked for.
    pub synthesis: Option<RecallSynthesisOutcome>,
    pub compact: bool,
}

/// The answer that is shown, if any. A compact output shows none.
pub open spec fn shown_answer(o: RecallMemoryOutput) -> Option<Seq<char>> {
    match o.synthesis {
        Some(outcome) => match outcome.synthesis {
            Some(prose) => if o.compact || prose@.len() == 0 {
                None
            } else {
                Some(prose@)
            },
            None => None,
        },
        None => None,
    }
}

/// The list of results, for programs: a stand-in where it is empty, and the
/// route and request before it unless the output is compact.
pub open spec fn recall_list(o: RecallMemoryOutput, body: Seq<char>) -> Seq<char> {
    let list = if body.len() == 0 {
        if o.compact {
            "none"@
        } else {
            "No memories found."@
        }
    } else {
        body
    };
    if !o.compact && o.results@.len() > 0 {
        "[route: "@ + o.route@ + " | request_id: "@ + o.request_id@ + "] "@ + list
    } else {
        list
    }
}

/// The results for programs, `body` being the list of them.
pub open spec fn recall_text(o: RecallMemoryOutput, body: Seq<char>) -> Seq<char> {
    match shown_answer(o) {
        Some(prose) => "[synthesis] "@ + prose + "\n\n"@ + recall_list(o, body),
        None => recall_list(o, body),
    }
}

/// The results for people, `body` being the list of them.
pub open spec fn recall_cli_text(o: RecallMemoryOutput, body: Seq<char>) -> Seq<char> {
    match shown_answer(o) {
        Some(prose) => "[synthesis]\n"@ + prose + "\n\n"@ + body,
        None => body,
    }
}

fn is_empty_text(s: &str) -> (r: bool)
    ensures
        r == (s@.len() == 0),
{
    s.unicode_len() == 0
}

impl RecallMemoryOutput {
    fn answer(&self) -> (r: Option<&String>)
        ensures
            match shown_answer(*self) {
                Some(prose) => r matches Some(s) && s@ == prose,
                None => r is None,
            },
    {
        if self.compact {
            return None;
        }
        match &self.synthesis {
            Some(outcome) => match &outcome.synthesis {
                Some(prose) => if is_empty_text(prose.as_str()) {
                    None
                } else {
                    Some(prose)
                },
                None => None,
            },
            None => None,
        }
    }

    /// The results for programs, `body` being the list of them.
    pub fn to_markdown(&self, body: &str) -> (r: String)
        ensures
            r@ == recall_text(*self, body@),
    {
        let mut list: String = String::new();
        if !self.compact && self.results.len() > 0 {
            list.append("[route: ");
            list.append(self.route.as_str());
            list.append(" | request_id: ");
            list.append(self.request_id.as_str());
            list.append("] ");
        }
        if is_empty_text(body) {
            if self.compact {
                list.append("none");
            } else {
                list.append("No memories found.");
            }
        } else {
            list.append(body);
        }
        assert(list@ =~= recall_list(*self, body@));
        match self.answer() {
            Some(prose) => {
                let mut s: String = "[synthesis] ".to_owned();
                s.append(prose.as_str());
                s.append("\n\n");
                s.append(list.as_str());
                s
            },
            None => list,
        }
    }

    /// The results for people, `body` being the list of them.
    pub fn to_cli_text(&self, body: &str) -> (r: String)
        ensures
            r@ == recall_cli_text(*self, body@),
    {
        match self.answer() {
            Some(prose) => {
                let mut s: String = "[synthesis]\n".to_owned();
                s.append(prose.as_str());
                s.append("\n\n");
                s.append(body);
                s
            },
            None => body.to_owned(),
        }
    }
}

/// A memory to store.
#[derive(Clone, Debug, Default)]
pub struct StoreMemoryParams {
    pub topic: String,
    pub content: String,
    /// `low`, `medium`, `high` or `critical`; `medium` where nothing is said.
    pub importance: Option<String>,
    pub keywords: Option<Vec<String>>,
}

/// The memory that was stored.
#[derive(Clone, Debug)]
pub struct StoreMemoryOutput {
    pub id: String,
    pub compact: bool,
}

/// Most bytes of the content of one memory.
pub const STORE_MAX_BYTES: usize = 100_000;

/// What is stored, once it has been checked.
#[derive(Debug)]
pub struct StorePlan {
    pub topic: String,
    pub content: String,
    pub importance: Importance,
    pub keywords: Vec<String>,
}

/// Why a level of importance is refused.
pub open spec fn importance_refusal(given: Seq<char>) -> Seq<char> {
    "invalid importance "@ + debug_text(given)
        + ": must be one of low, medium, high, critical"@
}

/// The refusal of a level of importance, which is shown quoted.
pub fn refuse_importance(shown: &str) -> (e: OpsError)
    ensures
        is_bad_request(
            e,
            "invalid importance "@ + shown@ + ": must be one of low, medium, high, critical"@,
        ),
{
    let mut s: String = "invalid importance ".to_owned();
    s.append(shown);
    s.append(": must be one of low, medium, high, critical");
    bad_request(s)
}

/// The importance that is asked for: medium where nothing is said.
pub open spec fn wanted_importance(importance: Option<String>) -> Seq<char> {
    text_or(importance, "medium"@)
}

impl StoreMemoryParams {
    /// The word that names the importance: `medium` where nothing is said.
    pub fn importance_text(&self) -> (r: String)
        ensures
            r@ == wanted_importance(self.importance),
    {
        let mut s: String = String::new();
        push_or(&mut s, &self.importance, "medium");
        assert(s@ =~= text_or(self.importance, "medium"@));
        s
    }
}

/// Whether `r` is what is stored: the text as it was given, under the importance that
/// was read; too long a text is refused first, then an importance that is none.
pub open spec fn is_store_plan(
    r: Result<StorePlan, OpsError>,
    params: StoreMemoryParams,
    parsed: Option<Importance>,
) -> bool {
    if byte_len(params.content@) > STORE_MAX_BYTES {
        r matches Err(e) && is_bad_request(e, "content too large (max 100KB)"@)
    } else {
        match parsed {
            Some(importance) => r matches Ok(plan) && plan.topic == params.topic && plan.content
                == params.content && plan.importance == importance && plan.keywords@
                == match params.keywords {
                Some(v) => v@,
                None => Seq::empty(),
            },
            None => r matches Err(e) && is_bad_request(
                e,
                importance_refusal(text_or(params.importance, ""@)),
            ),
        }
    }
}

/// Checks a memory before it is stored. `parsed` is the importance that
/// `importance_text` names, `None` where it names none.
pub fn store_memory(params: StoreMemoryParams, parsed: Option<Importance>) -> (r: Result<
    StorePlan,
    OpsError,
>)
    ensures
        is_store_plan(r, params, parsed),
{
    if params.content.as_str().len() > STORE_MAX_BYTES {
        return Err(bad_request("content too large (max 100KB)".to_owned()));
    }
    match parsed {
        Some(importance) => {
            let keywords: Vec<String> = match params.keywords {
                Some(v) => v,
                None => Vec::new(),
            };
            Ok(StorePlan { topic: params.topic, content: params.content, importance, keywords })
        },
        None => {
            let mut given: String = String::new();
            push_or(&mut given, &params.importance, "");
            assert(given@ =~= text_or(params.importance, ""@));
            Err(refuse_importance(debug_of(given.as_str()).as_str()))
        },
    }
}

/// New content for a memory, and a new importance where one is given.
#[derive(Clone, Debug, Default)]
pub struct UpdateParams {
    pub id: String,
    pub content: String,
    pub importance: Option<String>,
}

/// The memory that was changed.
#[derive(Clone, Debug)]
pub struct UpdateOutput {
    pub id: String,
    pub updated: bool,
}

impl UpdateOutput {
    /// `ok:` and the id.
    pub fn to_markdown(&self) -> (r: String)
        ensures
            r@ == "ok:"@ + self.id@,
    {
        let mut s: String = "ok:".to_owned();
        s.append(self.id.as_str());
        s
    }

    /// What was changed, for the command line.
    pub fn to_cli_text(&self) -> (r: String)
        ensures
            r@ == "Updated memory: "@ + self.id@,
    {
        let mut s: String = "Updated memory: ".to_owned();
        s.append(self.id.as_str());
        s
    }
}

/// Whether `r` is the importance that an update sets: none where none was given, and
/// a refusal where what was given is none.
pub open spec fn is_new_importance(
    r: Result<Option<Importance>, OpsError>,
    given: Option<String>,
    parsed: Option<Importance>,
) -> bool {
    match given {
        None => r == Ok::<Option<Importance>, OpsError>(None),
        Some(word) => match parsed {
            Some(importance) => r == Ok::<Option<Importance>, OpsError>(Some(importance)),
            None => r matches Err(e) && is_bad_request(e, importance_refusal(word@)),
        },
    }
}

/// The importance a memory gets: none where none is given. `parsed` is the
/// importance that the given word names, `None` where it names none.
pub fn update_importance(params: &UpdateParams, parsed: Option<Importance>) -> (r: Result<
    Option<Importance>,
    OpsError,
>)
    ensures
        is_new_importance(r, params.importance, parsed),
{
    match &params.importance {
        None => Ok(None),
        Some(word) => match parsed {
            Some(importance) => Ok(Some(importance)),
            None => Err(refuse_importance(debug_of(word.as_str()).as_str())),
        },
    }
}

/// Whether a memory was rewritten: it has the new content with a summary cut from it,
/// the new importance where there is one, and is otherwise as it was.
pub open spec fn is_rewritten(
    after: Memory,
    before: Memory,
    content: Seq<char>,
    importance: Option<Importance>,
    max_chars: int,
    now: Timestamp,
) -> bool {
    &&& after.content@ == content
    &&& after.summary@ == prefix(content, max_chars)
    &&& after.importance == match importance {
        Some(i) => i,
        None => before.importance,
    }
    &&& after.updated_at == now
    &&& after == (Memory {
        content: after.content,
        summary: after.summary,
        importance: after.importance,
        updated_at: now,
        ..before
    })
}

/// Gives a memory new content, with the first characters of it as its summary,
/// and a new importance where there is one.
pub fn update(
    memory: &mut Memory,
    params: &UpdateParams,
    importance: Option<Importance>,
    summary_max_chars: usize,
    now: &Timestamp,
) -> (r: UpdateOutput)
    ensures
        is_rewritten(
            *final(memory),
            *old(memory),
            params.content@,
            importance,
            summary_max_chars as int,
            *now,
        ),
        r.id@ == params.id@,
        r.updated,
{
    memory.content = params.content.clone();
    memory.summary = take_chars(params.content.as_str(), summary_max_chars);
    match importance {
        Some(i) => {
            memory.importance = i;
        },
        None => {},
    }
    memory.updated_at = *now;
    UpdateOutput { id: params.id.clone(), updated: true }
}

/// Which memory is fetched.
#[derive(Clone, Debug, Default)]
pub struct GetMemoryParams {
    pub id: String,
}

/// Most rows of evidence that are shown with a memory.
pub const EVIDENCE_PREVIEW_CAP: usize = 200;

/// A memory with its evidence.
#[derive(Debug)]
pub struct GetMemoryOutput {
    pub memory: Memory,
    /// The evidence that is shown.
    pub evidence: Vec<MemoryEvidence>,
    /// How much evidence there is.
    pub evidence_total: u64,
}

impl GetMemoryOutput {
    /// The id and the summary.
    pub fn to_markdown(&self) -> (r: String)
        ensures
            r@ == "memory "@ + self.memory.id@ + ": "@ + self.memory.summary@,
    {
        let mut s: String = "memory ".to_owned();
        s.append(self.memory.id.as_str());
        s.append(": ");
        s.append(self.memory.summary.as_str());
        s
    }
}

/// The memory whose evidence stands for this one: its canonical memory, or
/// itself.
pub open spec fn canonical_of(m: Memory) -> Seq<char> {
    text_or(m.canonical_id, m.id@)
}

/// The id of the canonical memory.
pub fn canonical_id(m: &Memory) -> (r: String)
    ensures
        r@ == canonical_of(*m),
{
    match &m.canonical_id {
        Some(id) => id.clone(),
        None => m.id.clone(),
    }
}

/// Whether a row is evidence from elsewhere than the canonical memory itself.
pub open spec fn from_elsewhere(canonical: Seq<char>) -> spec_fn(MemoryEvidence) -> bool {
    |e: MemoryEvidence| opt_text(e.memory_id) != Some(canonical)
}

/// Whether `r` shows a memory with the evidence for it that comes from elsewhere.
pub open spec fn shows_memory(
    r: GetMemoryOutput,
    memory: Memory,
    rows: Option<Vec<MemoryEvidence>>,
    total: Option<u64>,
) -> bool {
    &&& r.memory == memory
    &&& r.evidence_total == match total {
        Some(n) => n,
        None => 0,
    }
    &&& r.evidence@ == match rows {
        Some(v) => v@.filter(from_elsewhere(canonical_of(memory))),
        None => Seq::empty(),
    }
}

/// A memory with its evidence. The rows come from the store, none where it
/// could not list them; those of the canonical memory itself are left out.
pub fn get_memory(
    memory: Memory,
    rows: Option<Vec<MemoryEvidence>>,
    total: Option<u64>,
) -> (r: GetMemoryOutput)
    ensures
        shows_memory(r, memory, rows, total),
{
    let canonical: String = canonical_id(&memory);
    let evidence_total: u64 = match total {
        Some(n) => n,
        None => 0,
    };
    let mut evidence: Vec<MemoryEvidence> = Vec::new();
    match rows {
        Some(v) => {
            let ghost all = v@;
            let ghost keep = from_elsewhere(canonical@);
            let mut left: Vec<MemoryEvidence> = v;
            assert(all =~= all.take(0) + left@);
            proof {
                assert(all.take(0) =~= Seq::<MemoryEvidence>::empty());
                reveal(Seq::filter);
            }
            while left.len() > 0
                invariant
                    left@.len() <= all.len(),
                    left@ == all.skip(all.len() - left@.len()),
                    keep == from_elsewhere(canonical@),
                    evidence@ == all.take(all.len() - left@.len()).filter(keep),
                decreases left@.len(),
            {
                let ghost k = all.len() - left@.len();
                let item: MemoryEvidence = left.remove(0);
                assert(item == all[k]);
                proof {
                    reveal(Seq::filter);
                    assert(all.take(k + 1).drop_last() =~= all.take(k));
                }
                let own: bool = match &item.memory_id {
                    Some(id) => str_eq(id.as_str(), canonical.as_str()),
                    None => false,
                };
                if !own {
                    evidence.push(item);
                }
            }
            assert(all.take(all.len() as int) =~= all);
        },
        None => {},
    }
    GetMemoryOutput { memory, evidence, evidence_total }
}

/// Whose history is shown.
#[derive(Clone, Debug, Default)]
pub struct ConceptHistoryParams {
    pub memoir: String,
    pub name: String,
    pub limit: Option<usize>,
}

/// One past definition of a concept.
#[derive(Clone, Debug)]
pub struct ConceptRevisionSummary {
    pub revision: u32,
    pub created_at: Timestamp,
    pub episode_id: Option<String>,
    pub definition: String,
}

/// A concept and how its definition changed.
#[derive(Clone, Debug)]
pub struct ConceptHistoryOutput {
    pub current_name: String,
    pub current_revision: u32,
    /// As shown, with two digits behind the point.
    pub current_confidence: String,
    pub current_definition: String,
    pub living_summary: Option<String>,
    pub living_summary_updated_at: Option<String>,
    pub living_summary_source_revision: Option<u32>,
    pub history: Vec<ConceptRevisionSummary>,
}

/// A past definition in words, cut after 200 characters, with its minute.
pub open spec fn entry_at(rev: ConceptRevisionSummary, minute: Seq<char>) -> Seq<char> {
    "- **r"@ + decimal(rev.revision as nat) + "** ("@ + minute + ") [episode: "@ + text_or(rev.episode_id, "none"@) + "]\n  "@ + prefix(
        rev.definition@,
        200,
    ) + "\n"@
}

/// A past definition in words.
pub open spec fn revision_entry(rev: ConceptRevisionSummary) -> Seq<char> {
    entry_at(rev, formatted(rev.created_at, "%Y-%m-%d %H:%M"@))
}

/// The parts of the history in words.
pub open spec fn history_parts(o: ConceptHistoryOutput) -> Seq<Seq<char>> {
    let head = seq![
        "## "@ + o.current_name@ + " (current: r"@ + decimal(o.current_revision as nat)
            + ", confidence: "@ + o.current_confidence@ + ")\n"@ + o.current_definition@ + "\n"@,
    ];
    let summary = match o.living_summary {
        Some(s) => seq!["### Living summary\n"@ + s@ + "\n"@],
        None => Seq::empty(),
    };
    let rest = if o.history@.len() == 0 {
        seq!["No revision history (concept has not been refined yet)."@]
    } else {
        seq!["### Revision History ("@ + decimal(o.history@.len()) + " entries)\n"@]
            + o.history@.map_values(|rev: ConceptRevisionSummary| revision_entry(rev))
    };
    head + summary + rest
}

/// A past definition in words, with its minute as text.
pub fn format_revision(rev: &ConceptRevisionSummary, minute: &str) -> (r: String)
    ensures
        r@ == entry_at(*rev, minute@),
{
    let mut s: String = "- **r".to_owned();
    push_decimal(&mut s, rev.revision as u64);
    s.append("** (");
    s.append(minute);
    s.append(") [episode: ");
    push_or(&mut s, &rev.episode_id, "none");
    s.append("]\n  ");
    s.append(take_chars(rev.definition.as_str(), 200).as_str());
    s.append("\n");
    s
}

impl ConceptHistoryOutput {
    /// The history in words.
    pub fn to_markdown(&self) -> (r: String)
        ensures
            r@ == join(history_parts(*self), "\n"@),
    {
        let mut v: Vec<String> = Vec::new();
        let mut head: String = "## ".to_owned();
        head.append(self.current_name.as_str());
        head.append(" (current: r");
        push_decimal(&mut head, self.current_revision as u64);
        head.append(", confidence: ");
        head.append(self.current_confidence.as_str());
        head.append(")\n");
        head.append(self.current_definition.as_str());
        head.append("\n");
        v.push(head);
        match &self.living_summary {
            Some(summary) => {
                let mut s: String = "### Living summary\n".to_owned();
                s.append(summary.as_str());
                s.append("\n");
                v.push(s);
            },
            None => {},
        }
        if self.history.len() == 0 {
            v.push("No revision history (concept has not been refined yet).".to_owned());
        } else {
            let mut s: String = "### Revision History (".to_owned();
            push_decimal(&mut s, self.history.len() as u64);
            s.append(" entries)\n");
            v.push(s);
            let ghost before = texts(v@);
            let mut i: usize = 0;
            while i < self.history.len()
                invariant
                    i <= self.history@.len(),
                    texts(v@) == before + self.history@.take(i as int).map_values(
                        |rev: ConceptRevisionSummary| revision_entry(rev),
                    ),
                decreases self.history@.len() - i,
            {
                let minute: String = format_minute(&self.history[i].created_at);
                let entry: String = format_revision(&self.history[i], minute.as_str());
                let ghost was = v@;
                v.push(entry);
                assert(texts(v@) =~= texts(was).push(entry@));
                assert(self.history@.take(i + 1).map_values(
                    |rev: ConceptRevisionSummary| revision_entry(rev),
                ) =~= self.history@.take(i as int).map_values(
                    |rev: ConceptRevisionSummary| revision_entry(rev),
                ).push(entry@));
                i = i + 1;
            }
            assert(self.history@.take(i as int) =~= self.history@);
        }
        assert(texts(v@) =~= history_parts(*self));
        join_strings(&v, "\n")
    }

    /// The history in words.
    pub fn to_cli_text(&self) -> (r: String)
        ensures
            r@ == join(history_parts(*self), "\n"@),
    {
        self.to_markdown()
    }
}

/// Revisions that are shown: ten where nothing is said, a hundred at most.
pub open spec fn history_bound(limit: Option<usize>) -> usize {
    limit_or(limit, 10, 100)
}

/// How many revisions are fetched: 10 unless another number is asked for, 100
/// at most.
pub fn history_limit(params: &ConceptHistoryParams) -> (r: usize)
    ensures
        r == history_bound(params.limit),
{
    bounded_limit(params.limit, 10, 100)
}

/// Whether a text is an instant in RFC 3339, or missing where there is none.
pub open spec fn is_stamp(text: Option<String>, t: Option<Timestamp>) -> bool {
    match t {
        Some(i) => opt_text(text) == Some(rfc3339_text(i.seconds(), i.nanoseconds())),
        None => text is None,
    }
}

/// An optional instant in RFC 3339.
pub(crate) fn stamp_of(t: &Option<Timestamp>) -> (r: Option<String>)
    ensures
        is_stamp(r, *t),
{
    match t {
        Some(i) => Some(to_rfc3339(i)),
        None => None,
    }
}

/// Whether a line of the history is a revision.
pub open spec fn summarizes(s: ConceptRevisionSummary, rev: ConceptRevision) -> bool {
    s.revision == rev.revision && s.created_at == rev.created_at && s.episode_id == rev.episode_id
        && s.definition == rev.definition
}

/// Whether `r` shows a concept as it is now, and each of its revisions in the order
/// they came in.
pub open spec fn shows_history(
    r: Result<ConceptHistoryOutput, OpsError>,
    name: Seq<char>,
    current: Option<Concept>,
    confidence: String,
    revisions: Seq<ConceptRevision>,
) -> bool {
    match current {
        None => r matches Err(e) && is_not_found(e, "concept '"@ + name + "' not found"@),
        Some(c) => r matches Ok(o) && o.current_name == c.name && o.current_revision == c.revision
            && o.current_confidence == confidence && o.current_definition == c.definition
            && o.living_summary == c.living_summary && is_stamp(
            o.living_summary_updated_at,
            c.living_summary_updated_at,
        ) && o.living_summary_source_revision == c.living_summary_source_revision && o.history@.len()
            == revisions.len() && (forall|k: int|
            0 <= k < revisions.len() ==> summarizes(#[trigger] o.history@[k], revisions[k])),
    }
}

/// The history of a concept, or that there is no such concept. `confidence` is
/// the present confidence as it is shown.
pub fn concept_history(
    params: &ConceptHistoryParams,
    current: Option<Concept>,
    confidence: String,
    revisions: Vec<ConceptRevision>,
) -> (r: Result<ConceptHistoryOutput, OpsError>)
    ensures
        shows_history(r, params.name@, current, confidence, revisions@),
{
    let c: Concept = match current {
        Some(c) => c,
        None => {
            let mut s: String = "concept '".to_owned();
            s.append(params.name.as_str());
            s.append("' not found");
            return Err(not_found(s));
        },
    };
    let mut history: Vec<ConceptRevisionSummary> = Vec::new();
    let ghost all = revisions@;
    let mut left: Vec<ConceptRevision> = revisions;
    while left.len() > 0
        invariant
            left@.len() + history@.len() == all.len(),
            left@ == all.skip(history@.len() as int),
            forall|k: int| 0 <= k < history@.len() ==> summarizes(#[trigger] history@[k], all[k]),
        decreases left@.len(),
    {
        let rev: ConceptRevision = left.remove(0);
        assert(rev == all[history@.len() as int]);
        history.push(
            ConceptRevisionSummary {
                revision: rev.revision,
                created_at: rev.created_at,
                episode_id: rev.episode_id,
                definition: rev.definition,
            },
        );
    }
    let living_summary_updated_at: Option<String> = stamp_of(&c.living_summary_updated_at);
    Ok(
        ConceptHistoryOutput {
            current_name: c.name,
            current_revision: c.revision,
            current_confidence: confidence,
            current_definition: c.definition,
            living_summary: c.living_summary,
            living_summary_updated_at,
            living_summary_source_revision: c.living_summary_source_revision,
            history,
        },
    )
}

} // verus!
