//! The timeline of what was learnt: episodes, revisions of concepts and new
//! memories, the newest first.

use crate::error::{OpsError, bad_request, is_bad_request};
use crate::handlers::memory::{bounded_limit, date_bound, limit_or, read_date};
use crate::text::{
    debug_of, debug_text, decimal, join, join_strings, prefix, push_decimal, take_chars, texts,
};
use crate::time::{
    MAX_SECS, Timestamp, format_minute, formatted, is_instant, parse_rfc3339, rfc3339_instant,
    rfc3339_text, to_rfc3339,
};
use crate::types::Memory;
use vstd::prelude::*;
use vstd::string::*;

verus! {

/// The stretch of time that is shown.
#[derive(Clone, Debug, Default)]
pub struct TimelineParams {
    pub from: Option<String>,
    pub to: Option<String>,
    pub limit: Option<usize>,
}

/// The events of a timeline, the newest first.
#[derive(Clone, Debug)]
pub struct TimelineOutput {
    pub events: Vec<(Timestamp, String)>,
}

/// The bounds of a timeline, once they have been read.
#[derive(Clone, Copy, Debug)]
pub struct TimelineWindow {
    pub from: Option<Timestamp>,
    pub to: Option<Timestamp>,
    pub limit: usize,
}

/// Why a date is refused; `name` says which of the two it is.
pub open spec fn date_refusal(name: Seq<char>, given: Seq<char>) -> Seq<char> {
    "invalid '"@ + name + "' date format: Some("@ + debug_text(given) + ")"@
}

/// Whether a date is given that cannot be read.
pub open spec fn is_unreadable(text: Option<String>, end: bool) -> bool {
    text is Some && date_bound(text, end) is None
}

/// The refusal of a date, which is shown quoted; `name` says which of the two it
/// is.
pub fn refuse_date(name: &str, shown: &str) -> (e: OpsError)
    ensures
        is_bad_request(e, "invalid '"@ + name@ + "' date format: Some("@ + shown@ + ")"@),
{
    let mut s: String = "invalid '".to_owned();
    s.append(name);
    s.append("' date format: Some(");
    s.append(shown);
    s.append(")");
    bad_request(s)
}

/// Whether `r` is the window of these parameters, with the instants that their dates
/// were read as; a date that could not be read is refused, `from` before `to`.
pub open spec fn is_window_of(
    r: Result<TimelineWindow, OpsError>,
    params: TimelineParams,
    from: Option<Timestamp>,
    to: Option<Timestamp>,
) -> bool {
    if params.from is Some && from is None {
        r matches Err(e) && is_bad_request(e, date_refusal("from"@, params.from->0@))
    } else if params.to is Some && to is None {
        r matches Err(e) && is_bad_request(e, date_refusal("to"@, params.to->0@))
    } else {
        r == Ok::<TimelineWindow, OpsError>(
            TimelineWindow { from, to, limit: limit_or(params.limit, 20, 200) },
        )
    }
}

/// The bounds of a timeline whose dates have been read: 20 events unless another
/// number is asked for, 200 at most. A date that is given but could not be read
/// is refused, the first of them before the second.
pub fn bounded_window(
    params: &TimelineParams,
    from: Option<Timestamp>,
    to: Option<Timestamp>,
) -> (r: Result<TimelineWindow, OpsError>)
    ensures
        is_window_of(r, *params, from, to),
{
    if let Some(given) = &params.from {
        if from.is_none() {
            return Err(refuse_date("from", debug_of(given.as_str()).as_str()));
        }
    }
    if let Some(given) = &params.to {
        if to.is_none() {
            return Err(refuse_date("to", debug_of(given.as_str()).as_str()));
        }
    }
    Ok(TimelineWindow { from, to, limit: bounded_limit(params.limit, 20, 200) })
}

/// Whether `r` is the window that these parameters ask for.
pub open spec fn is_timeline_of(r: Result<TimelineWindow, OpsError>, params: TimelineParams) -> bool {
    if is_unreadable(params.from, false) {
        r matches Err(e) && is_bad_request(e, date_refusal("from"@, params.from->0@))
    } else if is_unreadable(params.to, true) {
        r matches Err(e) && is_bad_request(e, date_refusal("to"@, params.to->0@))
    } else {
        r matches Ok(w) && w.limit == limit_or(params.limit, 20, 200) && is_instant(
            w.from,
            date_bound(params.from, false),
        ) && is_instant(w.to, date_bound(params.to, true))
    }
}

/// The bounds of a timeline: 20 events unless another number is asked for, 200
/// at most. A date that cannot be read is refused.
pub fn timeline(params: &TimelineParams) -> (r: Result<TimelineWindow, OpsError>)
    ensures
        is_timeline_of(r, *params),
{
    bounded_window(params, read_date(&params.from, false), read_date(&params.to, true))
}

/// The start of the year 2000, before which there are no episodes.
pub const FIRST_EPISODE_SECS: i64 = 946_684_800;

/// Which episodes are fetched.
#[derive(Clone, Copy, Debug)]
pub enum EpisodeRange {
    /// Those between two instants.
    Between(Timestamp, Timestamp),
    /// So many of the last.
    Latest(usize),
}

/// Whether an instant is the same time a day after another; a leap second has
/// no counterpart and counts for the second before it.
pub open spec fn is_day_after(t: Timestamp, now: Timestamp) -> bool {
    &&& t.seconds() == now.seconds() + 86_400
    &&& t.nanoseconds() == if now.nanoseconds() >= 1_000_000_000 {
        now.nanoseconds() - 1_000_000_000
    } else {
        now.nanoseconds()
    }
}

/// Whether `r` is the range of episodes that a window asks for: an open end is a day
/// from now, an open start the first day there can be, and without both it is the
/// latest ones.
pub open spec fn is_episode_range(r: EpisodeRange, w: TimelineWindow, now: Timestamp) -> bool {
    match (w.from, w.to) {
        (Some(f), Some(t)) => r == EpisodeRange::Between(f, t),
        (Some(f), None) => r matches EpisodeRange::Between(a, b) && a == f && is_day_after(b, now),
        (None, Some(t)) => r matches EpisodeRange::Between(a, b) && a.seconds()
            == FIRST_EPISODE_SECS && a.nanoseconds() == 0 && b == t,
        (None, None) => r == EpisodeRange::Latest(w.limit),
    }
}

impl TimelineWindow {
    /// Which episodes are fetched: those in the window, which is closed by the
    /// same time tomorrow and by the start of the year 2000 where it is open, or
    /// the latest where it has no bounds.
    pub fn episodes(&self, now: &Timestamp) -> (r: EpisodeRange)
        requires
            now.seconds() + 86_400 <= MAX_SECS,
        ensures
            is_episode_range(r, *self, *now),
    {
        match (self.from, self.to) {
            (Some(f), Some(t)) => EpisodeRange::Between(f, t),
            (Some(f), None) => {
                let secs: i64 = now.unix_secs();
                let nanos: u32 = now.subsec_nanos();
                let rest: u32 = if nanos >= 1_000_000_000 {
                    nanos - 1_000_000_000
                } else {
                    nanos
                };
                match Timestamp::new(secs + 86_400, rest) {
                    Some(t) => EpisodeRange::Between(f, t),
                    None => EpisodeRange::Latest(0),
                }
            },
            (None, Some(t)) => match Timestamp::new(FIRST_EPISODE_SECS, 0) {
                Some(a) => EpisodeRange::Between(a, t),
                None => EpisodeRange::Latest(0),
            },
            (None, None) => EpisodeRange::Latest(self.limit),
        }
    }
}

/// A query and the values of its parameters.
#[derive(Debug)]
pub struct TimelineQuery {
    pub sql: String,
    pub values: Vec<String>,
}

/// The conditions on a column that a window makes.
pub open spec fn window_conditions(w: TimelineWindow, column: Seq<char>) -> Seq<Seq<char>> {
    match (w.from, w.to) {
        (Some(f), Some(t)) => seq![column + " >= ?1"@, column + " <= ?2"@],
        (Some(f), None) => seq![column + " >= ?1"@],
        (None, Some(t)) => seq![column + " <= ?1"@],
        (None, None) => Seq::empty(),
    }
}

/// An instant in RFC 3339.
pub open spec fn stamp(t: Timestamp) -> Seq<char> {
    rfc3339_text(t.seconds(), t.nanoseconds())
}

/// The values of the parameters in those conditions.
pub open spec fn window_values(w: TimelineWindow) -> Seq<Seq<char>> {
    match (w.from, w.to) {
        (Some(f), Some(t)) => seq![stamp(f), stamp(t)],
        (Some(f), None) => seq![stamp(f)],
        (None, Some(t)) => seq![stamp(t)],
        (None, None) => Seq::empty(),
    }
}

/// The query for the revisions of concepts in a window.
pub open spec fn revision_sql(w: TimelineWindow) -> Seq<char> {
    let conditions = window_conditions(w, "r.created_at"@);
    let filter = if conditions.len() == 0 {
        Seq::empty()
    } else {
        " WHERE "@ + join(conditions, " AND "@)
    };
    "SELECT r.revision, r.definition, r.created_at, c.name, c.memoir_id FROM concept_revisions r JOIN concepts c ON r.concept_id = c.id"@
        + filter + " ORDER BY r.created_at DESC LIMIT "@ + decimal(w.limit as nat)
}

/// The query for the memories made in a window.
pub open spec fn memory_sql(w: TimelineWindow) -> Seq<char> {
    "SELECT topic, summary, created_at FROM memories WHERE "@ + join(
        window_conditions(w, "created_at"@),
        " AND "@,
    ) + " ORDER BY created_at DESC LIMIT "@ + decimal(w.limit as nat)
}

/// Whether `r` is the query for memories: one only where the window has an end.
pub open spec fn is_memory_query(r: Option<TimelineQuery>, w: TimelineWindow) -> bool {
    match r {
        Some(q) => (w.from is Some || w.to is Some) && q.sql@ == memory_sql(w) && texts(q.values@)
            == window_values(w),
        None => w.from is None && w.to is None,
    }
}

impl TimelineWindow {
    fn conditions(&self, column: &str) -> (r: Vec<String>)
        ensures
            texts(r@) == window_conditions(*self, column@),
    {
        let mut v: Vec<String> = Vec::new();
        if self.from.is_some() {
            let mut s: String = column.to_owned();
            s.append(" >= ?1");
            v.push(s);
        }
        if self.to.is_some() {
            let mut s: String = column.to_owned();
            if self.from.is_some() {
                s.append(" <= ?2");
            } else {
                s.append(" <= ?1");
            }
            v.push(s);
        }
        assert(texts(v@) =~= window_conditions(*self, column@));
        v
    }

    fn values(&self) -> (r: Vec<String>)
        ensures
            texts(r@) == window_values(*self),
    {
        let mut v: Vec<String> = Vec::new();
        if let Some(f) = &self.from {
            v.push(to_rfc3339(f));
        }
        if let Some(t) = &self.to {
            v.push(to_rfc3339(t));
        }
        assert(texts(v@) =~= window_values(*self));
        v
    }

    /// The query for the revisions of concepts in this window.
    pub fn revision_query(&self) -> (r: TimelineQuery)
        ensures
            r.sql@ == revision_sql(*self),
            texts(r.values@) == window_values(*self),
    {
        let conditions: Vec<String> = self.conditions("r.created_at");
        let mut filter: String = String::new();
        if conditions.len() > 0 {
            filter.append(" WHERE ");
            filter.append(join_strings(&conditions, " AND ").as_str());
        }
        assert(texts(conditions@).len() == conditions@.len());
        assert(conditions@.len() > 0 ==> filter@ =~= " WHERE "@ + join(
            texts(conditions@),
            " AND "@,
        ));
        let mut sql: String =
            "SELECT r.revision, r.definition, r.created_at, c.name, c.memoir_id FROM concept_revisions r JOIN concepts c ON r.concept_id = c.id".to_owned();
        sql.append(filter.as_str());
        sql.append(" ORDER BY r.created_at DESC LIMIT ");
        push_decimal(&mut sql, self.limit as u64);
        TimelineQuery { sql, values: self.values() }
    }

    /// The query for the memories made in this window; none where it has no
    /// bounds, and the latest memories are listed instead.
    pub fn memory_query(&self) -> (r: Option<TimelineQuery>)
        ensures
            is_memory_query(r, *self),
    {
        if self.from.is_none() && self.to.is_none() {
            return None;
        }
        let conditions: Vec<String> = self.conditions("created_at");
        let mut sql: String = "SELECT topic, summary, created_at FROM memories WHERE ".to_owned();
        sql.append(join_strings(&conditions, " AND ").as_str());
        sql.append(" ORDER BY created_at DESC LIMIT ");
        push_decimal(&mut sql, self.limit as u64);
        Some(TimelineQuery { sql, values: self.values() })
    }
}

/// An episode as the timeline shows it.
#[derive(Debug)]
pub struct EpisodeRow {
    pub created_at: Timestamp,
    pub title: String,
    pub concept_ids: Vec<String>,
    pub memory_ids: Vec<String>,
    pub decisions: Vec<String>,
}

/// A row of the query for revisions.
#[derive(Debug)]
pub struct RevisionRow {
    pub revision: u32,
    pub definition: String,
    pub created_at: String,
    pub name: String,
}

/// A row of the query for memories.
#[derive(Debug)]
pub struct MemoryRow {
    pub topic: String,
    pub summary: String,
    pub created_at: String,
}

/// Where the memories of a timeline come from.
#[derive(Debug)]
pub enum MemoryRows {
    /// The query for a window.
    Queried(Vec<MemoryRow>),
    /// The latest memories.
    Recent(Vec<Memory>),
}

/// An event as a mathematical value.
pub struct EventView {
    pub secs: int,
    pub nanos: int,
    pub text: Seq<char>,
}

/// The view of an event.
pub open spec fn event_view(e: (Timestamp, String)) -> EventView {
    EventView { secs: e.0.seconds(), nanos: e.0.nanoseconds(), text: e.1@ }
}

/// The views of events.
pub open spec fn events_view(v: Seq<(Timestamp, String)>) -> Seq<EventView> {
    v.map_values(|e: (Timestamp, String)| event_view(e))
}

/// Whether one event comes before another.
pub open spec fn happens_before(a: EventView, b: EventView) -> bool {
    a.secs < b.secs || (a.secs == b.secs && a.nanos < b.nanos)
}

/// An episode in words.
pub open spec fn episode_text(e: EpisodeRow) -> Seq<char> {
    let decisions = if e.decisions@.len() == 0 {
        Seq::empty()
    } else {
        " | decisions: "@ + join(texts(e.decisions@), ", "@)
    };
    "[episode] "@ + e.title@ + " — "@ + decimal(e.concept_ids@.len()) + " concepts, "@ + decimal(
        e.memory_ids@.len(),
    ) + " memories"@ + decisions
}

/// A revision in words, its definition cut after 80 characters.
pub open spec fn revision_text(row: RevisionRow) -> Seq<char> {
    "[revision] "@ + row.name@ + " r"@ + decimal(row.revision as nat) + ": "@ + prefix(
        row.definition@,
        80,
    )
}

/// A new memory in words.
pub open spec fn memory_text(topic: Seq<char>, summary: Seq<char>) -> Seq<char> {
    "[memory] ["@ + topic + "] "@ + summary
}

/// The events of episodes.
pub open spec fn episode_events(v: Seq<EpisodeRow>) -> Seq<EventView> {
    v.map_values(
        |e: EpisodeRow|
            EventView {
                secs: e.created_at.seconds(),
                nanos: e.created_at.nanoseconds(),
                text: episode_text(e),
            },
    )
}

/// A sequence of events and one more behind it, where its time can be read.
pub open spec fn with_event(before: Seq<EventView>, time: Seq<char>, text: Seq<char>) -> Seq<
    EventView,
> {
    match rfc3339_instant(time) {
        Some(p) => before.push(EventView { secs: p.0, nanos: p.1, text }),
        None => before,
    }
}

/// The events of revisions. A row whose time cannot be read is left out.
pub open spec fn revision_events(v: Seq<RevisionRow>) -> Seq<EventView>
    decreases v.len(),
{
    if v.len() == 0 {
        Seq::empty()
    } else {
        with_event(
            revision_events(v.drop_last()),
            v.last().created_at@,
            revision_text(v.last()),
        )
    }
}

/// The events of rows of memories. A row whose time cannot be read is left out.
pub open spec fn memory_row_events(v: Seq<MemoryRow>) -> Seq<EventView>
    decreases v.len(),
{
    if v.len() == 0 {
        Seq::empty()
    } else {
        with_event(
            memory_row_events(v.drop_last()),
            v.last().created_at@,
            memory_text(v.last().topic@, v.last().summary@),
        )
    }
}

/// The events of memories.
pub open spec fn memory_events(rows: MemoryRows) -> Seq<EventView> {
    match rows {
        MemoryRows::Queried(v) => memory_row_events(v@),
        MemoryRows::Recent(v) => v@.map_values(
            |m: Memory|
                EventView {
                    secs: m.created_at.seconds(),
                    nanos: m.created_at.nanoseconds(),
                    text: memory_text(m.topic@, m.summary@),
                },
        ),
    }
}

/// An event put in its place among events that stand the newest first, behind
/// those of the same time.
pub open spec fn placed(v: Seq<EventView>, e: EventView) -> Seq<EventView>
    decreases v.len(),
{
    if v.len() > 0 && happens_before(v.last(), e) {
        placed(v.drop_last(), e).push(v.last())
    } else {
        v.push(e)
    }
}

/// The events, the newest first; those of the same time as they came.
pub open spec fn newest_first(v: Seq<EventView>) -> Seq<EventView>
    decreases v.len(),
{
    if v.len() == 0 {
        Seq::empty()
    } else {
        placed(newest_first(v.drop_last()), v.last())
    }
}

/// Whether events stand the newest first.
pub open spec fn is_descending(v: Seq<EventView>) -> bool {
    forall|i: int, j: int| 0 <= i < j < v.len() ==> !happens_before(v[i], v[j])
}

/// Whether an event has this time.
pub open spec fn at_time(secs: int, nanos: int) -> spec_fn(EventView) -> bool {
    |e: EventView| e.secs == secs && e.nanos == nanos
}

proof fn lemma_placed(v: Seq<EventView>, e: EventView)
    requires
        is_descending(v),
    ensures
        is_descending(placed(v, e)),
        placed(v, e).to_multiset() =~= v.to_multiset().insert(e),
    decreases v.len(),
{
    broadcast use vstd::seq_lib::group_to_multiset_ensures;

    if v.len() > 0 && happens_before(v.last(), e) {
        let front = v.drop_last();
        lemma_placed(front, e);
        assert(v =~= front.push(v.last()));
        let r = placed(front, e);
        assert forall|i: int| 0 <= i < r.len() implies !happens_before(#[trigger] r[i], v.last()) by {
            assert(r.to_multiset().count(r[i]) > 0);
            if r[i] != e {
                assert(front.to_multiset().count(r[i]) > 0);
                assert(front.contains(r[i]));
                let k = choose|k: int| 0 <= k < front.len() && front[k] == r[i];
                assert(v[k] == r[i] && v[v.len() - 1] == v.last());
            }
        }
    } else {
        assert forall|i: int| 0 <= i < v.len() implies !happens_before(#[trigger] v[i], e) by {
            if i < v.len() - 1 {
                assert(!happens_before(v[i], v[v.len() - 1]));
            }
        }
    }
}

/// Law: a timeline stands the newest first and holds the same events as it was
/// given, none lost and none added.
pub proof fn law_timeline_is_ordered(v: Seq<EventView>)
    ensures
        is_descending(newest_first(v)),
        newest_first(v).to_multiset() =~= v.to_multiset(),
    decreases v.len(),
{
    broadcast use vstd::seq_lib::group_to_multiset_ensures;

    if v.len() == 0 {
        assert(newest_first(v) =~= v);
    } else {
        law_timeline_is_ordered(v.drop_last());
        lemma_placed(newest_first(v.drop_last()), v.last());
        assert(v =~= v.drop_last().push(v.last()));
    }
}

proof fn lemma_filter_push(v: Seq<EventView>, e: EventView, p: spec_fn(EventView) -> bool)
    ensures
        v.push(e).filter(p) == if p(e) {
            v.filter(p).push(e)
        } else {
            v.filter(p)
        },
{
    reveal(Seq::filter);
    assert(v.push(e).drop_last() =~= v);
}

proof fn lemma_placed_is_stable(v: Seq<EventView>, e: EventView, secs: int, nanos: int)
    ensures
        placed(v, e).filter(at_time(secs, nanos)) =~= v.push(e).filter(at_time(secs, nanos)),
    decreases v.len(),
{
    let p = at_time(secs, nanos);
    if v.len() > 0 && happens_before(v.last(), e) {
        let front = v.drop_last();
        lemma_placed_is_stable(front, e, secs, nanos);
        lemma_filter_push(placed(front, e), v.last(), p);
        lemma_filter_push(front, e, p);
        lemma_filter_push(front, v.last(), p);
        lemma_filter_push(v, e, p);
        assert(v =~= front.push(v.last()));
    }
}

/// Law: events of the same time keep the order in which they came.
pub proof fn law_timeline_is_stable(v: Seq<EventView>, secs: int, nanos: int)
    ensures
        newest_first(v).filter(at_time(secs, nanos)) =~= v.filter(at_time(secs, nanos)),
    decreases v.len(),
{
    let p = at_time(secs, nanos);
    if v.len() > 0 {
        let front = v.drop_last();
        law_timeline_is_stable(front, secs, nanos);
        lemma_placed_is_stable(newest_first(front), v.last(), secs, nanos);
        lemma_filter_push(newest_first(front), v.last(), p);
        lemma_filter_push(front, v.last(), p);
        assert(v =~= front.push(v.last()));
    } else {
        assert(newest_first(v) =~= v);
    }
}

fn place(v: &mut Vec<(Timestamp, String)>, e: (Timestamp, String))
    ensures
        events_view(final(v)@) == placed(events_view(old(v)@), event_view(e)),
{
    let ghost all = events_view(v@);
    let ghost ev = event_view(e);
    let mut j: usize = v.len();
    assert(all.take(j as int) =~= all);
    assert(placed(all, ev) =~= placed(all.take(j as int), ev) + all.skip(j as int));
    while j > 0 && v[j - 1].0.is_before(&e.0)
        invariant
            j <= v@.len(),
            all == events_view(v@),
            ev == event_view(e),
            placed(all, ev) == placed(all.take(j as int), ev) + all.skip(j as int),
        decreases j,
    {
        let ghost front = all.take(j as int);
        assert(front.last() == event_view(v@[j - 1]));
        assert(front.drop_last() =~= all.take(j - 1));
        assert(placed(all.take(j - 1), ev).push(front.last()) + all.skip(j as int) =~= placed(
            all.take(j - 1),
            ev,
        ) + all.skip(j - 1));
        j = j - 1;
    }
    let ghost front = all.take(j as int);
    assert(j > 0 ==> front.last() == event_view(v@[j - 1]));
    assert(placed(front, ev) == front.push(ev));
    v.insert(j, e);
    assert(events_view(v@) =~= front.push(ev) + all.skip(j as int));
}

/// Puts events in order, the newest first.
fn sort_events(events: Vec<(Timestamp, String)>) -> (r: Vec<(Timestamp, String)>)
    ensures
        events_view(r@) == newest_first(events_view(events@)),
{
    let ghost all = events@;
    let mut left: Vec<(Timestamp, String)> = events;
    let mut r: Vec<(Timestamp, String)> = Vec::new();
    assert(events_view(all.take(0)) =~= Seq::<EventView>::empty());
    assert(events_view(r@) =~= Seq::<EventView>::empty());
    while left.len() > 0
        invariant
            left@.len() <= all.len(),
            left@ == all.skip(all.len() - left@.len()),
            events_view(r@) == newest_first(events_view(all.take(all.len() - left@.len()))),
        decreases left@.len(),
    {
        let ghost k = all.len() - left@.len();
        let e: (Timestamp, String) = left.remove(0);
        assert(e == all[k]);
        assert(events_view(all.take(k + 1)).drop_last() =~= events_view(all.take(k)));
        assert(events_view(all.take(k + 1)).last() == event_view(e));
        place(&mut r, e);
    }
    assert(all.take(all.len() as int) =~= all);
    r
}

fn episode_text_of(e: &EpisodeRow) -> (r: String)
    ensures
        r@ == episode_text(*e),
{
    let mut s: String = "[episode] ".to_owned();
    s.append(e.title.as_str());
    s.append(" — ");
    push_decimal(&mut s, e.concept_ids.len() as u64);
    s.append(" concepts, ");
    push_decimal(&mut s, e.memory_ids.len() as u64);
    s.append(" memories");
    if e.decisions.len() > 0 {
        s.append(" | decisions: ");
        s.append(join_strings(&e.decisions, ", ").as_str());
    }
    assert(s@ =~= episode_text(*e));
    s
}

fn push_episodes(events: &mut Vec<(Timestamp, String)>, v: &Vec<EpisodeRow>)
    ensures
        events_view(final(events)@) == events_view(old(events)@) + episode_events(v@),
{
    let ghost start = events_view(events@);
    let mut i: usize = 0;
    assert(start =~= start + episode_events(v@.take(0)));
    while i < v.len()
        invariant
            i <= v@.len(),
            events_view(events@) == start + episode_events(v@.take(i as int)),
        decreases v@.len() - i,
    {
        let e: (Timestamp, String) = (v[i].created_at, episode_text_of(&v[i]));
        let ghost was = events@;
        events.push(e);
        assert(events_view(events@) =~= events_view(was).push(event_view(e)));
        assert(episode_events(v@.take(i + 1)) =~= episode_events(v@.take(i as int)).push(
            event_view(e),
        ));
        i = i + 1;
    }
    assert(v@.take(i as int) =~= v@);
}

fn revision_text_of(row: &RevisionRow) -> (r: String)
    ensures
        r@ == revision_text(*row),
{
    let mut s: String = "[revision] ".to_owned();
    s.append(row.name.as_str());
    s.append(" r");
    push_decimal(&mut s, row.revision as u64);
    s.append(": ");
    s.append(take_chars(row.definition.as_str(), 80).as_str());
    s
}

fn push_read(events: &mut Vec<(Timestamp, String)>, time: &str, text: String)
    ensures
        events_view(final(events)@) == with_event(events_view(old(events)@), time@, text@),
{
    let ghost was = events@;
    match parse_rfc3339(time) {
        Some(t) => {
            let e: (Timestamp, String) = (t, text);
            events.push(e);
            assert(events_view(events@) =~= events_view(was).push(event_view(e)));
        },
        None => {},
    }
}

proof fn lemma_with_event(start: Seq<EventView>, before: Seq<EventView>, time: Seq<char>, text: Seq<char>)
    ensures
        with_event(start + before, time, text) =~= start + with_event(before, time, text),
{
}

fn push_revisions(events: &mut Vec<(Timestamp, String)>, v: &Vec<RevisionRow>)
    ensures
        events_view(final(events)@) == events_view(old(events)@) + revision_events(v@),
{
    let ghost start = events_view(events@);
    let mut i: usize = 0;
    assert(start =~= start + revision_events(v@.take(0)));
    while i < v.len()
        invariant
            i <= v@.len(),
            events_view(events@) == start + revision_events(v@.take(i as int)),
        decreases v@.len() - i,
    {
        let text: String = revision_text_of(&v[i]);
        proof {
            assert(v@.take(i + 1).drop_last() =~= v@.take(i as int));
            lemma_with_event(
                start,
                revision_events(v@.take(i as int)),
                v@[i as int].created_at@,
                text@,
            );
        }
        push_read(events, v[i].created_at.as_str(), text);
        i = i + 1;
    }
    assert(v@.take(i as int) =~= v@);
}

fn memory_text_of(topic: &str, summary: &str) -> (r: String)
    ensures
        r@ == memory_text(topic@, summary@),
{
    let mut s: String = "[memory] [".to_owned();
    s.append(topic);
    s.append("] ");
    s.append(summary);
    s
}

fn push_memory_rows(events: &mut Vec<(Timestamp, String)>, v: &Vec<MemoryRow>)
    ensures
        events_view(final(events)@) == events_view(old(events)@) + memory_row_events(v@),
{
    let ghost start = events_view(events@);
    let mut i: usize = 0;
    assert(start =~= start + memory_row_events(v@.take(0)));
    while i < v.len()
        invariant
            i <= v@.len(),
            events_view(events@) == start + memory_row_events(v@.take(i as int)),
        decreases v@.len() - i,
    {
        let text: String = memory_text_of(v[i].topic.as_str(), v[i].summary.as_str());
        proof {
            assert(v@.take(i + 1).drop_last() =~= v@.take(i as int));
            lemma_with_event(
                start,
                memory_row_events(v@.take(i as int)),
                v@[i as int].created_at@,
                text@,
            );
        }
        push_read(events, v[i].created_at.as_str(), text);
        i = i + 1;
    }
    assert(v@.take(i as int) =~= v@);
}

fn push_memories(events: &mut Vec<(Timestamp, String)>, v: &Vec<Memory>)
    ensures
        events_view(final(events)@) == events_view(old(events)@) + memory_events(
            MemoryRows::Recent(*v),
        ),
{
    let ghost start = events_view(events@);
    let ghost whole = memory_events(MemoryRows::Recent(*v));
    let mut i: usize = 0;
    assert(start =~= start + whole.take(0));
    while i < v.len()
        invariant
            i <= v@.len(),
            whole == memory_events(MemoryRows::Recent(*v)),
            events_view(events@) == start + whole.take(i as int),
        decreases v@.len() - i,
    {
        let e: (Timestamp, String) = (
            v[i].created_at,
            memory_text_of(v[i].topic.as_str(), v[i].summary.as_str()),
        );
        let ghost was = events@;
        events.push(e);
        assert(events_view(events@) =~= events_view(was).push(event_view(e)));
        assert(whole.take(i + 1) =~= whole.take(i as int).push(event_view(e)));
        i = i + 1;
    }
    assert(whole.take(i as int) =~= whole);
}

/// All that is to be shown, in no particular order.
pub open spec fn all_events(
    episodes: Seq<EpisodeRow>,
    revisions: Seq<RevisionRow>,
    memories: MemoryRows,
) -> Seq<EventView> {
    episode_events(episodes) + revision_events(revisions) + memory_events(memories)
}

/// The first elements of a sequence, as many as there are up to `n`.
pub open spec fn at_most(v: Seq<EventView>, n: int) -> Seq<EventView> {
    if v.len() <= n {
        v
    } else {
        v.take(n)
    }
}

/// The timeline of these events: the newest first, as many as the limit allows.
pub fn newest_events(events: Vec<(Timestamp, String)>, limit: usize) -> (r: TimelineOutput)
    ensures
        events_view(r.events@) == at_most(newest_first(events_view(events@)), limit as int),
{
    let mut sorted: Vec<(Timestamp, String)> = sort_events(events);
    let ghost whole = sorted@;
    if sorted.len() > limit {
        sorted.truncate(limit);
        assert(events_view(sorted@) =~= events_view(whole).take(limit as int));
    }
    TimelineOutput { events: sorted }
}

/// The timeline of what the store found: the newest events first, as many as
/// the limit allows.
pub fn timeline_events(
    episodes: &Vec<EpisodeRow>,
    revisions: &Vec<RevisionRow>,
    memories: &MemoryRows,
    limit: usize,
) -> (r: TimelineOutput)
    ensures
        events_view(r.events@) == at_most(
            newest_first(all_events(episodes@, revisions@, *memories)),
            limit as int,
        ),
{
    let mut events: Vec<(Timestamp, String)> = Vec::new();
    push_episodes(&mut events, episodes);
    push_revisions(&mut events, revisions);
    match memories {
        MemoryRows::Queried(v) => {
            push_memory_rows(&mut events, v);
        },
        MemoryRows::Recent(v) => {
            push_memories(&mut events, v);
        },
    }
    assert(events_view(events@) =~= all_events(episodes@, revisions@, *memories));
    newest_events(events, limit)
}

/// An event in one line, with its minute first.
pub open spec fn event_line(e: (Timestamp, String)) -> Seq<char> {
    formatted(e.0, "%Y-%m-%d %H:%M"@) + " "@ + e.1@
}

/// An event in one line, with its minute as text.
pub fn format_event(minute: &str, text: &str) -> (r: String)
    ensures
        r@ == minute@ + " "@ + text@,
{
    let mut s: String = minute.to_owned();
    s.append(" ");
    s.append(text);
    s
}

/// A timeline in words.
pub open spec fn timeline_text(o: TimelineOutput) -> Seq<char> {
    if o.events@.len() == 0 {
        "No events found in the specified range."@
    } else {
        join(o.events@.map_values(|e: (Timestamp, String)| event_line(e)), "\n"@)
    }
}

impl TimelineOutput {
    /// A timeline in words.
    pub fn to_markdown(&self) -> (r: String)
        ensures
            r@ == timeline_text(*self),
    {
        if self.events.len() == 0 {
            return "No events found in the specified range.".to_owned();
        }
        let mut v: Vec<String> = Vec::new();
        let mut i: usize = 0;
        while i < self.events.len()
            invariant
                i <= self.events@.len(),
                v@.len() == i,
                forall|k: int| 0 <= k < i ==> (#[trigger] v@[k])@ == event_line(self.events@[k]),
            decreases self.events@.len() - i,
        {
            let minute: String = format_minute(&self.events[i].0);
            v.push(format_event(minute.as_str(), self.events[i].1.as_str()));
            i = i + 1;
        }
        assert(texts(v@) =~= self.events@.map_values(|e: (Timestamp, String)| event_line(e)));
        join_strings(&v, "\n")
    }

    /// A timeline in words.
    pub fn to_cli_text(&self) -> (r: String)
        ensures
            r@ == timeline_text(*self),
    {
        self.to_markdown()
    }
}

} // verus!
