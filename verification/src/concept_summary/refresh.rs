//! Refreshing living summaries.

use crate::text::{str_eq, texts, trim, trimmed};
use crate::time::{Timestamp, elapsed_secs, span_secs};
use crate::types::{Concept, opt_text};
use vstd::prelude::*;
use vstd::string::*;

verus! {

/// What a refresh of living summaries did.
#[derive(Clone, Debug, Default)]
pub struct ConceptSummaryOutcome {
    pub attempted: u32,
    pub succeeded: u32,
    pub skipped_not_eligible: u32,
    pub llm_failed: u32,
    pub skipped_disabled: bool,
    pub skipped_no_llm: bool,
    pub dry_run: bool,
    /// Ids of the summaries that were made.
    pub minted_summary_ids: Vec<String>,
}

/// An outcome as a mathematical value.
pub struct RefreshView {
    pub attempted: int,
    pub succeeded: int,
    pub skipped_not_eligible: int,
    pub llm_failed: int,
    pub skipped_disabled: bool,
    pub skipped_no_llm: bool,
    pub dry_run: bool,
    pub minted: Seq<Seq<char>>,
}

impl ConceptSummaryOutcome {
    /// The outcome as a mathematical value.
    pub open spec fn view(&self) -> RefreshView {
        RefreshView {
            attempted: self.attempted as int,
            succeeded: self.succeeded as int,
            skipped_not_eligible: self.skipped_not_eligible as int,
            llm_failed: self.llm_failed as int,
            skipped_disabled: self.skipped_disabled,
            skipped_no_llm: self.skipped_no_llm,
            dry_run: self.dry_run,
            minted: texts(self.minted_summary_ids@),
        }
    }
}

/// An outcome in which nothing was done.
pub open spec fn idle_outcome(dry_run: bool) -> RefreshView {
    RefreshView {
        attempted: 0,
        succeeded: 0,
        skipped_not_eligible: 0,
        llm_failed: 0,
        skipped_disabled: false,
        skipped_no_llm: false,
        dry_run,
        minted: Seq::empty(),
    }
}

fn new_outcome(dry_run: bool) -> (r: ConceptSummaryOutcome)
    ensures
        r@ == idle_outcome(dry_run),
{
    let ids: Vec<String> = Vec::new();
    assert(texts(ids@) =~= Seq::<Seq<char>>::empty());
    ConceptSummaryOutcome {
        attempted: 0,
        succeeded: 0,
        skipped_not_eligible: 0,
        llm_failed: 0,
        skipped_disabled: false,
        skipped_no_llm: false,
        dry_run,
        minted_summary_ids: ids,
    }
}

/// The positions that are due, in order.
pub open spec fn due_positions(due: Seq<bool>) -> Seq<int>
    decreases due.len(),
{
    if due.len() == 0 {
        Seq::empty()
    } else {
        let rest = due_positions(due.drop_last());
        if due.last() {
            rest.push(due.len() - 1)
        } else {
            rest
        }
    }
}

/// How many concepts were asked for by name and are not due.
pub open spec fn not_eligible_count(due: Seq<bool>, single: bool) -> int {
    if single && due_positions(due).len() == 0 {
        1
    } else {
        0
    }
}

/// Which concepts are refreshed, and how many were asked for that are not. When
/// one concept was asked for, it is the only one in `due`, which is empty where
/// there is no such concept; it counts if it is not due. In a batch, concepts
/// that are not due do not count.
pub fn select_eligible(due: &Vec<bool>, single: bool) -> (r: (Vec<usize>, u32))
    ensures
        r.0@.map_values(|i: usize| i as int) == due_positions(due@),
        r.0@.len() == due_positions(due@).len(),
        r.1 == not_eligible_count(due@, single),
{
    let mut v: Vec<usize> = Vec::new();
    let mut i: usize = 0;
    assert(v@.map_values(|i: usize| i as int) =~= due_positions(due@.take(0)));
    while i < due.len()
        invariant
            i <= due@.len(),
            v@.map_values(|i: usize| i as int) == due_positions(due@.take(i as int)),
        decreases due@.len() - i,
    {
        assert(due@.take(i + 1).drop_last() =~= due@.take(i as int));
        if due[i] {
            let ghost before = v@;
            v.push(i);
            assert(v@.map_values(|i: usize| i as int) =~= before.map_values(
                |i: usize| i as int,
            ).push(i as int));
        }
        i = i + 1;
    }
    assert(due@.take(i as int) =~= due@);
    assert(v@.map_values(|i: usize| i as int).len() == v@.len());
    let missed: u32 = if single && v.len() == 0 {
        1
    } else {
        0
    };
    (v, missed)
}

/// Starts a refresh: the outcome to fill, and how many of the concepts that are
/// due are taken on. A feature that is switched off counts nothing; a dry run
/// counts the concepts that are due and takes on none; without a model nothing
/// is taken on.
pub open spec fn is_start(
    r: (ConceptSummaryOutcome, usize),
    enabled: bool,
    due: usize,
    not_eligible: u32,
    dry_run: bool,
    has_llm: bool,
    batch_size: usize,
) -> bool {
    let selected = RefreshView {
        skipped_not_eligible: not_eligible as int,
        ..idle_outcome(dry_run)
    };
    let batch = if batch_size < 1 {
        1
    } else {
        batch_size as int
    };
    if !enabled {
        r.0@ == (RefreshView { skipped_disabled: true, ..idle_outcome(dry_run) }) && r.1 == 0
    } else if dry_run {
        r.0@ == (RefreshView { attempted: due as int % 0x1_0000_0000, ..selected }) && r.1 == 0
    } else if !has_llm {
        r.0@ == (RefreshView { skipped_no_llm: true, ..selected }) && r.1 == 0
    } else {
        r.0@ == selected && r.1 == (if due < batch {
            due as int
        } else {
            batch
        })
    }
}

/// Starts a refresh over the concepts that are due.
pub fn run_concept_summary(
    enabled: bool,
    due: usize,
    not_eligible: u32,
    dry_run: bool,
    has_llm: bool,
    batch_size: usize,
) -> (r: (ConceptSummaryOutcome, usize))
    ensures
        is_start(r, enabled, due, not_eligible, dry_run, has_llm, batch_size),
{
    let mut outcome: ConceptSummaryOutcome = new_outcome(dry_run);
    if !enabled {
        outcome.skipped_disabled = true;
        return (outcome, 0);
    }
    outcome.skipped_not_eligible = not_eligible;
    if dry_run {
        outcome.attempted = (due as u64 % 0x1_0000_0000) as u32;
        return (outcome, 0);
    }
    if !has_llm {
        outcome.skipped_no_llm = true;
        return (outcome, 0);
    }
    let batch: usize = if batch_size < 1 {
        1
    } else {
        batch_size
    };
    let taken: usize = if due < batch {
        due
    } else {
        batch
    };
    (outcome, taken)
}

/// Starts a refresh over the concepts that are due, with a model at hand.
pub fn run_concept_summary_with_extractor(
    enabled: bool,
    due: usize,
    not_eligible: u32,
    dry_run: bool,
    batch_size: usize,
) -> (r: (ConceptSummaryOutcome, usize))
    ensures
        is_start(r, enabled, due, not_eligible, dry_run, true, batch_size),
{
    run_concept_summary(enabled, due, not_eligible, dry_run, true, batch_size)
}

/// How the refresh of one concept ended.
#[derive(Clone, Debug)]
pub enum SummaryResult {
    /// The summary with this id was stored.
    Stored(String),
    /// The model could not be reached, or its answer was blank.
    LlmFailed,
    /// The summary could not be stored.
    StoreFailed,
}

/// The outcome with one more concept.
pub open spec fn with_concept(o: RefreshView, result: SummaryResult) -> RefreshView {
    let tried = RefreshView { attempted: o.attempted + 1, ..o };
    match result {
        SummaryResult::Stored(id) => RefreshView {
            succeeded: o.succeeded + 1,
            minted: if id@.len() > 0 {
                o.minted.push(id@)
            } else {
                o.minted
            },
            ..tried
        },
        SummaryResult::LlmFailed => RefreshView { llm_failed: o.llm_failed + 1, ..tried },
        SummaryResult::StoreFailed => tried,
    }
}

/// Whether the counts are consistent: no more ended than were attempted.
pub open spec fn is_consistent(o: RefreshView) -> bool {
    &&& 0 <= o.succeeded
    &&& 0 <= o.llm_failed
    &&& o.succeeded + o.llm_failed <= o.attempted
    &&& o.minted.len() <= o.succeeded
}

impl ConceptSummaryOutcome {
    /// Counts one concept.
    pub fn tally(&mut self, result: SummaryResult)
        requires
            is_consistent(old(self)@),
            old(self).attempted < u32::MAX,
        ensures
            final(self)@ == with_concept(old(self)@, result),
            is_consistent(final(self)@),
    {
        self.attempted = self.attempted + 1;
        match result {
            SummaryResult::Stored(id) => {
                self.succeeded = self.succeeded + 1;
                if !id.as_str().is_empty() {
                    let ghost before = self.minted_summary_ids@;
                    let ghost idv = id@;
                    self.minted_summary_ids.push(id);
                    assert(texts(self.minted_summary_ids@) =~= texts(before).push(idv));
                }
            },
            SummaryResult::LlmFailed => {
                self.llm_failed = self.llm_failed + 1;
            },
            SummaryResult::StoreFailed => {},
        }
    }
}

/// The summary that an answer gives, if it gives one.
pub open spec fn summary_of(answer: Seq<char>) -> Option<Seq<char>> {
    if trimmed(answer).len() > 0 {
        Some(trimmed(answer))
    } else {
        None
    }
}

/// The summary in an answer without its code fences: the answer without the
/// white space around it, where anything is left.
pub fn summary_in_answer(answer: &str) -> (r: Option<String>)
    ensures
        opt_text(r) == summary_of(answer@),
{
    let s: String = trim(answer);
    if s.as_str().is_empty() {
        None
    } else {
        Some(s)
    }
}

/// The id of a summary, from a fresh unique id.
pub fn summary_id(unique: &str) -> (r: String)
    ensures
        r@ == "cs_"@ + unique@,
{
    let mut s: String = "cs_".to_owned();
    s.append(unique);
    s
}

/// Whether two concepts agree in everything but their living summary.
pub open spec fn same_but_summary(a: Concept, b: Concept) -> bool {
    &&& a.id == b.id
    &&& a.memoir_id == b.memoir_id
    &&& a.name == b.name
    &&& a.definition == b.definition
    &&& a.labels == b.labels
    &&& a.source_memory_ids == b.source_memory_ids
    &&& a.revision == b.revision
    &&& a.last_episode_id == b.last_episode_id
    &&& a.created_at == b.created_at
    &&& a.updated_at == b.updated_at
}

/// Whether a living summary may be stored: the concept is still at the revision
/// it was made of, and its living summary is still the one that was there when
/// the refresh began, by its source revision and by its id.
pub open spec fn may_store(
    c: Concept,
    source_revision: u32,
    prior: Option<u32>,
    prior_id: Option<Seq<char>>,
) -> bool {
    &&& c.revision == source_revision
    &&& c.living_summary_source_revision == prior
    &&& opt_text(c.living_summary_id) == prior_id
}

/// Whether `r` is the concept with this living summary.
pub open spec fn is_stored(
    r: Concept,
    c: Concept,
    source_revision: u32,
    summary: Seq<char>,
    id: Seq<char>,
    now: Timestamp,
) -> bool {
    &&& same_but_summary(r, c)
    &&& opt_text(r.living_summary) == Some(summary)
    &&& r.living_summary_updated_at == Some(now)
    &&& r.living_summary_source_revision == Some(source_revision)
    &&& opt_text(r.living_summary_id) == Some(id)
}

fn same_revision(a: Option<u32>, b: Option<u32>) -> (r: bool)
    ensures
        r == (a == b),
{
    match (a, b) {
        (Some(x), Some(y)) => x == y,
        (None, None) => true,
        _ => false,
    }
}

fn same_id(a: &Option<String>, b: &Option<String>) -> (r: bool)
    ensures
        r == (opt_text(*a) == opt_text(*b)),
{
    match (a, b) {
        (Some(x), Some(y)) => str_eq(x.as_str(), y.as_str()),
        (None, None) => true,
        _ => false,
    }
}

/// Stores a living summary, unless the concept was revised, or another summary
/// stored, since the concept was read. Returns whether it was stored.
///
/// It is the guarded update of the row in `concepts`, on the row's value: the
/// statement that the store runs compares and sets the same columns.
pub fn write_living_summary_if_revision_unchanged(
    concept: &mut Concept,
    source_revision: u32,
    prior_source_revision: Option<u32>,
    prior_summary_id: &Option<String>,
    summary: &str,
    summary_id: &str,
    now: Timestamp,
) -> (stored: bool)
    ensures
        stored == may_store(
            *old(concept),
            source_revision,
            prior_source_revision,
            opt_text(*prior_summary_id),
        ),
        stored ==> is_stored(
            *final(concept),
            *old(concept),
            source_revision,
            summary@,
            summary_id@,
            now,
        ),
        !stored ==> *final(concept) == *old(concept),
{
    if concept.revision == source_revision && same_revision(
        concept.living_summary_source_revision,
        prior_source_revision,
    ) && same_id(&concept.living_summary_id, prior_summary_id) {
        concept.living_summary = Some(summary.to_owned());
        concept.living_summary_updated_at = Some(now);
        concept.living_summary_source_revision = Some(source_revision);
        concept.living_summary_id = Some(summary_id.to_owned());
        true
    } else {
        false
    }
}

/// Of two refreshes that started from the same concept, the one that ends later
/// does not overwrite the other's summary: each summary has an id of its own, so
/// the first to be stored has another id than the one that both found.
pub proof fn law_later_refresh_does_not_overwrite(
    before: Concept,
    after: Concept,
    source_revision: u32,
    prior: Option<u32>,
    prior_id: Option<Seq<char>>,
    summary: Seq<char>,
    id: Seq<char>,
    now: Timestamp,
)
    requires
        may_store(before, source_revision, prior, prior_id),
        is_stored(after, before, source_revision, summary, id, now),
        prior_id != Some(id),
    ensures
        !may_store(after, source_revision, prior, prior_id),
{
}

/// A summary of an earlier revision is never stored.
pub proof fn law_stale_summary_is_not_stored(
    c: Concept,
    source_revision: u32,
    prior: Option<u32>,
    prior_id: Option<Seq<char>>,
)
    requires
        c.revision != source_revision,
    ensures
        !may_store(c, source_revision, prior, prior_id),
{
}

/// The error for a summary that came too late.
pub fn stale_write_error(concept_id: &str) -> (r: String)
    ensures
        r@ == "concept '"@ + concept_id@
            + "' changed while concept_summary was running; skipped stale living_summary write"@,
{
    let mut s: String = "concept '".to_owned();
    s.append(concept_id);
    s.append("' changed while concept_summary was running; skipped stale living_summary write");
    s
}

/// What a refresh says about how often summaries are needed.
#[derive(Clone, Debug)]
pub struct RefreshSample {
    pub revisions_since_last: u32,
    pub age_secs_since_last: i64,
    pub first_refresh: bool,
    pub summary_id: String,
}

/// A sample of these revisions and this age in seconds, neither below 0.
pub open spec fn is_sample_of(r: RefreshSample, concept: Concept, age: int, summary_id: Seq<char>) -> bool {
    &&& r.first_refresh == (concept.living_summary_source_revision is None)
    &&& r.revisions_since_last == ({
        let prior = match concept.living_summary_source_revision {
            Some(p) => p as int,
            None => 0,
        };
        if concept.revision > prior {
            concept.revision - prior
        } else {
            0
        }
    })
    &&& r.age_secs_since_last == (if age > 0 {
        age
    } else {
        0
    })
    &&& r.summary_id@ == summary_id
}

/// The sample of a refresh, `age` seconds after the last summary or, for the
/// first, after the concept was made.
pub fn sample_of_age(concept: &Concept, age: i64, summary_id: &str) -> (r: RefreshSample)
    ensures
        is_sample_of(r, *concept, age as int, summary_id@),
{
    let prior: u32 = match concept.living_summary_source_revision {
        Some(p) => p,
        None => 0,
    };
    RefreshSample {
        revisions_since_last: concept.revision.saturating_sub(prior),
        age_secs_since_last: if age > 0 {
            age
        } else {
            0
        },
        first_refresh: concept.living_summary_source_revision.is_none(),
        summary_id: summary_id.to_owned(),
    }
}

/// The sample of a refresh: revisions since the last summary, seconds since it
/// or, for the first, since the concept was made, and neither below 0.
pub fn refresh_sample(concept: &Concept, now: &Timestamp, summary_id: &str) -> (r: RefreshSample)
    ensures
        is_sample_of(
            r,
            *concept,
            span_secs(
                *now,
                match concept.living_summary_updated_at {
                    Some(t) => t,
                    None => concept.created_at,
                },
            ),
            summary_id@,
        ),
{
    let anchor: Timestamp = match concept.living_summary_updated_at {
        Some(t) => t,
        None => concept.created_at,
    };
    sample_of_age(concept, elapsed_secs(now, &anchor), summary_id)
}

} // verus!
