//! The decisions of the vector sweep, row by row.
//!
//! Each flagged row is handled by a state machine: it says which candidate to
//! merge, which to put before a judge and which to be superseded by, is told
//! what came of it, and ends by saying whether the row's flag may be cleared.

use crate::dedup::vector::{
    DedupLimits, VecDedupItem, at_least_one, run_limit, take_vec_dedup_window,
    vec_dedup_llm_budget,
};
use crate::time::{Timestamp, format_date, formatted, is_older_than, older_than};
use crate::types::{DedupRelation, MemoryStatus};
use vstd::prelude::*;

verus! {

/// What the store knows of a candidate.
#[derive(Clone, Copy, Debug, PartialEq, Eq, Structural)]
pub struct CandidateInfo {
    pub superseded: bool,
    pub status: MemoryStatus,
    pub access_count: u32,
    pub created_at: Timestamp,
}

/// A neighbour of the row, nearest first.
#[derive(Clone, Copy, Debug, PartialEq, Eq, Structural)]
pub struct VecCandidate {
    /// The neighbour is the row itself.
    pub is_source: bool,
    /// Its similarity lies under the floor of what is looked at.
    pub below_floor: bool,
    /// Its similarity lies over the threshold for merging unasked.
    pub strong: bool,
    /// What the store knows of it, if it still has it.
    pub info: Option<CandidateInfo>,
}

/// What a candidate is good for.
#[derive(Clone, Copy, Debug, PartialEq, Eq, Structural)]
pub enum CandidateClass {
    /// Passed over.
    Skip,
    /// This one and all after it are too far away.
    Stop,
    /// Merged without asking.
    Strong,
    /// Put before a judge.
    Gray,
}

/// Whether a memory is a live canonical one.
pub open spec fn is_live(info: CandidateInfo) -> bool {
    !info.superseded && (info.status is Active || info.status is Updated)
}

/// What a candidate is good for.
pub open spec fn class_of(c: VecCandidate) -> CandidateClass {
    if c.is_source {
        CandidateClass::Skip
    } else if c.below_floor {
        CandidateClass::Stop
    } else if c.info is None || !is_live(c.info->0) {
        CandidateClass::Skip
    } else if c.strong {
        CandidateClass::Strong
    } else {
        CandidateClass::Gray
    }
}

/// What a candidate is good for.
pub fn classify_candidate(c: &VecCandidate) -> (r: CandidateClass)
    ensures
        r == class_of(*c),
{
    if c.is_source {
        return CandidateClass::Skip;
    }
    if c.below_floor {
        return CandidateClass::Stop;
    }
    match c.info {
        None => CandidateClass::Skip,
        Some(info) => {
            let live: bool = match info.status {
                MemoryStatus::Active => true,
                MemoryStatus::Updated => true,
                MemoryStatus::Retired => false,
            };
            if info.superseded || !live {
                CandidateClass::Skip
            } else if c.strong {
                CandidateClass::Strong
            } else {
                CandidateClass::Gray
            }
        },
    }
}

/// Whether the candidate survives a strong match: it was accessed before, or
/// is more than an hour old. Otherwise the row does.
pub open spec fn candidate_kept(info: CandidateInfo, now: Timestamp) -> bool {
    info.access_count >= 1 || older_than(info.created_at, now, 3600)
}

/// Whether the candidate survives a strong match.
pub fn keeps_candidate(info: &CandidateInfo, now: &Timestamp) -> (r: bool)
    ensures
        r == candidate_kept(*info, *now),
{
    info.access_count >= 1 || is_older_than(&info.created_at, now, 3600)
}

/// When the side that a strong match discards was made: now where the row goes, and
/// at the candidate's own time where the candidate goes.
pub open spec fn discarded_at(info: CandidateInfo, now: Timestamp) -> Timestamp {
    if candidate_kept(info, now) {
        now
    } else {
        info.created_at
    }
}

/// The day that the provenance marker of a strong match bears: today where the
/// row goes, and the day the candidate was made where the candidate goes.
pub fn discarded_date(info: &CandidateInfo, now: &Timestamp) -> (r: String)
    ensures
        r@ == formatted(discarded_at(*info, *now), "%Y-%m-%d"@),
{
    if keeps_candidate(info, now) {
        format_date(now)
    } else {
        format_date(&info.created_at)
    }
}

/// What the row waits for.
#[derive(Clone, Copy, Debug, PartialEq, Eq, Structural)]
pub enum RowPhase {
    Ready,
    /// The outcome of a strong merge with the current candidate.
    Merging,
    /// The verdict on the current candidate.
    Judging,
    /// The outcome of marking the row superseded by the current candidate.
    Superseding,
    Done,
}

/// What the row is told.
#[derive(Clone, Copy, Debug, PartialEq, Eq, Structural)]
pub enum RowEvent {
    Start,
    /// The strong merge was written; the row itself survived or not.
    Merged { row_kept: bool },
    /// The strong merge was rolled back, or could not be committed.
    MergeFailed,
    Verdict(DedupRelation),
    Superseded,
    SupersedeFailed,
}

/// What the row asks for.
#[derive(Clone, Copy, Debug, PartialEq, Eq, Structural)]
pub enum RowAction {
    /// Merge the row and this candidate.
    Merge { candidate: usize },
    /// Ask a judge about the row and this candidate.
    Judge { candidate: usize },
    /// Mark the row superseded by this candidate.
    Supersede { candidate: usize },
    /// The row is done; its flag is cleared or kept for the next sweep.
    Finish { clear_flag: bool },
}

/// A row as a mathematical value.
pub struct RowState {
    pub candidates: Seq<VecCandidate>,
    pub at: int,
    pub clear_flag: bool,
    pub llm_budget: int,
    pub llm_calls: int,
    pub merged: int,
    pub phase: RowPhase,
}

/// Index of the first candidate from `from` on that decides something: any
/// that is not skipped, but gray ones only where a judge may be asked.
pub open spec fn next_decision(c: Seq<VecCandidate>, may_ask: bool, from: int) -> int
    decreases c.len() - from,
{
    if from >= c.len() || from < 0 {
        c.len() as int
    } else if class_of(c[from]) is Skip || (class_of(c[from]) is Gray && !may_ask) {
        next_decision(c, may_ask, from + 1)
    } else {
        from
    }
}

/// The row at the next candidate that decides something, or done.
pub open spec fn row_from(s: RowState, from: int) -> RowState {
    let at = next_decision(s.candidates, s.llm_calls < s.llm_budget, from);
    if at >= s.candidates.len() {
        RowState { at, phase: RowPhase::Done, ..s }
    } else {
        match class_of(s.candidates[at]) {
            CandidateClass::Strong => RowState { at, phase: RowPhase::Merging, ..s },
            CandidateClass::Gray => RowState {
                at,
                phase: RowPhase::Judging,
                llm_calls: s.llm_calls + 1,
                ..s
            },
            _ => RowState { at, phase: RowPhase::Done, ..s },
        }
    }
}

/// Whether a row in this phase can be told this.
pub open spec fn row_expects(phase: RowPhase, event: RowEvent) -> bool {
    match event {
        RowEvent::Start => phase is Ready,
        RowEvent::Merged { .. } => phase is Merging,
        RowEvent::MergeFailed => phase is Merging,
        RowEvent::Verdict(_) => phase is Judging,
        RowEvent::Superseded => phase is Superseding,
        RowEvent::SupersedeFailed => phase is Superseding,
    }
}

/// One step of a row. A failed write keeps the flag, and so does a merge that
/// the row survived: its content changed, so it needs a new embedding.
pub open spec fn row_step(s: RowState, event: RowEvent) -> RowState {
    match event {
        RowEvent::Start => row_from(s, 0),
        RowEvent::Merged { row_kept } => RowState {
            merged: s.merged + 1,
            clear_flag: s.clear_flag && !row_kept,
            phase: RowPhase::Done,
            ..s
        },
        RowEvent::MergeFailed => RowState { clear_flag: false, phase: RowPhase::Done, ..s },
        RowEvent::Verdict(relation) => if relation is Duplicate || relation is Update {
            RowState { phase: RowPhase::Superseding, ..s }
        } else {
            row_from(s, s.at + 1)
        },
        RowEvent::Superseded => RowState { merged: s.merged + 1, phase: RowPhase::Done, ..s },
        RowEvent::SupersedeFailed => RowState { clear_flag: false, phase: RowPhase::Done, ..s },
    }
}

/// What a row in this state asks for.
pub open spec fn row_action(s: RowState) -> RowAction {
    match s.phase {
        RowPhase::Merging => RowAction::Merge { candidate: s.at as usize },
        RowPhase::Judging => RowAction::Judge { candidate: s.at as usize },
        RowPhase::Superseding => RowAction::Supersede { candidate: s.at as usize },
        RowPhase::Ready => RowAction::Finish { clear_flag: false },
        RowPhase::Done => RowAction::Finish { clear_flag: s.clear_flag },
    }
}

/// What every reachable row satisfies.
pub open spec fn row_invariant(s: RowState) -> bool {
    &&& 0 <= s.at <= s.candidates.len() <= usize::MAX
    &&& s.phase is Merging ==> s.at < s.candidates.len() && class_of(s.candidates[s.at]) is Strong
    &&& s.phase is Judging || s.phase is Superseding ==> s.at < s.candidates.len() && class_of(
        s.candidates[s.at],
    ) is Gray
    &&& 0 <= s.llm_calls
    &&& 0 <= s.merged
}

proof fn lemma_next_decision(c: Seq<VecCandidate>, may_ask: bool, from: int)
    requires
        0 <= from <= c.len(),
    ensures
        from <= next_decision(c, may_ask, from) <= c.len(),
        next_decision(c, may_ask, from) < c.len() ==> !(class_of(
            c[next_decision(c, may_ask, from)],
        ) is Skip),
        next_decision(c, may_ask, from) < c.len() && !may_ask ==> !(class_of(
            c[next_decision(c, may_ask, from)],
        ) is Gray),
    decreases c.len() - from,
{
    if from < c.len() && (class_of(c[from]) is Skip || (class_of(c[from]) is Gray && !may_ask)) {
        lemma_next_decision(c, may_ask, from + 1);
    }
}

/// Every step keeps the invariant.
pub proof fn law_row_step_keeps_invariant(s: RowState, event: RowEvent)
    requires
        row_invariant(s),
        row_expects(s.phase, event),
    ensures
        row_invariant(row_step(s, event)),
        row_step(s, event).candidates == s.candidates,
        s.llm_calls <= s.llm_budget ==> row_step(s, event).llm_calls <= s.llm_budget,
{
    lemma_next_decision(s.candidates, s.llm_calls < s.llm_budget, 0);
    if s.at < s.candidates.len() {
        lemma_next_decision(s.candidates, s.llm_calls < s.llm_budget, s.at + 1);
    }
}

/// The flag of a row whose write failed is never cleared, and neither is that
/// of a row that survived its own merge.
pub proof fn law_failed_write_keeps_flag(s: RowState, event: RowEvent)
    requires
        row_expects(s.phase, event),
        event is MergeFailed || event is SupersedeFailed || event == (RowEvent::Merged {
            row_kept: true,
        }),
    ensures
        row_action(row_step(s, event)) == (RowAction::Finish { clear_flag: false }),
{
}

/// A row counts at most one merge, and is done once it has.
pub proof fn law_row_merges_once(s: RowState, event: RowEvent)
    requires
        row_expects(s.phase, event),
    ensures
        row_step(s, event).merged == s.merged || (row_step(s, event).merged == s.merged + 1
            && row_step(s, event).phase is Done),
{
}

/// Only live memories other than the row itself are merged with, judged or
/// superseded by.
pub proof fn law_row_touches_live_candidates(s: RowState, event: RowEvent)
    requires
        row_invariant(s),
        row_expects(s.phase, event),
    ensures
        match row_action(row_step(s, event)) {
            RowAction::Finish { .. } => true,
            RowAction::Merge { candidate } => {
                let c = s.candidates[candidate as int];
                candidate < s.candidates.len() && !c.is_source && c.info is Some && is_live(
                    c.info->0,
                ) && c.strong
            },
            RowAction::Judge { candidate } => {
                let c = s.candidates[candidate as int];
                candidate < s.candidates.len() && !c.is_source && c.info is Some && is_live(
                    c.info->0,
                ) && !c.strong
            },
            RowAction::Supersede { candidate } => {
                let c = s.candidates[candidate as int];
                candidate < s.candidates.len() && !c.is_source && c.info is Some && is_live(
                    c.info->0,
                ) && !c.strong
            },
        },
{
    law_row_step_keeps_invariant(s, event);
}

/// The counts a sweep carries from row to row.
#[derive(Clone, Copy, Debug, PartialEq, Eq, Structural)]
pub struct SweepTally {
    pub llm_calls: usize,
    pub merged: u32,
}

/// One row of the sweep.
#[derive(Clone, Debug)]
pub struct VecRow {
    candidates: Vec<VecCandidate>,
    at: usize,
    clear_flag: bool,
    llm_budget: usize,
    tally: SweepTally,
    phase: RowPhase,
}

/// A row before its first neighbour is looked at.
pub open spec fn new_row(
    candidates: Seq<VecCandidate>,
    limits: DedupLimits,
    tally: SweepTally,
) -> RowState {
    RowState {
        candidates,
        at: 0,
        clear_flag: true,
        llm_budget: at_least_one(limits.llm_budget),
        llm_calls: tally.llm_calls as int,
        merged: tally.merged as int,
        phase: RowPhase::Ready,
    }
}

impl VecRow {
    /// The row as a mathematical value.
    pub closed spec fn state(&self) -> RowState {
        RowState {
            candidates: self.candidates@,
            at: self.at as int,
            clear_flag: self.clear_flag,
            llm_budget: self.llm_budget as int,
            llm_calls: self.tally.llm_calls as int,
            merged: self.tally.merged as int,
            phase: self.phase,
        }
    }

    /// A row with its neighbours, nearest first.
    pub fn new(candidates: Vec<VecCandidate>, limits: &DedupLimits, tally: SweepTally) -> (r: VecRow)
        ensures
            r.state() == new_row(candidates@, *limits, tally),
            row_invariant(r.state()),
    {
        assert(candidates.len() == candidates@.len());
        VecRow {
            candidates,
            at: 0,
            clear_flag: true,
            llm_budget: vec_dedup_llm_budget(limits),
            tally,
            phase: RowPhase::Ready,
        }
    }

    /// The row, where its neighbours are known. One that could not be embedded, or
    /// for which the search failed, is passed over: nothing is done with it and it
    /// keeps its flag, so that a later run takes it up again.
    pub fn of_search(
        embedded: bool,
        found: Option<Vec<VecCandidate>>,
        limits: &DedupLimits,
        tally: SweepTally,
    ) -> (r: Option<VecRow>)
        ensures
            match r {
                Some(row) => embedded && found is Some && row.state() == new_row(
                    (found->0)@,
                    *limits,
                    tally,
                ) && row_invariant(row.state()),
                None => !embedded || found is None,
            },
    {
        match found {
            Some(candidates) => if embedded {
                Some(VecRow::new(candidates, limits, tally))
            } else {
                None
            },
            None => None,
        }
    }

    /// The counts so far, to hand to the next row.
    pub fn tally(&self) -> (r: SweepTally)
        ensures
            r.llm_calls == self.state().llm_calls,
            r.merged == self.state().merged,
    {
        self.tally
    }

    fn seek(&mut self, from: usize)
        requires
            from <= old(self).candidates@.len(),
        ensures
            final(self).state() == row_from(old(self).state(), from as int),
    {
        let may_ask: bool = self.tally.llm_calls < self.llm_budget;
        let mut k: usize = from;
        let mut class: CandidateClass = CandidateClass::Skip;
        let mut found: bool = false;
        while k < self.candidates.len() && !found
            invariant
                from <= k <= self.candidates@.len(),
                *self == *old(self),
                may_ask == (self.tally.llm_calls < self.llm_budget),
                next_decision(self.candidates@, may_ask, from as int) == next_decision(
                    self.candidates@,
                    may_ask,
                    k as int,
                ),
                found ==> k < self.candidates@.len() && class == class_of(
                    self.candidates@[k as int],
                ) && !(class is Skip) && (class is Gray ==> may_ask),
            decreases self.candidates@.len() - k, if found { 0int } else { 1int },
        {
            class = classify_candidate(&self.candidates[k]);
            match class {
                CandidateClass::Skip => {
                    k = k + 1;
                },
                CandidateClass::Gray => {
                    if may_ask {
                        found = true;
                    } else {
                        k = k + 1;
                    }
                },
                _ => {
                    found = true;
                },
            }
        }
        self.at = k;
        if !found {
            self.phase = RowPhase::Done;
        } else {
            match class {
                CandidateClass::Strong => {
                    self.phase = RowPhase::Merging;
                },
                CandidateClass::Gray => {
                    self.phase = RowPhase::Judging;
                    self.tally.llm_calls = self.tally.llm_calls + 1;
                },
                _ => {
                    self.phase = RowPhase::Done;
                },
            }
        }
    }

    /// What the row asks for now.
    pub fn action(&self) -> (r: RowAction)
        ensures
            r == row_action(self.state()),
    {
        match self.phase {
            RowPhase::Merging => RowAction::Merge { candidate: self.at },
            RowPhase::Judging => RowAction::Judge { candidate: self.at },
            RowPhase::Superseding => RowAction::Supersede { candidate: self.at },
            RowPhase::Ready => RowAction::Finish { clear_flag: false },
            RowPhase::Done => RowAction::Finish { clear_flag: self.clear_flag },
        }
    }

    /// Takes in what came of the last action.
    pub fn step(&mut self, event: RowEvent)
        requires
            row_invariant(old(self).state()),
            row_expects(old(self).state().phase, event),
            old(self).state().merged < u32::MAX,
        ensures
            final(self).state() == row_step(old(self).state(), event),
            row_invariant(final(self).state()),
    {
        proof {
            law_row_step_keeps_invariant(self.state(), event);
        }
        match event {
            RowEvent::Start => {
                self.seek(0);
            },
            RowEvent::Merged { row_kept } => {
                self.tally.merged = self.tally.merged + 1;
                if row_kept {
                    self.clear_flag = false;
                }
                self.phase = RowPhase::Done;
            },
            RowEvent::MergeFailed => {
                self.clear_flag = false;
                self.phase = RowPhase::Done;
            },
            RowEvent::Verdict(relation) => {
                match relation {
                    DedupRelation::Duplicate | DedupRelation::Update => {
                        self.phase = RowPhase::Superseding;
                    },
                    DedupRelation::Related | DedupRelation::Distinct => {
                        let next: usize = self.at + 1;
                        self.seek(next);
                    },
                }
            },
            RowEvent::Superseded => {
                self.tally.merged = self.tally.merged + 1;
                self.phase = RowPhase::Done;
            },
            RowEvent::SupersedeFailed => {
                self.clear_flag = false;
                self.phase = RowPhase::Done;
            },
        }
    }
}

/// A sweep about to run: the rows it works on, and how many are deferred.
#[derive(Debug)]
pub struct VecSweep {
    pub window: Vec<VecDedupItem>,
    pub deferred: usize,
}

/// Whether `s` is the sweep over these flagged rows.
pub open spec fn is_sweep_of(s: VecSweep, pending: Seq<VecDedupItem>, limits: DedupLimits) -> bool {
    if pending.len() <= run_limit(limits) {
        s.window@ == pending && s.deferred == 0
    } else {
        s.window@ == pending.take(run_limit(limits)) && s.deferred == pending.len() - run_limit(
            limits,
        )
    }
}

/// Plans a sweep with an embedder at hand; nothing is to be done where no row
/// is flagged.
pub fn run_vec_dedup_with_embedder(pending: Vec<VecDedupItem>, limits: &DedupLimits) -> (r: Option<
    VecSweep,
>)
    ensures
        r is Some <==> pending@.len() > 0,
        r matches Some(s) ==> is_sweep_of(s, pending@, *limits),
{
    if pending.len() == 0 {
        return None;
    }
    let (window, deferred) = take_vec_dedup_window(pending, limits);
    Some(VecSweep { window, deferred })
}

/// Plans a sweep. Without an embedder nothing is done, and every flag is kept
/// for later.
pub fn run_vec_dedup(pending: Vec<VecDedupItem>, limits: &DedupLimits, has_embedder: bool) -> (r:
    Option<VecSweep>)
    ensures
        r is Some <==> pending@.len() > 0 && has_embedder,
        r matches Some(s) ==> is_sweep_of(s, pending@, *limits),
{
    if !has_embedder {
        return None;
    }
    run_vec_dedup_with_embedder(pending, limits)
}

} // verus!
