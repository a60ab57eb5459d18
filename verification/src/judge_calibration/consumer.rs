//! The calibration consumer: folds the verdict pairs of the nightly judge into
//! rolling windows and raises an alert when agreement drops.
//!
//! Cohen's kappa itself is floating point. The windows it is computed over are
//! kept here, and the consumer is told on which side of the threshold it lies.

use crate::text::str_eq;
use crate::time::{rfc3339_instant, rfc3339_read};
use vstd::prelude::*;
use vstd::string::*;

verus! {

/// Name under which the consumer commits its offset.
pub const JUDGE_CALIBRATION_CONSUMER: &'static str = "judge_calibration";

/// Most events drained in one pass.
pub const PEEK_BATCH_LIMIT: usize = 50_000;

/// What a judge judged.
#[derive(Clone, Copy, Debug, PartialEq, Eq, Structural)]
pub enum JudgeSurface {
    Synthesis,
    ConceptSummary,
}

/// The sizes the windows are held to.
#[derive(Clone, Copy, Debug, PartialEq, Eq, Structural)]
pub struct CalibrationLimits {
    /// Most pairs a window keeps.
    pub pairs_cap: usize,
    /// Fewest pairs on which an alert is raised.
    pub drift_min_pairs: usize,
}

/// A verdict of the runtime judge, that of the nightly one, and when they were
/// compared, in seconds since the epoch.
pub type VerdictPair = (bool, bool, i64);

/// An event as the consumer reads it.
#[derive(Clone, Debug)]
pub struct StoredEvent {
    pub id: i64,
    pub event_type: String,
    /// The two verdicts of its payload, where it has one that is well formed.
    pub hits: Option<(bool, bool)>,
    pub ts: String,
}

/// One window and what is known of the agreement in it.
#[derive(Clone, Debug)]
pub struct KappaWindow {
    pub pairs: Vec<VerdictPair>,
    /// Whether kappa, when last computed, lay under the threshold.
    pub below: bool,
    /// Alerts raised so far.
    pub alerts: u64,
}

/// What the consumer keeps between passes.
#[derive(Clone, Debug)]
pub struct JudgeCalibrationState {
    pub last_consumed_event_id_calibration: i64,
    pub total_offline_cron_events: u64,
    /// When kappa was last computed, 0 for never.
    pub last_computed_at: i64,
    pub overall: KappaWindow,
    pub synthesis: KappaWindow,
    pub concept: KappaWindow,
}

/// A window as a mathematical value.
pub struct WindowView {
    pub pairs: Seq<VerdictPair>,
    pub below: bool,
    pub alerts: u64,
}

/// The state as a mathematical value.
pub struct CalibrationView {
    pub watermark: i64,
    pub total: u64,
    pub last_computed_at: i64,
    pub overall: WindowView,
    pub synthesis: WindowView,
    pub concept: WindowView,
}

impl KappaWindow {
    /// The window as a mathematical value.
    pub open spec fn view(&self) -> WindowView {
        WindowView { pairs: self.pairs@, below: self.below, alerts: self.alerts }
    }

    fn empty() -> (r: KappaWindow)
        ensures
            r@ == empty_window(),
    {
        KappaWindow { pairs: Vec::new(), below: true, alerts: 0 }
    }

    fn record(&mut self, pair: VerdictPair, cap: usize)
        ensures
            final(self)@ == recorded(old(self)@, pair, cap as int),
    {
        self.pairs.push(pair);
        let ghost full = self.pairs@;
        assert(full.skip(0) =~= full);
        let ghost mut dropped: int = 0;
        while self.pairs.len() > cap
            invariant
                0 <= dropped <= full.len(),
                self.pairs@ == full.skip(dropped),
                dropped > 0 ==> full.len() - dropped >= cap,
                self.below == old(self).below,
                self.alerts == old(self).alerts,
            decreases self.pairs@.len(),
        {
            self.pairs.remove(0);
            proof {
                assert(self.pairs@ =~= full.skip(dropped + 1));
                dropped = dropped + 1;
            }
        }
        proof {
            if full.len() > cap {
                assert(self.pairs@.len() == full.len() - dropped);
                assert(full.len() - dropped <= cap);
                assert(dropped == full.len() - cap);
            } else {
                assert(dropped == 0);
            }
        }
    }
}

/// A window before its first pair. Kappa counts as 0 then, which is below.
pub open spec fn empty_window() -> WindowView {
    WindowView { pairs: Seq::empty(), below: true, alerts: 0 }
}

/// The last `cap` pairs.
pub open spec fn newest(pairs: Seq<VerdictPair>, cap: int) -> Seq<VerdictPair> {
    if pairs.len() > cap {
        pairs.skip(pairs.len() - cap)
    } else {
        pairs
    }
}

/// The window with one more pair, the oldest given up where it is full.
pub open spec fn recorded(w: WindowView, pair: VerdictPair, cap: int) -> WindowView {
    WindowView { pairs: newest(w.pairs.push(pair), cap), ..w }
}

impl JudgeCalibrationState {
    /// The state as a mathematical value.
    pub open spec fn view(&self) -> CalibrationView {
        CalibrationView {
            watermark: self.last_consumed_event_id_calibration,
            total: self.total_offline_cron_events,
            last_computed_at: self.last_computed_at,
            overall: self.overall@,
            synthesis: self.synthesis@,
            concept: self.concept@,
        }
    }
}

/// The state of a fresh install.
pub open spec fn fresh_state() -> CalibrationView {
    CalibrationView {
        watermark: 0,
        total: 0,
        last_computed_at: 0,
        overall: empty_window(),
        synthesis: empty_window(),
        concept: empty_window(),
    }
}

impl Default for JudgeCalibrationState {
    fn default() -> (r: JudgeCalibrationState)
        ensures
            r@ == fresh_state(),
    {
        JudgeCalibrationState {
            last_consumed_event_id_calibration: 0,
            total_offline_cron_events: 0,
            last_computed_at: 0,
            overall: KappaWindow::empty(),
            synthesis: KappaWindow::empty(),
            concept: KappaWindow::empty(),
        }
    }
}

/// The surface an event type is about.
pub open spec fn surface_of_event(event_type: Seq<char>) -> Option<JudgeSurface> {
    if event_type == "synthesis_llm_judge_offline_cron"@ {
        Some(JudgeSurface::Synthesis)
    } else if event_type == "concept_summary_llm_judge_offline_cron"@ {
        Some(JudgeSurface::ConceptSummary)
    } else {
        None
    }
}

fn event_surface(event_type: &str) -> (r: Option<JudgeSurface>)
    ensures
        r == surface_of_event(event_type@),
{
    if str_eq(event_type, "synthesis_llm_judge_offline_cron") {
        Some(JudgeSurface::Synthesis)
    } else if str_eq(event_type, "concept_summary_llm_judge_offline_cron") {
        Some(JudgeSurface::ConceptSummary)
    } else {
        None
    }
}

/// When an event happened: its time stamp, or `now` where that is unreadable.
pub open spec fn event_time(ts: Seq<char>, now: i64) -> int {
    match rfc3339_instant(ts) {
        Some(p) => p.0,
        None => now as int,
    }
}

/// The time stamp of an event in seconds since the epoch.
pub fn ts_to_unix(ts: &str) -> (r: Option<i64>)
    ensures
        match rfc3339_instant(ts@) {
            Some(p) => r == Some(p.0 as i64) && p.0 as i64 == p.0,
            None => r is None,
        },
{
    match rfc3339_read(ts) {
        Some(p) => Some(p.0),
        None => None,
    }
}

/// What an event adds: nothing where it was applied before, is of another
/// type, or carries no verdicts.
pub open spec fn contribution(e: StoredEvent, applied: i64, now: i64) -> Option<
    (JudgeSurface, VerdictPair),
> {
    if e.id <= applied || e.hits is None || surface_of_event(e.event_type@) is None {
        None
    } else {
        Some(
            (
                surface_of_event(e.event_type@)->0,
                ((e.hits->0).0, (e.hits->0).1, event_time(e.ts@, now) as i64),
            ),
        )
    }
}

/// The state with one contribution folded in.
pub open spec fn folded_one(
    s: CalibrationView,
    c: Option<(JudgeSurface, VerdictPair)>,
    cap: int,
) -> CalibrationView {
    match c {
        None => s,
        Some((surface, pair)) => CalibrationView {
            overall: recorded(s.overall, pair, cap),
            synthesis: if surface is Synthesis {
                recorded(s.synthesis, pair, cap)
            } else {
                s.synthesis
            },
            concept: if surface is ConceptSummary {
                recorded(s.concept, pair, cap)
            } else {
                s.concept
            },
            total: if s.total < u64::MAX {
                (s.total + 1) as u64
            } else {
                u64::MAX
            },
            ..s
        },
    }
}

/// The state with the events folded in, in order.
pub open spec fn folded(
    s: CalibrationView,
    events: Seq<StoredEvent>,
    applied: i64,
    now: i64,
    cap: int,
) -> CalibrationView
    decreases events.len(),
{
    if events.len() == 0 {
        s
    } else {
        folded_one(
            folded(s, events.drop_last(), applied, now, cap),
            contribution(events.last(), applied, now),
            cap,
        )
    }
}

/// Whether some event adds a pair of this surface.
pub open spec fn touches(
    events: Seq<StoredEvent>,
    applied: i64,
    now: i64,
    surface: JudgeSurface,
) -> bool {
    exists|i: int|
        0 <= i < events.len() && (#[trigger] contribution(events[i], applied, now) matches Some(c)
            && c.0 == surface)
}

/// Which windows a pass has touched, and how far it has read.
#[derive(Clone, Copy, Debug, PartialEq, Eq, Structural)]
pub struct CalibrationPass {
    /// Highest id of the events read, to commit once the state is saved.
    pub max_event_id: Option<i64>,
    pub synthesis_touched: bool,
    pub concept_touched: bool,
}

/// The highest id of some events.
pub open spec fn highest_id(events: Seq<StoredEvent>) -> Option<i64>
    decreases events.len(),
{
    if events.len() == 0 {
        None
    } else {
        match highest_id(events.drop_last()) {
            Some(id) if id >= events.last().id => Some(id),
            _ => Some(events.last().id),
        }
    }
}

/// The state with the watermark moved up to the highest event read.
pub open spec fn marked_read(s: CalibrationView, events: Seq<StoredEvent>) -> CalibrationView {
    match highest_id(events) {
        Some(id) if id > s.watermark => CalibrationView { watermark: id, ..s },
        _ => s,
    }
}

fn highest_event_id(events: &Vec<StoredEvent>) -> (r: Option<i64>)
    ensures
        r == highest_id(events@),
{
    let mut highest: Option<i64> = None;
    let mut i: usize = 0;
    assert(events@.take(0) =~= Seq::<StoredEvent>::empty());
    while i < events.len()
        invariant
            i <= events@.len(),
            highest == highest_id(events@.take(i as int)),
        decreases events@.len() - i,
    {
        assert(events@.take(i + 1).drop_last() =~= events@.take(i as int));
        assert(events@.take(i + 1).last() == events@[i as int]);
        let id: i64 = events[i].id;
        highest = match highest {
            Some(h) => if h >= id {
                Some(h)
            } else {
                Some(id)
            },
            None => Some(id),
        };
        i = i + 1;
    }
    assert(events@.take(i as int) =~= events@);
    highest
}

proof fn lemma_highest_id(events: Seq<StoredEvent>)
    ensures
        events.len() > 0 ==> highest_id(events) is Some,
        forall|i: int| 0 <= i < events.len() ==> (#[trigger] events[i]).id <= highest_id(events)->0,
    decreases events.len(),
{
    if events.len() > 0 {
        let rest = events.drop_last();
        lemma_highest_id(rest);
        assert forall|i: int| 0 <= i < events.len() implies (#[trigger] events[i]).id <= highest_id(
            events,
        )->0 by {
            if i < rest.len() {
                assert(rest[i] == events[i]);
            }
        }
    }
}

/// Whether a pass over new events ended as it should: each event that counts is in
/// the state, and the pass tells how far it read and what it touched.
pub open spec fn is_recomputed(
    after: CalibrationView,
    pass: CalibrationPass,
    start: CalibrationView,
    events: Seq<StoredEvent>,
    now: i64,
    cap: int,
) -> bool {
    &&& after == folded(marked_read(start, events), events, start.watermark, now, cap)
    &&& pass.max_event_id == highest_id(events)
    &&& pass.synthesis_touched == touches(events, start.watermark, now, JudgeSurface::Synthesis)
    &&& pass.concept_touched == touches(events, start.watermark, now, JudgeSurface::ConceptSummary)
}

/// Folds the events past the consumer's offset into the windows.
///
/// Events at or below the watermark were applied before and are skipped, so a
/// pass that is replayed after a lost offset commit adds nothing twice.
pub fn recompute_judge_calibration_state(
    prior: Option<JudgeCalibrationState>,
    events: &Vec<StoredEvent>,
    now: i64,
    limits: &CalibrationLimits,
) -> (r: (JudgeCalibrationState, CalibrationPass))
    ensures
        is_recomputed(
            r.0@,
            r.1,
            match prior {
                Some(s) => s@,
                None => fresh_state(),
            },
            events@,
            now,
            limits.pairs_cap as int,
        ),
{
    let mut state: JudgeCalibrationState = match prior {
        Some(s) => s,
        None => JudgeCalibrationState::default(),
    };
    let ghost start = state@;
    let applied: i64 = state.last_consumed_event_id_calibration;
    let mut pass: CalibrationPass = CalibrationPass {
        max_event_id: None,
        synthesis_touched: false,
        concept_touched: false,
    };
    pass.max_event_id = highest_event_id(events);
    if let Some(id) = pass.max_event_id {
        if id > state.last_consumed_event_id_calibration {
            state.last_consumed_event_id_calibration = id;
        }
    }
    let ghost marked = state@;
    assert(marked == marked_read(start, events@));
    let mut i: usize = 0;
    assert(events@.take(0) =~= Seq::<StoredEvent>::empty());
    while i < events.len()
        invariant
            i <= events@.len(),
            state@ == folded(
                marked,
                events@.take(i as int),
                applied,
                now,
                limits.pairs_cap as int,
            ),
            pass.max_event_id == highest_id(events@),
            pass.synthesis_touched == touches(
                events@.take(i as int),
                applied,
                now,
                JudgeSurface::Synthesis,
            ),
            pass.concept_touched == touches(
                events@.take(i as int),
                applied,
                now,
                JudgeSurface::ConceptSummary,
            ),
        decreases events@.len() - i,
    {
        let ghost so_far = events@.take(i as int);
        let ghost more = events@.take(i + 1);
        let ghost c = contribution(events@[i as int], applied, now);
        proof {
            assert(more.drop_last() =~= so_far);
            assert(more.last() == events@[i as int]);
            lemma_touches_push(so_far, events@[i as int], applied, now, JudgeSurface::Synthesis);
            lemma_touches_push(
                so_far,
                events@[i as int],
                applied,
                now,
                JudgeSurface::ConceptSummary,
            );
            assert(more =~= so_far.push(events@[i as int]));
        }
        let e: &StoredEvent = &events[i];
        if e.id > applied {
            match (e.hits, event_surface(e.event_type.as_str())) {
                (Some(h), Some(surface)) => {
                    let ts: i64 = match ts_to_unix(e.ts.as_str()) {
                        Some(t) => t,
                        None => now,
                    };
                    let pair: VerdictPair = (h.0, h.1, ts);
                    assert(c == Some((surface, pair)));
                    state.overall.record(pair, limits.pairs_cap);
                    match surface {
                        JudgeSurface::Synthesis => {
                            state.synthesis.record(pair, limits.pairs_cap);
                            pass.synthesis_touched = true;
                        },
                        JudgeSurface::ConceptSummary => {
                            state.concept.record(pair, limits.pairs_cap);
                            pass.concept_touched = true;
                        },
                    }
                    state.total_offline_cron_events =
                    state.total_offline_cron_events.saturating_add(1);
                },
                _ => {
                    assert(c is None);
                },
            }
        }
        i = i + 1;
    }
    assert(events@.take(i as int) =~= events@);
    (state, pass)
}

proof fn lemma_touches_push(
    events: Seq<StoredEvent>,
    e: StoredEvent,
    applied: i64,
    now: i64,
    surface: JudgeSurface,
)
    ensures
        touches(events.push(e), applied, now, surface) == (touches(events, applied, now, surface)
            || (contribution(e, applied, now) matches Some(c) && c.0 == surface)),
{
    let more = events.push(e);
    if touches(events, applied, now, surface) {
        let i = choose|i: int|
            0 <= i < events.len() && (#[trigger] contribution(events[i], applied, now) matches Some(
                c,
            ) && c.0 == surface);
        assert(more[i] == events[i]);
        assert(contribution(more[i], applied, now) matches Some(c) && c.0 == surface);
    }
    if contribution(e, applied, now) matches Some(c) && c.0 == surface {
        assert(more[events.len() as int] == e);
        assert(contribution(more[events.len() as int], applied, now) matches Some(c) && c.0
            == surface);
    }
    if touches(more, applied, now, surface) {
        let i = choose|i: int|
            0 <= i < more.len() && (#[trigger] contribution(more[i], applied, now) matches Some(c)
                && c.0 == surface);
        if i < events.len() {
            assert(events[i] == more[i]);
            assert(contribution(events[i], applied, now) matches Some(c) && c.0 == surface);
        }
    }
}

/// On which side of the threshold kappa lies in each window.
#[derive(Clone, Copy, Debug, PartialEq, Eq, Structural)]
pub struct KappaReadings {
    pub overall_below: bool,
    pub synthesis_below: bool,
    pub concept_below: bool,
}

/// The window after kappa was computed anew: an alert is raised where it is
/// below with enough pairs, and either was not below before or `first` holds.
pub open spec fn settled(w: WindowView, below: bool, first: bool, min_pairs: int) -> WindowView {
    WindowView {
        below,
        alerts: if w.pairs.len() >= min_pairs && below && (!w.below || first) && w.alerts
            < u64::MAX {
            (w.alerts + 1) as u64
        } else {
            w.alerts
        },
        ..w
    }
}

/// The state once kappa was computed over the windows that a pass touched.
///
/// A window that has never alerted does so as soon as it is below with enough
/// pairs, also where it was below before it held enough of them.
pub open spec fn settled_state(
    s: CalibrationView,
    pass: CalibrationPass,
    readings: KappaReadings,
    now: i64,
    min_pairs: int,
) -> CalibrationView {
    let touched = pass.synthesis_touched || pass.concept_touched;
    CalibrationView {
        overall: if touched {
            settled(s.overall, readings.overall_below, s.overall.alerts == 0, min_pairs)
        } else {
            s.overall
        },
        last_computed_at: if touched {
            now
        } else {
            s.last_computed_at
        },
        synthesis: if pass.synthesis_touched {
            settled(s.synthesis, readings.synthesis_below, s.synthesis.alerts == 0, min_pairs)
        } else {
            s.synthesis
        },
        concept: if pass.concept_touched {
            settled(s.concept, readings.concept_below, s.concept.alerts == 0, min_pairs)
        } else {
            s.concept
        },
        ..s
    }
}

/// Whether a pass raises an alert on all pairs together.
pub open spec fn alerts_overall(
    s: CalibrationView,
    pass: CalibrationPass,
    readings: KappaReadings,
    min_pairs: int,
) -> bool {
    (pass.synthesis_touched || pass.concept_touched) && s.overall.pairs.len() >= min_pairs
        && readings.overall_below && (!s.overall.below || s.overall.alerts == 0)
}

impl KappaWindow {
    fn settle(&mut self, below: bool, first: bool, min_pairs: usize)
        ensures
            final(self)@ == settled(old(self)@, below, first, min_pairs as int),
    {
        if self.pairs.len() >= min_pairs && below && (!self.below || first) {
            self.alerts = self.alerts.saturating_add(1);
        }
        self.below = below;
    }
}

impl JudgeCalibrationState {
    /// Takes in the kappa computed over the windows that a pass touched.
    /// Returns whether the overall window raised an alert.
    pub fn settle(
        &mut self,
        pass: &CalibrationPass,
        readings: &KappaReadings,
        now: i64,
        limits: &CalibrationLimits,
    ) -> (alerted: bool)
        ensures
            final(self)@ == settled_state(
                old(self)@,
                *pass,
                *readings,
                now,
                limits.drift_min_pairs as int,
            ),
            alerted == alerts_overall(
                old(self)@,
                *pass,
                *readings,
                limits.drift_min_pairs as int,
            ),
    {
        let mut alerted: bool = false;
        if pass.synthesis_touched || pass.concept_touched {
            let first: bool = self.overall.alerts == 0;
            alerted = self.overall.pairs.len() >= limits.drift_min_pairs && readings.overall_below
                && (!self.overall.below || first);
            self.overall.settle(readings.overall_below, first, limits.drift_min_pairs);
            self.last_computed_at = now;
        }
        if pass.synthesis_touched {
            let first: bool = self.synthesis.alerts == 0;
            self.synthesis.settle(readings.synthesis_below, first, limits.drift_min_pairs);
        }
        if pass.concept_touched {
            let first: bool = self.concept.alerts == 0;
            self.concept.settle(readings.concept_below, first, limits.drift_min_pairs);
        }
        alerted
    }
}

/// Events that were all applied before change no window and no count.
pub proof fn law_replay_adds_nothing(
    s: CalibrationView,
    events: Seq<StoredEvent>,
    applied: i64,
    now: i64,
    cap: int,
)
    requires
        forall|i: int| 0 <= i < events.len() ==> (#[trigger] events[i]).id <= applied,
    ensures
        folded(s, events, applied, now, cap) == s,
        !touches(events, applied, now, JudgeSurface::Synthesis),
        !touches(events, applied, now, JudgeSurface::ConceptSummary),
    decreases events.len(),
{
    if events.len() > 0 {
        let rest = events.drop_last();
        assert forall|i: int| 0 <= i < rest.len() implies (#[trigger] rest[i]).id <= applied by {
            assert(rest[i] == events[i]);
        }
        law_replay_adds_nothing(s, rest, applied, now, cap);
        assert(events.last() == events[events.len() - 1]);
    }
}

/// A pass over the same events leaves the state of the first pass as it is,
/// whether or not the offset was committed in between.
pub proof fn law_second_pass_is_idle(
    s: CalibrationView,
    events: Seq<StoredEvent>,
    now: i64,
    later: i64,
    cap: int,
)
    ensures
        ({
            let once = folded(marked_read(s, events), events, s.watermark, now, cap);
            folded(marked_read(once, events), events, once.watermark, later, cap) == once
        }),
{
    let once = folded(marked_read(s, events), events, s.watermark, now, cap);
    lemma_fold_keeps_watermark(marked_read(s, events), events, s.watermark, now, cap);
    lemma_highest_id(events);
    law_replay_adds_nothing(once, events, once.watermark, later, cap);
}

proof fn lemma_fold_keeps_watermark(
    s: CalibrationView,
    events: Seq<StoredEvent>,
    applied: i64,
    now: i64,
    cap: int,
)
    ensures
        folded(s, events, applied, now, cap).watermark == s.watermark,
        folded(s, events, applied, now, cap).last_computed_at == s.last_computed_at,
    decreases events.len(),
{
    if events.len() > 0 {
        lemma_fold_keeps_watermark(s, events.drop_last(), applied, now, cap);
    }
}

/// Whether no window holds more than `cap` pairs.
pub open spec fn within_cap(s: CalibrationView, cap: int) -> bool {
    s.overall.pairs.len() <= cap && s.synthesis.pairs.len() <= cap && s.concept.pairs.len() <= cap
}

/// Windows never grow beyond their cap.
pub proof fn law_windows_stay_capped(
    s: CalibrationView,
    events: Seq<StoredEvent>,
    applied: i64,
    now: i64,
    cap: int,
)
    requires
        0 <= cap,
        within_cap(s, cap),
    ensures
        within_cap(folded(s, events, applied, now, cap), cap),
    decreases events.len(),
{
    if events.len() > 0 {
        law_windows_stay_capped(s, events.drop_last(), applied, now, cap);
    }
}

/// No alert is raised on too few pairs, nor while kappa is at or over the
/// threshold, nor more than one in a pass.
pub proof fn law_alerts_need_evidence(
    w: WindowView,
    below: bool,
    first: bool,
    min_pairs: int,
)
    ensures
        w.alerts <= settled(w, below, first, min_pairs).alerts <= w.alerts + 1,
        w.pairs.len() < min_pairs || !below ==> settled(w, below, first, min_pairs).alerts
            == w.alerts,
        w.below && !first ==> settled(w, below, first, min_pairs).alerts == w.alerts,
{
}

/// The part of the adaptive state that the consumer reads and writes.
#[derive(Debug)]
pub struct AdaptiveState {
    pub version: u64,
    pub judge_calibration_state: Option<JudgeCalibrationState>,
}

/// Whether a pass was taken into the state: its calibration replaces the one that
/// was there, and the reader's mark moves to the highest event it saw, if it saw one.
pub open spec fn is_consumed(
    after: AdaptiveState,
    state: AdaptiveState,
    pass: Option<(JudgeCalibrationState, Option<i64>)>,
    marks: Option<Vec<(&'static str, i64)>>,
) -> bool {
    &&& after.version == state.version
    &&& match pass {
        None => marks is None && after.judge_calibration_state == state.judge_calibration_state,
        Some((new_state, max_id)) => {
            &&& after.judge_calibration_state == Some(new_state)
            &&& match max_id {
                None => marks is None,
                Some(id) => marks matches Some(v) && v@.len() == 1 && v@[0].0@
                    == JUDGE_CALIBRATION_CONSUMER@ && v@[0].1 == id,
            }
        },
    }
}

/// Puts the outcome of a pass into the adaptive state, and returns the offset
/// to commit once that is saved. A pass that failed changes nothing.
pub fn run_judge_calibration_consumer(
    state: &mut AdaptiveState,
    pass: Option<(JudgeCalibrationState, Option<i64>)>,
) -> (r: Option<Vec<(&'static str, i64)>>)
    ensures
        is_consumed(*final(state), *old(state), pass, r),
{
    match pass {
        None => None,
        Some((new_state, max_id)) => {
            state.judge_calibration_state = Some(new_state);
            match max_id {
                None => None,
                Some(id) => {
                    let mut v: Vec<(&'static str, i64)> = Vec::new();
                    v.push((JUDGE_CALIBRATION_CONSUMER, id));
                    Some(v)
                },
            }
        },
    }
}

/// Whether `r` is what is to be committed: a state of the next version with the new
/// calibration, and the mark; nothing where no event was read.
pub open spec fn is_commit_of(
    r: Option<(AdaptiveState, i64)>,
    prior: Option<AdaptiveState>,
    new_state: JudgeCalibrationState,
    max_event_id: Option<i64>,
) -> bool {
    match max_event_id {
        None => r is None,
        Some(id) => r matches Some(c) && c.1 == id && c.0.judge_calibration_state == Some(new_state)
            && c.0.version == (match prior {
            Some(p) => if p.version < u64::MAX {
                p.version + 1
            } else {
                u64::MAX as int
            },
            None => 1,
        }),
    }
}

/// What is to be saved and committed after a pass: nothing where no event was
/// read, else the adaptive state under its next version and the offset.
pub fn run_consumer_and_commit(
    prior: Option<AdaptiveState>,
    new_state: JudgeCalibrationState,
    max_event_id: Option<i64>,
) -> (r: Option<(AdaptiveState, i64)>)
    ensures
        is_commit_of(r, prior, new_state, max_event_id),
{
    match max_event_id {
        None => None,
        Some(id) => {
            let version: u64 = match prior {
                Some(p) => p.version.saturating_add(1),
                None => 1,
            };
            Some((AdaptiveState { version, judge_calibration_state: Some(new_state) }, id))
        },
    }
}

} // verus!
