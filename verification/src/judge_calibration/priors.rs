//! Where the first weights of the feedback signals come from.

use crate::judge_calibration::archive::{CronArchiveSurface, runtime_event};
use crate::text::str_eq;
use crate::time::Timestamp;
use vstd::prelude::*;

verus! {

/// What is done next to find the weights.
#[derive(Clone, Copy, Debug, PartialEq, Eq, Structural)]
pub enum PriorsStep {
    /// Take the fixed weights.
    UseDefaults,
    /// Read the snapshot of this database.
    ReadSnapshot,
    /// Take the weights of the snapshot.
    UseSnapshot,
    /// Derive the weights from labelled verdicts.
    DeriveFromHints,
}

/// Where the priors come from: a snapshot that can be read, or the hints of earlier
/// events; the defaults where the start is not to be sped up.
pub open spec fn priors_step(acceleration_enabled: bool, snapshot: Option<bool>) -> PriorsStep {
    match (acceleration_enabled, snapshot) {
        (false, _) => PriorsStep::UseDefaults,
        (true, None) => PriorsStep::ReadSnapshot,
        (true, Some(true)) => PriorsStep::UseSnapshot,
        (true, Some(false)) => PriorsStep::DeriveFromHints,
    }
}

/// What is done next. Unless acceleration is switched on, nothing is read and the
/// fixed weights are taken. `snapshot` says whether the snapshot holds usable
/// weights, `None` before it was read; a usable one wins over the labels.
pub fn bootstrap_priors_step(acceleration_enabled: bool, snapshot: Option<bool>) -> (r: PriorsStep)
    ensures
        r == priors_step(acceleration_enabled, snapshot),
{
    if !acceleration_enabled {
        return PriorsStep::UseDefaults;
    }
    match snapshot {
        None => PriorsStep::ReadSnapshot,
        Some(usable) => if usable {
            PriorsStep::UseSnapshot
        } else {
            PriorsStep::DeriveFromHints
        },
    }
}

/// Most rows that are scanned for labels.
pub const REPLAY_ROWS: usize = 50_000;

/// Verdicts older than this are not scanned.
pub const REPLAY_WINDOW_SECS: i64 = 2_592_000;

/// Events that are replayed at most: the configured number, within bounds.
pub open spec fn replayed_rows(limit: usize) -> usize {
    if limit < REPLAY_ROWS {
        limit
    } else {
        REPLAY_ROWS
    }
}

/// Rows scanned for labels: the asked number, at most `REPLAY_ROWS`.
pub fn replay_limit(limit: usize) -> (r: usize)
    ensures
        r == replayed_rows(limit),
{
    if limit < REPLAY_ROWS {
        limit
    } else {
        REPLAY_ROWS
    }
}

/// The second from which on events are replayed.
pub open spec fn replayed_from(now: int) -> int {
    now - REPLAY_WINDOW_SECS
}

/// The second, counted from the epoch, after which verdicts are scanned.
pub fn replay_cutoff(now: &Timestamp) -> (r: i64)
    ensures
        r == replayed_from(now.seconds()),
{
    now.unix_secs() - REPLAY_WINDOW_SECS
}

/// The surface whose runtime verdicts are written as events of this type. Events
/// of other types carry no labels.
pub open spec fn labelled_surface(event_type: Seq<char>) -> Option<CronArchiveSurface> {
    if event_type == runtime_event(CronArchiveSurface::Synthesis) {
        Some(CronArchiveSurface::Synthesis)
    } else if event_type == runtime_event(CronArchiveSurface::ConceptSummary) {
        Some(CronArchiveSurface::ConceptSummary)
    } else {
        None
    }
}

/// The surface whose payload an event holds, where it may hold a label.
pub fn signal_hint_surface(event_type: &str) -> (r: Option<CronArchiveSurface>)
    ensures
        r == labelled_surface(event_type@),
{
    if str_eq(event_type, CronArchiveSurface::Synthesis.runtime_event_type()) {
        Some(CronArchiveSurface::Synthesis)
    } else if str_eq(event_type, CronArchiveSurface::ConceptSummary.runtime_event_type()) {
        Some(CronArchiveSurface::ConceptSummary)
    } else {
        None
    }
}

/// How many usable labels there are for each of the derived numbers.
#[derive(Clone, Copy, Debug, PartialEq, Eq, Structural)]
pub struct HintCounts {
    pub view: u64,
    pub click: u64,
    pub thumb: u64,
    pub request: u64,
    pub width: u64,
}

/// Whether `n` is the greatest of the counts.
pub open spec fn is_greatest(n: u64, c: HintCounts) -> bool {
    &&& n >= c.view && n >= c.click && n >= c.thumb && n >= c.request && n >= c.width
    &&& n == c.view || n == c.click || n == c.thumb || n == c.request || n == c.width
}

impl HintCounts {
    /// How much the derived weights are trusted: the greatest of the counts. With
    /// none, the fixed weights are taken.
    pub fn confidence(&self) -> (r: u64)
        ensures
            is_greatest(r, *self),
    {
        let mut n: u64 = self.view;
        if self.click > n {
            n = self.click;
        }
        if self.thumb > n {
            n = self.thumb;
        }
        if self.request > n {
            n = self.request;
        }
        if self.width > n {
            n = self.width;
        }
        n
    }
}

} // verus!
