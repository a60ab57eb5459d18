//! Refreshing the archival summary of one memory by hand.

use crate::cold_archive_summary::refresh::ManualRefreshOutcome;
use crate::text::{decimal, push_decimal};
use vstd::prelude::*;
use vstd::string::*;

verus! {

/// What is asked for.
#[derive(Clone, Debug)]
pub struct ArchiveSummaryRefreshParams {
    pub memory_id: String,
    /// Make a new summary though the present one is current.
    pub force: bool,
}

impl Default for ArchiveSummaryRefreshParams {
    fn default() -> (r: ArchiveSummaryRefreshParams)
        ensures
            r.memory_id@.len() == 0,
            !r.force,
    {
        ArchiveSummaryRefreshParams { memory_id: String::new(), force: false }
    }
}

/// What came of it.
#[derive(Clone, Debug)]
pub struct ArchiveSummaryRefreshOutput {
    pub memory_id: String,
    pub generated: bool,
    pub version: u32,
    pub summary_chars: usize,
    pub skipped_reason: Option<String>,
}

/// What came of it, in words.
pub open spec fn refresh_text(o: ArchiveSummaryRefreshOutput) -> Seq<char> {
    match o.skipped_reason {
        Some(reason) => "Cap C archive_summary_refresh skipped for "@ + o.memory_id@ + ": "@
            + reason@,
        None => "Cap C archive_summary_refresh: memory "@ + o.memory_id@ + " generated v"@
            + decimal(o.version as nat) + " ("@ + decimal(o.summary_chars as nat) + " chars)"@,
    }
}

impl ArchiveSummaryRefreshOutput {
    /// The outcome for a memory.
    pub fn from_outcome(memory_id: String, outcome: ManualRefreshOutcome) -> (r: Self)
        ensures
            r.memory_id == memory_id,
            r.generated == outcome.generated,
            r.version == outcome.version,
            r.summary_chars == outcome.summary_chars,
            r.skipped_reason == outcome.skipped_reason,
    {
        ArchiveSummaryRefreshOutput {
            memory_id,
            generated: outcome.generated,
            version: outcome.version,
            summary_chars: outcome.summary_chars,
            skipped_reason: outcome.skipped_reason,
        }
    }

    /// What came of it, in words.
    pub fn to_markdown(&self) -> (r: String)
        ensures
            r@ == refresh_text(*self),
    {
        match &self.skipped_reason {
            Some(reason) => {
                let mut s: String = "Cap C archive_summary_refresh skipped for ".to_owned();
                s.append(self.memory_id.as_str());
                s.append(": ");
                s.append(reason.as_str());
                s
            },
            None => {
                let mut s: String = "Cap C archive_summary_refresh: memory ".to_owned();
                s.append(self.memory_id.as_str());
                s.append(" generated v");
                push_decimal(&mut s, self.version as u64);
                s.append(" (");
                push_decimal(&mut s, self.summary_chars as u64);
                s.append(" chars)");
                s
            },
        }
    }

    /// What came of it, in words.
    pub fn to_cli_text(&self) -> (r: String)
        ensures
            r@ == refresh_text(*self),
    {
        self.to_markdown()
    }
}

} // verus!
