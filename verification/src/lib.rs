//! Verified core of the memory-operations layer: deduplication, archival and
//! concept summaries, judge calibration, and the request handlers over them.

pub mod cold_archive_summary;
pub mod concept_summary;
pub mod dedup;
pub mod error;
pub mod events;
pub mod handlers;
pub mod hash;
pub mod inventory;
pub mod json;
pub mod judge_calibration;
pub mod laws;
pub mod llm;
pub mod text;
pub mod time;
pub mod types;
