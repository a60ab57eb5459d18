//! Deduplication: merging memories without losing what only one of them says,
//! and the scans that decide which memories to merge.

pub mod laws;
pub mod lossless;
pub mod merge;
pub mod resolve;
pub mod scan;
pub mod sweep;
pub mod vector;
