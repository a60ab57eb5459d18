//! Archival summaries of cold memories: a compressed prose text per memory,
//! held to a local contract before it is stored.

pub mod contract;
pub mod escaping;
pub mod generator;
pub mod laws;
pub mod prompt;
pub mod refresh;
pub mod worker;
