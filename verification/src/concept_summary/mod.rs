//! Living summaries of concepts: a rolling text on the current state of a
//! concept, refreshed as the concept is revised.

pub mod gate;
pub mod judge_input;
pub mod laws;
pub mod prompt;
pub mod refresh;
