//! Calibration of the runtime judge against a stricter nightly one.

pub mod archive;
pub mod consumer;
pub mod cron;
pub mod laws;
pub mod priors;
