//! The operations by category: their parameters, their decisions and the texts
//! they answer with.

pub mod adaptive;
pub mod cold_archive;
pub mod concept_summary_feedback;
pub mod diagnostics;
pub mod judge;
pub mod knowledge;
pub mod laws;
pub mod maintenance;
pub mod memory;
pub mod session;
pub mod test_path_template;
pub mod timeline;
pub mod told;
