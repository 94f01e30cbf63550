//! Coordination of tool updates: a dependency-aware parallel scheduler, the
//! progress state machine that tracks each tool, and the records and parsers
//! that describe what an update changed.
pub mod cli;
pub mod homebrew;
pub mod i18n;
pub mod mise;
pub mod parallel;
pub mod progress;
pub mod rustup;
pub mod tasks;
pub mod text;
pub mod upgrade_details;
