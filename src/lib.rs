//! Core of a system-maintenance runner: an ordered pipeline of shell commands,
//! the record of what each one printed and whether it succeeded, preview
//! filtering, and the operator console that follows a run.

pub mod model;
pub mod runstate;
pub mod aggregator;
pub mod console;
pub mod preview;
pub mod layout;
pub mod logview;
