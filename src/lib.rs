//! A task queue that runs an external video-processing program over a list of
//! input files, one task at a time, with cooperative and immediate cancellation.
//!
//! `queue` holds the task store and its invariants, `worker` the decisions of the
//! background loop and of the process supervisor, `config` the choice of the
//! executable and the default recipe from what was found on disk, and `text`
//! the decimal writing of numbers in messages.

pub mod queue;
pub mod text;
pub mod worker;
pub mod config;
