//! Scripted terminal sessions turned into timed, replayable recordings.
//!
//! A script's instructions are run against a shell one at a time
//! (`interpreter`), each yielding a fragment of events with delays relative to
//! each other (`instruction`, `encode`, `session`); the fragments are joined
//! into one timeline (`timeline`) and written out (`recording`).
//!
//! Times are whole microseconds held in `u64`: the recording format has
//! microsecond resolution, and every parsed duration is a whole number of them.
pub mod duration;
pub mod encode;
pub mod event;
pub mod instruction;
pub mod interpreter;
pub mod json;
pub mod recording;
pub mod session;
pub mod settings;
pub mod text;
pub mod timeline;
