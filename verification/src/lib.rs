//! Transcription core of a desktop dictation application: a model
//! lifecycle controller, a chunked streaming transcription pipeline, a
//! capability-driven engine switcher, and the audio plumbing around them.
//!
//! Everything here is plain state-machine logic: the host drives the
//! backends, the event sink, the clock and the filesystem, and feeds the
//! outcomes back in as values.

pub mod audio;
pub mod catalog;
pub mod lang;
pub mod manager;
pub mod pipeline;
pub mod text;
pub mod timefmt;
pub mod types;
pub mod wav;
pub mod words;
