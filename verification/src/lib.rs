//! Voice transport for a spoken interview: the decisions of the pipeline
//! (trailing-silence endpointing, the question/answer turn, the voice worker's
//! command handling) and the fixed configuration they run on.
//!
//! The audio itself (synthesis, capture, voice-activity inference,
//! transcription and playback) is done by the program around this library,
//! which reports each result back as an event.

pub mod text;
pub mod engine;
pub mod endpoint;
pub mod turn;
pub mod worker;
