//! Core of a vocabulary-quiz tool: resolving phonetic transcriptions from a
//! compressed dictionary stream, deriving tone-numbered syllables, choosing
//! and assembling pronunciation audio, and a bounded, deduplicated prefetch
//! pipeline between a producer and the interactive consumer.

pub mod file_io;
pub mod game;
pub mod models;
pub mod utils;
