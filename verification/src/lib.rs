//! Content-stream generation for a typing-practice session.
//!
//! The crate produces the stream of words (or quote words) that a session
//! displays: it samples a word corpus or resolves a quote, applies
//! per-word punctuation, number and contraction transformations, and keeps
//! stream-wide formatting invariants (capitalization, terminal punctuation)
//! as content is appended incrementally.

pub mod display;
pub mod formatting;
pub mod generator;
pub mod models;
pub mod punctuation;
pub mod quote_controller;
pub mod rng;
pub mod sourcing;
pub mod text;
pub mod word_controller;
