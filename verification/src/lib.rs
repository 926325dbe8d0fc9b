//! Verified core of a raw PCM playback pipeline.
//!
//! The crate holds the two parts of the player with real invariants: the
//! output-configuration selector, which picks a concrete stream format from a
//! device's advertised capability ranges, and the bounded drop-oldest byte
//! buffer that decouples a slow producer from the real-time consumer.

pub mod config;
pub mod error;
pub mod parse;
pub mod driver;
pub mod skipper;
