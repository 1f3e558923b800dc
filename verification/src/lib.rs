//! A plucked-string synthesizer.
//!
//! Thirty-seven strings, one per pitch of a chromatic range around concert A,
//! are simulated as delay lines. A score of timed pluck events is merged with
//! a fixed-rate sample clock; every tick advances all strings by one step and
//! mixes their outputs into one frame.
//!
//! All quantities are integers: amplitudes are fixed-point numbers, score
//! times are whole nanoseconds and the clock counts ticks.
//!
//! - [`sample`]: amplitudes and the damped mean of two samples.
//! - [`guitar_string`]: one string and how it sounds and fades.
//! - [`excitation`]: the random samples of a pluck.
//! - [`pitch`]: the frequency and the length of every string.
//! - [`score`]: events and the rules they must meet.
//! - [`notation`]: the written form of an event.
//! - [`engine`]: the strings together, driven by a score.

pub mod engine;
pub mod excitation;
pub mod guitar_string;
pub mod notation;
pub mod pitch;
pub mod sample;
pub mod score;
