//! Presentation engine for a retro CRT text adventure.
//!
//! Every effect is computed as a plan: an ordered list of steps (timed
//! redraws at absolute cells, writes at the cursor, pauses, audio cues) that
//! a thin terminal driver plays back. The plans, the word wrapping, the input
//! filter, the audio cue tables and the story's state machine are verified
//! here; the driver only moves the cursor, writes, sleeps and plays tones.

pub mod render;
pub mod phosphor;
pub mod text;
pub mod sound;
pub mod effects;
mod chance;
pub mod display;
mod clock;
pub mod story;
pub mod session;
