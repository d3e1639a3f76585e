//! SquelchBox: the verified core of a TB-303-style bassline synthesizer.
//!
//! The library holds the sequencer's data model and decisions: the
//! 16-step pattern and its four-slot bank, the per-step event rules,
//! the sequencer state machine that turns clock ticks into voice
//! triggers, the editor's pattern edits and keyboard mapping, and the
//! Standard MIDI File encoding of a pattern.

pub mod pattern;
pub mod sequencer;
pub mod midi;
pub mod kbd;
pub mod keys;
pub mod edit;
pub mod fx;
pub mod transport;
pub mod cc;
pub mod paths;
