//! MIDI types and Standard MIDI File parsing.

pub mod error;
pub mod event;
pub mod program;
pub mod smf;
