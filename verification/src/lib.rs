//! SoundFont-based MIDI playback: MIDI files, SoundFont banks, the generator
//! model a synthesizer resolves notes through, and the small enumerations of
//! the composition engine.

pub mod chords;
pub mod clip;
pub mod compose;
pub mod convert;
pub mod kern;
pub mod midi;
pub mod playback;
pub mod soundfont;
pub mod synth;
pub mod text;
