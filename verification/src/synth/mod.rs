//! The synthesizer's note logic: resolving SoundFont generators into a flat
//! parameter set, and the per-channel state machine that decides which
//! voices start and stop.

pub mod gens;
pub mod machine;
pub mod voice;
