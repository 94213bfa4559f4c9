//! A format-independent SoundFont representation and a loader for `.sf2`/`.sf3`.

pub mod container;
pub mod error;
pub mod generator;
pub mod hydra;
pub mod load;
pub mod model;
pub mod riff_io;
pub mod vorbis;
