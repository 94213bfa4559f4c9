//! Writing the abstract SoundFont model back out as the Ogg/Vorbis-compressed
//! `.sf3` format.

pub mod error;
pub mod hydra;
pub mod reload;
pub mod round_trip;
pub mod write;
