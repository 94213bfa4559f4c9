//! The harmonic vocabulary: cadences, stock progressions and harmonic
//! functions.

pub mod chord;
pub mod grammar;
