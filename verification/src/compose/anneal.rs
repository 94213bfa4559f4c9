//! Bar fingerprints, by which the annealer recognises repeated material.

use vstd::prelude::*;

verus! {

/// A compact description of one voice's bar: its onset pattern and the
/// signs of its melodic intervals.
#[derive(Debug, Clone, PartialEq, Eq, Hash)]
pub struct Fingerprint {
    /// One bit per slot.
    pub onsets: Vec<bool>,
    /// Interval in semitones between successive notes, clamped to ±12.
    pub intervals: Vec<i8>,
}

} // verus!
