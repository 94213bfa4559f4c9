//! What a voice does in the texture, and the families of instruments.

use vstd::prelude::*;

verus! {

/// What a voice does in the texture.
#[derive(Debug, Clone, Copy, PartialEq, Eq, Hash, Structural)]
pub enum Role {
    /// Carries the tune or the subject entry.
    Lead,
    /// An inner counterpoint or filler voice.
    Inner,
    /// The bass line.
    Bass,
    /// A chord-realising keyboard or plucked instrument.
    Continuo,
    /// Unpitched percussion.
    Percussion,
    /// The singer or crowd.
    Singer,
    /// A bell, cannon or other one-shot stinger.
    Stinger,
}

/// Instrument family, for doubling decisions.
#[derive(Debug, Clone, Copy, PartialEq, Eq, Hash, Structural)]
pub enum Family {
    /// Bowed strings.
    Strings,
    /// Woodwind.
    Winds,
    /// Brass.
    Brass,
    /// Keyboards and plucked continuo.
    Keyboard,
    /// Folk instruments of the street and the tavern.
    Folk,
    /// Drums and bells.
    Percussion,
    /// Human voices.
    Voice,
}

} // verus!
