//! The format-independent MIDI event type.
//!
//! [`MidiEvent`] is what a parsed Standard MIDI File decodes into and what the
//! synthesizer consumes. Channel-voice messages carry their raw 7- or 14-bit
//! data values; nothing here depends on the on-disk encoding.

use vstd::prelude::*;

use crate::midi::program::MidiProgram;

verus! {

/// A single MIDI event.
#[allow(inconsistent_fields)]
#[derive(Copy, Clone, Debug, PartialEq, Eq, Structural)]
pub enum MidiEvent {
    /// Send a noteon message.
    NoteOn {
        /// Channel the note sounds on.
        channel: u8,
        /// Key to sound.
        key: u8,
        /// Attack velocity.
        vel: u8,
    },
    /// Send a noteoff message.
    NoteOff {
        /// Channel the note is sounding on.
        channel: u8,
        /// Key to release.
        key: u8,
        /// Release velocity (`0` when the source did not specify one).
        vel: u8,
    },
    /// Send a control change message.
    ControlChange {
        /// Channel the controller applies to.
        channel: u8,
        /// Controller number being set.
        ctrl: u8,
        /// New controller value.
        value: u8,
    },
    /// Release every sounding note on a channel, letting them ring out.
    AllNotesOff {
        /// Channel to silence.
        channel: u8,
    },
    /// Stop every sounding note on a channel immediately, with no release.
    AllSoundOff {
        /// Channel to silence.
        channel: u8,
    },
    /// Send a pitch bend message.
    PitchBend {
        /// Channel to bend.
        channel: u8,
        /// Bend amount; `8192` is centre (no bend).
        value: u16,
    },
    /// Send a program change message.
    ProgramChange {
        /// Channel whose instrument changes.
        channel: u8,
        /// Instrument to select.
        program: MidiProgram,
    },
    /// Set channel pressure
    ChannelPressure {
        /// Channel the pressure applies to.
        channel: u8,
        /// Pressure amount.
        value: u8,
    },
    /// Set key pressure (aftertouch)
    PolyphonicKeyPressure {
        /// Channel the key is sounding on.
        channel: u8,
        /// Key the pressure applies to.
        key: u8,
        /// Pressure amount.
        value: u8,
    },
    /// Send a reset: all notes off and controllers back to their defaults
    /// (the MIDI 'system reset' panic button).
    SystemReset,
}

} // verus!
