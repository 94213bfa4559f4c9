//! The error type shared by the MIDI parsers.

use vstd::prelude::*;

verus! {

/// Why a MIDI message or Standard MIDI File could not be parsed.
#[derive(Debug, Clone, Copy, PartialEq, Eq, Structural)]
pub enum MidiError {
    /// A field held a value outside its permitted range.
    BadValue,
    /// The input ended in the middle of a message or chunk.
    UnexpectedEof,
    /// The file did not begin with a well-formed `MThd` header chunk.
    InvalidHeader,
    /// A variable-length quantity ran longer than the four bytes a valid file
    /// may use.
    InvalidVarLen,
    /// A data byte appeared before any status byte, so there was no running
    /// status to inherit.
    RunningStatus,
    /// The file declared a Standard MIDI File format this parser does not
    /// handle.
    UnsupportedFormat(u16),
}

impl MidiError {
    /// The human-readable message for this error.
    pub fn message(&self) -> (s: String)
        ensures
            s@ == midi_error_message(*self),
    {
        match self {
            MidiError::BadValue => String::from_str("bad value"),
            MidiError::UnexpectedEof => String::from_str("unexpected end of input"),
            MidiError::InvalidHeader => String::from_str("invalid standard midi file header"),
            MidiError::InvalidVarLen => String::from_str("malformed variable-length quantity"),
            MidiError::RunningStatus => String::from_str(
                "data byte encountered before any status byte",
            ),
            MidiError::UnsupportedFormat(_) => String::from_str(
                "unsupported standard midi file format",
            ),
        }
    }
}

/// The message of each error (the format number of `UnsupportedFormat` is
/// carried by the variant itself).
pub open spec fn midi_error_message(e: MidiError) -> Seq<char> {
    match e {
        MidiError::BadValue => "bad value"@,
        MidiError::UnexpectedEof => "unexpected end of input"@,
        MidiError::InvalidHeader => "invalid standard midi file header"@,
        MidiError::InvalidVarLen => "malformed variable-length quantity"@,
        MidiError::RunningStatus => "data byte encountered before any status byte"@,
        MidiError::UnsupportedFormat(_) => "unsupported standard midi file format"@,
    }
}

} // verus!
