//! What a playback backend reports, and the handle of a voice started on
//! the software backend.

use vstd::prelude::*;

verus! {

/// An error reported by a playback backend.
#[derive(Debug, Clone, PartialEq, Eq)]
pub enum PlaybackError {
    /// The backend does not implement this capability at all.
    Unsupported(&'static str),
    /// Audio data could not be decoded.
    Decode(String),
    /// The underlying audio engine reported an error.
    Backend(String),
}

/// The text of a playback error.
pub open spec fn playback_message(e: PlaybackError) -> Seq<char> {
    match e {
        PlaybackError::Unsupported(what) => "unsupported by backend: "@ + what@,
        PlaybackError::Decode(m) => "decode error: "@ + m@,
        PlaybackError::Backend(m) => "audio backend error: "@ + m@,
    }
}

impl PlaybackError {
    /// The error as text.
    pub fn message(&self) -> (s: String)
        ensures
            s@ == playback_message(*self),
    {
        match self {
            PlaybackError::Unsupported(what) => String::from_str("unsupported by backend: ").concat(
                what,
            ),
            PlaybackError::Decode(m) => String::from_str("decode error: ").concat(m.as_str()),
            PlaybackError::Backend(m) => String::from_str("audio backend error: ").concat(
                m.as_str(),
            ),
        }
    }
}

/// A handle to one voice started on the software backend.
#[derive(Debug, Clone, Copy, PartialEq, Eq, Structural)]
pub struct Handle {
    id: u64,
}

impl Handle {
    /// The handle of the voice started under `id`.
    pub fn new(id: u64) -> (h: Handle)
        ensures
            h.id() == id,
    {
        Handle { id }
    }

    /// The id the voice was started under.
    pub closed spec fn id(self) -> u64 {
        self.id
    }

    /// The id the voice was started under.
    pub fn voice_id(&self) -> (id: u64)
        ensures
            id == self.id(),
    {
        self.id
    }
}

} // verus!
