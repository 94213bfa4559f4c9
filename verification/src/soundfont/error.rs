//! Why a SoundFont could not be loaded.

use vstd::prelude::*;

verus! {

/// An error encountered while loading a SoundFont.
#[derive(Debug)]
pub enum Error {
    /// An I/O error reading the file or stream.
    Io(std::io::Error),
    /// The file is not a well-formed SoundFont.
    Format(String),
    /// An Ogg/Vorbis sample (in an `.sf3` file) could not be decoded.
    Vorbis(lewton::VorbisError),
}

/// An error as a value of the model: which kind, and a format error's
/// message.
pub ghost enum ErrorModel {
    Io,
    Format(Seq<char>),
    Vorbis,
}

impl View for Error {
    type V = ErrorModel;

    open spec fn view(&self) -> ErrorModel {
        match self {
            Error::Io(_) => ErrorModel::Io,
            Error::Format(m) => ErrorModel::Format(m@),
            Error::Vorbis(_) => ErrorModel::Vorbis,
        }
    }
}

/// A malformed-file error with message `msg`.
pub fn format_error(msg: &str) -> (e: Error)
    ensures
        e@ == ErrorModel::Format(msg@),
{
    Error::Format(msg.to_owned())
}

} // verus!
