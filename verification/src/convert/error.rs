//! Why a conversion failed.

use vstd::prelude::*;

verus! {

/// `vorbis_rs::VorbisError`, the error the Ogg/Vorbis encoder reports.
#[verifier::external_type_specification]
#[verifier::external_body]
pub struct ExVorbisEncodeError(vorbis_rs::VorbisError);

/// An error encountered while converting or writing a SoundFont.
#[derive(Debug)]
pub enum Error {
    /// An I/O error writing the output.
    Io(std::io::Error),
    /// The input bank could not be loaded.
    Load(crate::soundfont::error::Error),
    /// A sample could not be encoded to Ogg/Vorbis.
    Encode(vorbis_rs::VorbisError),
    /// A count or offset exceeded what the SoundFont format can address.
    ///
    /// Bag, generator, modulator, instrument and sample indices are all
    /// 16-bit, and the sample pool is addressed by a 32-bit byte offset.
    /// These ceilings are far above any realistic bank, but must not be
    /// allowed to wrap silently into a corrupt file.
    TooLarge(&'static str),
}

/// The error for a count that does not fit the format, naming what
/// overflowed.
pub open spec fn too_large(e: Error, what: Seq<char>) -> bool {
    e matches Error::TooLarge(w) && w@ == what
}

} // verus!
