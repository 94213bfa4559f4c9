//! Whether a sample can sound as a voice.

use vstd::prelude::*;

use crate::soundfont::model::{Sample, SampleModel, SampleType};

verus! {

/// A ROM sample: its audio lives in a wavetable ROM the bank does not
/// carry.
pub open spec fn is_rom(kind: SampleType) -> bool {
    kind == SampleType::RomMono || kind == SampleType::RomRight || kind == SampleType::RomLeft
        || kind == SampleType::RomLinked
}

/// Whether a sample's type carries usable mono/stereo PCM (not a ROM
/// sample) and it has audio.
pub open spec fn playable_spec(s: SampleModel) -> bool {
    !is_rom(s.kind) && s.data.len() > 0
}

/// Whether a sample's type carries usable mono/stereo PCM (not a ROM
/// sample) and it has audio.
pub fn is_playable(sample: &Sample) -> (b: bool)
    ensures
        b == playable_spec(sample@),
{
    let rom = match sample.kind {
        SampleType::RomMono | SampleType::RomRight | SampleType::RomLeft
        | SampleType::RomLinked => true,
        _ => false,
    };
    !rom && sample.clip.data.len() > 0
}

} // verus!
