//! An in-memory, format-independent representation of a SoundFont.
//!
//! The types in this module describe *what* a SoundFont contains, not *how* it
//! was stored on disk. Whether a bank was loaded from an uncompressed `.sf2`
//! file or an Ogg/Vorbis-compressed `.sf3` file, it ends up in the same
//! [`SoundFont`] structure with sample audio decoded to plain 16-bit PCM.

use vstd::prelude::*;

use crate::clip::Clip;
use crate::soundfont::generator::GeneratorType;

verus! {

/// A complete SoundFont bank.
#[derive(Debug, Clone, PartialEq, Default)]
pub struct SoundFont {
    /// Bank-level metadata (the `INFO` list).
    pub info: Info,
    /// Presets, addressable by MIDI bank/program (the `phdr` hydra).
    pub presets: Vec<Preset>,
    /// Instruments referenced by preset zones (the `inst` hydra).
    pub instruments: Vec<Instrument>,
    /// Samples referenced by instrument zones, with audio decoded to PCM.
    pub samples: Vec<Sample>,
}

/// A `major.minor` version number, as stored in the `ifil`/`iver` records.
#[derive(Debug, Clone, Copy, PartialEq, Eq, Default, Structural)]
pub struct Version {
    pub major: u16,
    pub minor: u16,
}

/// Bank-level metadata from the `INFO` list.
///
/// Every field other than [`Info::version`] is optional because the SoundFont
/// specification only requires `ifil`, `isng` and `INAM` to be present, and
/// even those are not always well-formed in the wild.
#[derive(Debug, Clone, PartialEq, Eq, Default)]
pub struct Info {
    /// SoundFont specification version (`ifil`).
    pub version: Version,
    /// Target wavetable sound engine (`isng`).
    pub engine: Option<String>,
    /// Bank name (`INAM`).
    pub name: Option<String>,
    /// Wavetable ROM name (`irom`).
    pub rom_name: Option<String>,
    /// Wavetable ROM version (`iver`).
    pub rom_version: Option<Version>,
    /// Creation date (`ICRD`).
    pub creation_date: Option<String>,
    /// Sound designers and engineers (`IENG`).
    pub engineers: Option<String>,
    /// Intended product / target (`IPRD`).
    pub product: Option<String>,
    /// Copyright notice (`ICOP`).
    pub copyright: Option<String>,
    /// Free-form comments (`ICMT`).
    pub comments: Option<String>,
    /// Software used to create or edit the bank (`ISFT`).
    pub software: Option<String>,
}

/// A preset: the unit addressed by a MIDI bank-select + program-change.
#[derive(Debug, Clone, PartialEq, Default)]
pub struct Preset {
    /// Preset name.
    pub name: String,
    /// MIDI program number (`wPreset`).
    pub program: u16,
    /// MIDI bank number (`wBank`).
    pub bank: u16,
    /// Reserved, intended for sound-library management (`dwLibrary`).
    pub library: u32,
    /// Reserved, intended for genre classification (`dwGenre`).
    pub genre: u32,
    /// Reserved, intended for morphology (`dwMorphology`).
    pub morphology: u32,
    /// Preset zones. The first zone may be a global zone (one with no
    /// `Instrument` generator) whose settings apply to all following zones.
    pub zones: Vec<Zone>,
}

/// An instrument: a layer of sample zones shared by one or more presets.
#[derive(Debug, Clone, PartialEq, Default)]
pub struct Instrument {
    /// Instrument name.
    pub name: String,
    /// Instrument zones. As with presets, the first zone may be global (one
    /// with no `SampleID` generator).
    pub zones: Vec<Zone>,
}

/// A zone: a set of generators and modulators that together define a region of
/// the key/velocity space and how it is articulated.
#[derive(Debug, Clone, PartialEq, Default)]
pub struct Zone {
    /// Generators in this zone, in file order.
    pub generators: Vec<Generator>,
    /// Modulators in this zone, in file order.
    pub modulators: Vec<Modulator>,
}

/// A zone as a value of the model.
pub ghost struct ZoneModel {
    pub generators: Seq<Generator>,
    pub modulators: Seq<Modulator>,
}

impl View for Zone {
    type V = ZoneModel;

    open spec fn view(&self) -> ZoneModel {
        ZoneModel { generators: self.generators@, modulators: self.modulators@ }
    }
}

/// The model of a list of zones.
pub open spec fn zones_model(zones: Seq<Zone>) -> Seq<ZoneModel> {
    zones.map_values(|z: Zone| z@)
}

/// A single generator: a synthesis parameter and its value.
#[derive(Debug, Clone, Copy, PartialEq, Eq, Structural)]
pub struct Generator {
    /// Which parameter this generator sets.
    pub kind: GeneratorType,
    /// The value, interpreted according to `kind`.
    pub amount: GeneratorAmount,
}

/// The value of a [`Generator`].
///
/// A generator amount is a two-byte union in the file; the meaning of those
/// bytes depends on the generator. This enum captures the interpreted value.
#[derive(Debug, Clone, Copy, PartialEq, Eq, Structural)]
pub enum GeneratorAmount {
    /// A signed 16-bit amount (the common case).
    Short(i16),
    /// An unsigned 16-bit amount, used for index generators such as
    /// `Instrument` and `SampleID`.
    Word(u16),
    /// An inclusive `low..=high` range, used for `KeyRange`/`VelocityRange`.
    Range(Range),
}

/// An inclusive byte range, as used by the range generators.
#[derive(Debug, Clone, Copy, PartialEq, Eq, Default, Structural)]
pub struct Range {
    pub low: u8,
    pub high: u8,
}

/// A single modulator (an `SFModList`/`SFInstModList` record).
///
/// The controller operators are kept in their raw 16-bit encoded form. They
/// are self-contained bit fields that do not reference the file layout, so they
/// remain valid in the abstract representation; decoding them into concrete
/// controller sources is left to the synthesizer.
#[derive(Debug, Clone, Copy, PartialEq, Eq, Structural)]
pub struct Modulator {
    /// Source controller operator (`sfModSrcOper`).
    pub source: u16,
    /// Destination generator being modulated (`sfModDestOper`).
    pub destination: GeneratorType,
    /// Modulation amount (`modAmount`).
    pub amount: i16,
    /// Secondary source controller, scaling `amount` (`sfModAmtSrcOper`).
    pub amount_source: u16,
    /// Transform applied to the modulation (`sfModTransOper`).
    pub transform: u16,
}

/// How a [`Sample`] participates in stereo and ROM playback (`sfSampleType`).
#[derive(Debug, Clone, Copy, PartialEq, Eq, Default, Structural)]
pub enum SampleType {
    #[default]
    Mono,
    Right,
    Left,
    Linked,
    RomMono,
    RomRight,
    RomLeft,
    RomLinked,
    /// An unrecognized type flag, preserved verbatim.
    Other(u16),
}

/// The sample type a `sfSampleType` word decodes to.
pub open spec fn sample_type_of(value: u16) -> SampleType {
    if value == 1 {
        SampleType::Mono
    } else if value == 2 {
        SampleType::Right
    } else if value == 4 {
        SampleType::Left
    } else if value == 8 {
        SampleType::Linked
    } else if value == 0x8001 {
        SampleType::RomMono
    } else if value == 0x8002 {
        SampleType::RomRight
    } else if value == 0x8004 {
        SampleType::RomLeft
    } else if value == 0x8008 {
        SampleType::RomLinked
    } else {
        SampleType::Other(value)
    }
}

/// The `sfSampleType` word a sample type encodes to.
pub open spec fn sample_type_bits(kind: SampleType) -> u16 {
    match kind {
        SampleType::Mono => 1,
        SampleType::Right => 2,
        SampleType::Left => 4,
        SampleType::Linked => 8,
        SampleType::RomMono => 0x8001,
        SampleType::RomRight => 0x8002,
        SampleType::RomLeft => 0x8004,
        SampleType::RomLinked => 0x8008,
        SampleType::Other(bits) => bits,
    }
}

impl SampleType {
    /// Decodes a `sfSampleType` word.
    pub fn from_u16(value: u16) -> (t: SampleType)
        ensures
            t == sample_type_of(value),
    {
        if value == 1 {
            SampleType::Mono
        } else if value == 2 {
            SampleType::Right
        } else if value == 4 {
            SampleType::Left
        } else if value == 8 {
            SampleType::Linked
        } else if value == 0x8001 {
            SampleType::RomMono
        } else if value == 0x8002 {
            SampleType::RomRight
        } else if value == 0x8004 {
            SampleType::RomLeft
        } else if value == 0x8008 {
            SampleType::RomLinked
        } else {
            SampleType::Other(value)
        }
    }
}

impl From<u16> for SampleType {
    fn from(value: u16) -> (t: SampleType) {
        SampleType::from_u16(value)
    }
}

impl vstd::std_specs::convert::FromSpecImpl<u16> for SampleType {
    open spec fn obeys_from_spec() -> bool {
        true
    }

    open spec fn from_spec(value: u16) -> SampleType {
        sample_type_of(value)
    }
}

/// Encoding a decoded word gives the word back: no `sfSampleType` value is
/// lost by the model.
pub proof fn lemma_sample_type_word_round_trip(value: u16)
    ensures
        sample_type_bits(sample_type_of(value)) == value,
{
}

/// Decoding an encoded type gives the type back, except for an `Other`
/// that carries one of the eight named words (it decodes as that name).
pub proof fn lemma_sample_type_round_trip(kind: SampleType)
    ensures
        !(kind matches SampleType::Other(v) && (v == 1 || v == 2 || v == 4 || v == 8 || v
            == 0x8001 || v == 0x8002 || v == 0x8004 || v == 0x8008)) ==> sample_type_of(
            sample_type_bits(kind),
        ) == kind,
{
}

/// A sample: a single channel of audio plus its playback parameters.
///
/// The audio is always decoded 16-bit PCM, regardless of whether the source
/// file stored it as raw samples (`.sf2`) or Ogg/Vorbis (`.sf3`). The decoded
/// PCM and its sample rate are held in [`clip`](Sample::clip); all loop offsets
/// are expressed in sample frames relative to that clip's data.
#[derive(Debug, Clone, PartialEq, Default)]
pub struct Sample {
    /// Sample name.
    pub name: String,
    /// Decoded 16-bit mono PCM and its sample rate.
    pub clip: Clip<i16>,
    /// Loop start, in sample frames into [`clip`](Sample::clip)'s data.
    pub loop_start: u32,
    /// Loop end, in sample frames into [`clip`](Sample::clip)'s data.
    pub loop_end: u32,
    /// MIDI key number of the recorded pitch (`byOriginalKey`).
    pub original_key: u8,
    /// Pitch correction in cents (`chCorrection`).
    pub correction: i8,
    /// Index of the linked sample for stereo pairs (`wSampleLink`).
    pub link: u16,
    /// Stereo/ROM classification (`sfSampleType`).
    pub kind: SampleType,
}

impl Sample {
    /// The decoded PCM.
    pub fn data(&self) -> (d: &[i16])
        ensures
            d@ == self.clip.data@,
    {
        self.clip.data.as_slice()
    }

    /// The sample rate in Hz.
    pub fn sample_rate(&self) -> (r: u32)
        ensures
            r == self.clip.sample_rate,
    {
        self.clip.sample_rate
    }
}

/// A preset as a value of the model.
pub ghost struct PresetModel {
    pub name: Seq<char>,
    pub program: u16,
    pub bank: u16,
    pub library: u32,
    pub genre: u32,
    pub morphology: u32,
    pub zones: Seq<ZoneModel>,
}

impl View for Preset {
    type V = PresetModel;

    open spec fn view(&self) -> PresetModel {
        PresetModel {
            name: self.name@,
            program: self.program,
            bank: self.bank,
            library: self.library,
            genre: self.genre,
            morphology: self.morphology,
            zones: zones_model(self.zones@),
        }
    }
}

/// An instrument as a value of the model.
pub ghost struct InstrumentModel {
    pub name: Seq<char>,
    pub zones: Seq<ZoneModel>,
}

impl View for Instrument {
    type V = InstrumentModel;

    open spec fn view(&self) -> InstrumentModel {
        InstrumentModel { name: self.name@, zones: zones_model(self.zones@) }
    }
}

/// A sample as a value of the model.
pub ghost struct SampleModel {
    pub name: Seq<char>,
    pub data: Seq<i16>,
    pub sample_rate: u32,
    pub loop_start: u32,
    pub loop_end: u32,
    pub original_key: u8,
    pub correction: i8,
    pub link: u16,
    pub kind: SampleType,
}

impl View for Sample {
    type V = SampleModel;

    open spec fn view(&self) -> SampleModel {
        SampleModel {
            name: self.name@,
            data: self.clip.data@,
            sample_rate: self.clip.sample_rate,
            loop_start: self.loop_start,
            loop_end: self.loop_end,
            original_key: self.original_key,
            correction: self.correction,
            link: self.link,
            kind: self.kind,
        }
    }
}

/// The model of a list of presets.
pub open spec fn presets_model(v: Seq<Preset>) -> Seq<PresetModel> {
    v.map_values(|p: Preset| p@)
}

/// The model of a list of instruments.
pub open spec fn instruments_model(v: Seq<Instrument>) -> Seq<InstrumentModel> {
    v.map_values(|p: Instrument| p@)
}

/// The model of a list of samples.
pub open spec fn samples_model(v: Seq<Sample>) -> Seq<SampleModel> {
    v.map_values(|p: Sample| p@)
}

/// A string field as a value of the model.
pub open spec fn opt_text(s: Option<String>) -> Option<Seq<char>> {
    match s {
        Some(t) => Some(t@),
        None => None,
    }
}

/// Bank-level metadata as a value of the model.
pub ghost struct InfoModel {
    pub version: Version,
    pub engine: Option<Seq<char>>,
    pub name: Option<Seq<char>>,
    pub rom_name: Option<Seq<char>>,
    pub rom_version: Option<Version>,
    pub creation_date: Option<Seq<char>>,
    pub engineers: Option<Seq<char>>,
    pub product: Option<Seq<char>>,
    pub copyright: Option<Seq<char>>,
    pub comments: Option<Seq<char>>,
    pub software: Option<Seq<char>>,
}

impl View for Info {
    type V = InfoModel;

    open spec fn view(&self) -> InfoModel {
        InfoModel {
            version: self.version,
            engine: opt_text(self.engine),
            name: opt_text(self.name),
            rom_name: opt_text(self.rom_name),
            rom_version: self.rom_version,
            creation_date: opt_text(self.creation_date),
            engineers: opt_text(self.engineers),
            product: opt_text(self.product),
            copyright: opt_text(self.copyright),
            comments: opt_text(self.comments),
            software: opt_text(self.software),
        }
    }
}

/// A whole bank as a value of the model.
pub ghost struct SoundFontModel {
    pub info: InfoModel,
    pub presets: Seq<PresetModel>,
    pub instruments: Seq<InstrumentModel>,
    pub samples: Seq<SampleModel>,
}

impl View for SoundFont {
    type V = SoundFontModel;

    open spec fn view(&self) -> SoundFontModel {
        SoundFontModel {
            info: self.info@,
            presets: presets_model(self.presets@),
            instruments: instruments_model(self.instruments@),
            samples: samples_model(self.samples@),
        }
    }
}

} // verus!
