//! The SoundFont generator enumeration.
//!
//! Generators are the synthesis parameters a zone sets. The names follow
//! `SFGenerator` in the SoundFont 2.04 specification, §8.1.2, in operator
//! order, and the one-line descriptions summarise the meanings given there.
//!
//! Units are the specification's own: absolute cents for pitch, centibels for
//! attenuation, and timecents for envelope durations.

use vstd::prelude::*;

verus! {

/// The SoundFont generator enumeration (`SFGenerator`).
///
/// Variants are declared in operator order, so the on-disk operator value of
/// each is its position, contiguous from `0` up to (but not including)
/// [`GeneratorType::COUNT`].
#[allow(non_camel_case_types)]
#[derive(Debug, Clone, Copy, PartialEq, Eq, Hash, Structural)]
pub enum GeneratorType {

    /// Offset, in sample points, added to the sample's start.
    START_ADDRESS_OFFSET,

    /// Offset, in sample points, added to the sample's end.
    END_ADDRESS_OFFSET,

    /// Offset, in sample points, added to the loop's start.
    START_LOOP_ADDRESS_OFFSET,

    /// Offset, in sample points, added to the loop's end.
    END_LOOP_ADDRESS_OFFSET,

    /// Coarse (32768-sample-point) offset added to the sample's start.
    START_ADDRESS_COARSE_OFFSET,

    /// Modulation LFO to pitch, in cents at full excursion.
    MODULATION_LFO_TO_PITCH,

    /// Vibrato LFO to pitch, in cents at full excursion.
    VIBRATO_LFO_TO_PITCH,

    /// Modulation envelope to pitch, in cents at full excursion.
    MODULATION_ENVELOPE_TO_PITCH,

    /// Low-pass filter cutoff, in absolute cents.
    INITIAL_FILTER_CUTOFF_FREQUENCY,

    /// Low-pass filter resonance at cutoff, in centibels.
    INITIAL_FILTER_Q,

    /// Modulation LFO to filter cutoff, in cents at full excursion.
    MODULATION_LFO_TO_FILTER_CUTOFF_FREQUENCY,

    /// Modulation envelope to filter cutoff, in cents at full excursion.
    MODULATION_ENVELOPE_TO_FILTER_CUTOFF_FREQUENCY,

    /// Coarse (32768-sample-point) offset added to the sample's end.
    END_ADDRESS_COARSE_OFFSET,

    /// Modulation LFO to volume, in centibels at full excursion.
    MODULATION_LFO_TO_VOLUME,

    /// Unused; present only to keep the enumeration contiguous.
    UNUSED_1,

    /// Send level to the chorus effect, in 0.1% units.
    CHORUS_EFFECTS_SEND,

    /// Send level to the reverb effect, in 0.1% units.
    REVERB_EFFECTS_SEND,

    /// Stereo pan, in 0.1% units; negative is left.
    PAN,

    /// Unused; present only to keep the enumeration contiguous.
    UNUSED_2,

    /// Unused; present only to keep the enumeration contiguous.
    UNUSED_3,

    /// Unused; present only to keep the enumeration contiguous.
    UNUSED_4,

    /// Delay before the modulation LFO starts, in timecents.
    DELAY_MODULATION_LFO,

    /// Modulation LFO frequency, in absolute cents.
    FREQUENCY_MODULATION_LFO,

    /// Delay before the vibrato LFO starts, in timecents.
    DELAY_VIBRATO_LFO,

    /// Vibrato LFO frequency, in absolute cents.
    FREQUENCY_VIBRATO_LFO,

    /// Modulation envelope delay phase, in timecents.
    DELAY_MODULATION_ENVELOPE,

    /// Modulation envelope attack phase, in timecents.
    ATTACK_MODULATION_ENVELOPE,

    /// Modulation envelope hold phase, in timecents.
    HOLD_MODULATION_ENVELOPE,

    /// Modulation envelope decay phase, in timecents.
    DECAY_MODULATION_ENVELOPE,

    /// Modulation envelope sustain level, in 0.1% units below peak.
    SUSTAIN_MODULATION_ENVELOPE,

    /// Modulation envelope release phase, in timecents.
    RELEASE_MODULATION_ENVELOPE,

    /// Key-number dependence of the modulation envelope's hold phase.
    KEY_NUMBER_TO_MODULATION_ENVELOPE_HOLD,

    /// Key-number dependence of the modulation envelope's decay phase.
    KEY_NUMBER_TO_MODULATION_ENVELOPE_DECAY,

    /// Volume envelope delay phase, in timecents.
    DELAY_VOLUME_ENVELOPE,

    /// Volume envelope attack phase, in timecents.
    ATTACK_VOLUME_ENVELOPE,

    /// Volume envelope hold phase, in timecents.
    HOLD_VOLUME_ENVELOPE,

    /// Volume envelope decay phase, in timecents.
    DECAY_VOLUME_ENVELOPE,

    /// Volume envelope sustain level, in centibels of attenuation below peak.
    SUSTAIN_VOLUME_ENVELOPE,

    /// Volume envelope release phase, in timecents.
    RELEASE_VOLUME_ENVELOPE,

    /// Key-number dependence of the volume envelope's hold phase.
    KEY_NUMBER_TO_VOLUME_ENVELOPE_HOLD,

    /// Key-number dependence of the volume envelope's decay phase.
    KEY_NUMBER_TO_VOLUME_ENVELOPE_DECAY,

    /// Index of the instrument this preset zone plays. Preset zones only.
    INSTRUMENT,

    /// Reserved by the specification.
    RESERVED_1,

    /// Inclusive MIDI key range this zone responds to.
    KEY_RANGE,

    /// Inclusive MIDI velocity range this zone responds to.
    VELOCITY_RANGE,

    /// Coarse (32768-sample-point) offset added to the loop's start.
    START_LOOP_ADDRESS_COARSE_OFFSET,

    /// Fixed MIDI key number to use instead of the played one.
    KEY_NUMBER,

    /// Fixed MIDI velocity to use instead of the played one.
    VELOCITY,

    /// Attenuation applied to the zone, in centibels.
    INITIAL_ATTENUATION,

    /// Reserved by the specification.
    RESERVED_2,

    /// Coarse (32768-sample-point) offset added to the loop's end.
    END_LOOP_ADDRESS_COARSE_OFFSET,

    /// Pitch offset in semitones.
    COARSE_TUNE,

    /// Pitch offset in cents.
    FINE_TUNE,

    /// Index of the sample this instrument zone plays. Instrument zones only.
    SAMPLE_ID,

    /// Loop mode: no loop, continuous loop, or loop until release.
    SAMPLE_MODES,

    /// Reserved by the specification.
    RESERVED_3,

    /// Cents of pitch change per MIDI key; 100 is equal temperament.
    SCALE_TUNING,

    /// Exclusive class: a new note in this class stops others in it.
    EXCLUSIVE_CLASS,

    /// MIDI key number the sample is treated as having been recorded at.
    OVERRIDING_ROOT_KEY,

    /// Unused; present only to keep the enumeration contiguous.
    UNUSED_5,

    /// The terminal generator marking the end of a zone's list.
    UNUSED_END,

    /// Not a generator: one past the highest valid operator value.
    COUNT,
}

/// The number of real generators: one more than the highest operator value.
pub const GENERATOR_COUNT: u16 = 61;

/// The on-disk operator value of a generator (its position in the
/// enumeration; `COUNT` maps to the count itself).
pub open spec fn generator_code(g: GeneratorType) -> u16 {
    match g {
        GeneratorType::START_ADDRESS_OFFSET => 0,
        GeneratorType::END_ADDRESS_OFFSET => 1,
        GeneratorType::START_LOOP_ADDRESS_OFFSET => 2,
        GeneratorType::END_LOOP_ADDRESS_OFFSET => 3,
        GeneratorType::START_ADDRESS_COARSE_OFFSET => 4,
        GeneratorType::MODULATION_LFO_TO_PITCH => 5,
        GeneratorType::VIBRATO_LFO_TO_PITCH => 6,
        GeneratorType::MODULATION_ENVELOPE_TO_PITCH => 7,
        GeneratorType::INITIAL_FILTER_CUTOFF_FREQUENCY => 8,
        GeneratorType::INITIAL_FILTER_Q => 9,
        GeneratorType::MODULATION_LFO_TO_FILTER_CUTOFF_FREQUENCY => 10,
        GeneratorType::MODULATION_ENVELOPE_TO_FILTER_CUTOFF_FREQUENCY => 11,
        GeneratorType::END_ADDRESS_COARSE_OFFSET => 12,
        GeneratorType::MODULATION_LFO_TO_VOLUME => 13,
        GeneratorType::UNUSED_1 => 14,
        GeneratorType::CHORUS_EFFECTS_SEND => 15,
        GeneratorType::REVERB_EFFECTS_SEND => 16,
        GeneratorType::PAN => 17,
        GeneratorType::UNUSED_2 => 18,
        GeneratorType::UNUSED_3 => 19,
        GeneratorType::UNUSED_4 => 20,
        GeneratorType::DELAY_MODULATION_LFO => 21,
        GeneratorType::FREQUENCY_MODULATION_LFO => 22,
        GeneratorType::DELAY_VIBRATO_LFO => 23,
        GeneratorType::FREQUENCY_VIBRATO_LFO => 24,
        GeneratorType::DELAY_MODULATION_ENVELOPE => 25,
        GeneratorType::ATTACK_MODULATION_ENVELOPE => 26,
        GeneratorType::HOLD_MODULATION_ENVELOPE => 27,
        GeneratorType::DECAY_MODULATION_ENVELOPE => 28,
        GeneratorType::SUSTAIN_MODULATION_ENVELOPE => 29,
        GeneratorType::RELEASE_MODULATION_ENVELOPE => 30,
        GeneratorType::KEY_NUMBER_TO_MODULATION_ENVELOPE_HOLD => 31,
        GeneratorType::KEY_NUMBER_TO_MODULATION_ENVELOPE_DECAY => 32,
        GeneratorType::DELAY_VOLUME_ENVELOPE => 33,
        GeneratorType::ATTACK_VOLUME_ENVELOPE => 34,
        GeneratorType::HOLD_VOLUME_ENVELOPE => 35,
        GeneratorType::DECAY_VOLUME_ENVELOPE => 36,
        GeneratorType::SUSTAIN_VOLUME_ENVELOPE => 37,
        GeneratorType::RELEASE_VOLUME_ENVELOPE => 38,
        GeneratorType::KEY_NUMBER_TO_VOLUME_ENVELOPE_HOLD => 39,
        GeneratorType::KEY_NUMBER_TO_VOLUME_ENVELOPE_DECAY => 40,
        GeneratorType::INSTRUMENT => 41,
        GeneratorType::RESERVED_1 => 42,
        GeneratorType::KEY_RANGE => 43,
        GeneratorType::VELOCITY_RANGE => 44,
        GeneratorType::START_LOOP_ADDRESS_COARSE_OFFSET => 45,
        GeneratorType::KEY_NUMBER => 46,
        GeneratorType::VELOCITY => 47,
        GeneratorType::INITIAL_ATTENUATION => 48,
        GeneratorType::RESERVED_2 => 49,
        GeneratorType::END_LOOP_ADDRESS_COARSE_OFFSET => 50,
        GeneratorType::COARSE_TUNE => 51,
        GeneratorType::FINE_TUNE => 52,
        GeneratorType::SAMPLE_ID => 53,
        GeneratorType::SAMPLE_MODES => 54,
        GeneratorType::RESERVED_3 => 55,
        GeneratorType::SCALE_TUNING => 56,
        GeneratorType::EXCLUSIVE_CLASS => 57,
        GeneratorType::OVERRIDING_ROOT_KEY => 58,
        GeneratorType::UNUSED_5 => 59,
        GeneratorType::UNUSED_END => 60,
        GeneratorType::COUNT => 61,
    }
}

/// The generator with operator value `v`, if `v` names one.
pub open spec fn generator_of(v: u16) -> Option<GeneratorType> {
    match v {
        0 => Some(GeneratorType::START_ADDRESS_OFFSET),
        1 => Some(GeneratorType::END_ADDRESS_OFFSET),
        2 => Some(GeneratorType::START_LOOP_ADDRESS_OFFSET),
        3 => Some(GeneratorType::END_LOOP_ADDRESS_OFFSET),
        4 => Some(GeneratorType::START_ADDRESS_COARSE_OFFSET),
        5 => Some(GeneratorType::MODULATION_LFO_TO_PITCH),
        6 => Some(GeneratorType::VIBRATO_LFO_TO_PITCH),
        7 => Some(GeneratorType::MODULATION_ENVELOPE_TO_PITCH),
        8 => Some(GeneratorType::INITIAL_FILTER_CUTOFF_FREQUENCY),
        9 => Some(GeneratorType::INITIAL_FILTER_Q),
        10 => Some(GeneratorType::MODULATION_LFO_TO_FILTER_CUTOFF_FREQUENCY),
        11 => Some(GeneratorType::MODULATION_ENVELOPE_TO_FILTER_CUTOFF_FREQUENCY),
        12 => Some(GeneratorType::END_ADDRESS_COARSE_OFFSET),
        13 => Some(GeneratorType::MODULATION_LFO_TO_VOLUME),
        14 => Some(GeneratorType::UNUSED_1),
        15 => Some(GeneratorType::CHORUS_EFFECTS_SEND),
        16 => Some(GeneratorType::REVERB_EFFECTS_SEND),
        17 => Some(GeneratorType::PAN),
        18 => Some(GeneratorType::UNUSED_2),
        19 => Some(GeneratorType::UNUSED_3),
        20 => Some(GeneratorType::UNUSED_4),
        21 => Some(GeneratorType::DELAY_MODULATION_LFO),
        22 => Some(GeneratorType::FREQUENCY_MODULATION_LFO),
        23 => Some(GeneratorType::DELAY_VIBRATO_LFO),
        24 => Some(GeneratorType::FREQUENCY_VIBRATO_LFO),
        25 => Some(GeneratorType::DELAY_MODULATION_ENVELOPE),
        26 => Some(GeneratorType::ATTACK_MODULATION_ENVELOPE),
        27 => Some(GeneratorType::HOLD_MODULATION_ENVELOPE),
        28 => Some(GeneratorType::DECAY_MODULATION_ENVELOPE),
        29 => Some(GeneratorType::SUSTAIN_MODULATION_ENVELOPE),
        30 => Some(GeneratorType::RELEASE_MODULATION_ENVELOPE),
        31 => Some(GeneratorType::KEY_NUMBER_TO_MODULATION_ENVELOPE_HOLD),
        32 => Some(GeneratorType::KEY_NUMBER_TO_MODULATION_ENVELOPE_DECAY),
        33 => Some(GeneratorType::DELAY_VOLUME_ENVELOPE),
        34 => Some(GeneratorType::ATTACK_VOLUME_ENVELOPE),
        35 => Some(GeneratorType::HOLD_VOLUME_ENVELOPE),
        36 => Some(GeneratorType::DECAY_VOLUME_ENVELOPE),
        37 => Some(GeneratorType::SUSTAIN_VOLUME_ENVELOPE),
        38 => Some(GeneratorType::RELEASE_VOLUME_ENVELOPE),
        39 => Some(GeneratorType::KEY_NUMBER_TO_VOLUME_ENVELOPE_HOLD),
        40 => Some(GeneratorType::KEY_NUMBER_TO_VOLUME_ENVELOPE_DECAY),
        41 => Some(GeneratorType::INSTRUMENT),
        42 => Some(GeneratorType::RESERVED_1),
        43 => Some(GeneratorType::KEY_RANGE),
        44 => Some(GeneratorType::VELOCITY_RANGE),
        45 => Some(GeneratorType::START_LOOP_ADDRESS_COARSE_OFFSET),
        46 => Some(GeneratorType::KEY_NUMBER),
        47 => Some(GeneratorType::VELOCITY),
        48 => Some(GeneratorType::INITIAL_ATTENUATION),
        49 => Some(GeneratorType::RESERVED_2),
        50 => Some(GeneratorType::END_LOOP_ADDRESS_COARSE_OFFSET),
        51 => Some(GeneratorType::COARSE_TUNE),
        52 => Some(GeneratorType::FINE_TUNE),
        53 => Some(GeneratorType::SAMPLE_ID),
        54 => Some(GeneratorType::SAMPLE_MODES),
        55 => Some(GeneratorType::RESERVED_3),
        56 => Some(GeneratorType::SCALE_TUNING),
        57 => Some(GeneratorType::EXCLUSIVE_CLASS),
        58 => Some(GeneratorType::OVERRIDING_ROOT_KEY),
        59 => Some(GeneratorType::UNUSED_5),
        60 => Some(GeneratorType::UNUSED_END),
        _ => None,
    }
}

impl GeneratorType {
    /// Every generator in operator order, indexed by its operator value.
    pub const ALL: [GeneratorType; 61] = [
        GeneratorType::START_ADDRESS_OFFSET,
        GeneratorType::END_ADDRESS_OFFSET,
        GeneratorType::START_LOOP_ADDRESS_OFFSET,
        GeneratorType::END_LOOP_ADDRESS_OFFSET,
        GeneratorType::START_ADDRESS_COARSE_OFFSET,
        GeneratorType::MODULATION_LFO_TO_PITCH,
        GeneratorType::VIBRATO_LFO_TO_PITCH,
        GeneratorType::MODULATION_ENVELOPE_TO_PITCH,
        GeneratorType::INITIAL_FILTER_CUTOFF_FREQUENCY,
        GeneratorType::INITIAL_FILTER_Q,
        GeneratorType::MODULATION_LFO_TO_FILTER_CUTOFF_FREQUENCY,
        GeneratorType::MODULATION_ENVELOPE_TO_FILTER_CUTOFF_FREQUENCY,
        GeneratorType::END_ADDRESS_COARSE_OFFSET,
        GeneratorType::MODULATION_LFO_TO_VOLUME,
        GeneratorType::UNUSED_1,
        GeneratorType::CHORUS_EFFECTS_SEND,
        GeneratorType::REVERB_EFFECTS_SEND,
        GeneratorType::PAN,
        GeneratorType::UNUSED_2,
        GeneratorType::UNUSED_3,
        GeneratorType::UNUSED_4,
        GeneratorType::DELAY_MODULATION_LFO,
        GeneratorType::FREQUENCY_MODULATION_LFO,
        GeneratorType::DELAY_VIBRATO_LFO,
        GeneratorType::FREQUENCY_VIBRATO_LFO,
        GeneratorType::DELAY_MODULATION_ENVELOPE,
        GeneratorType::ATTACK_MODULATION_ENVELOPE,
        GeneratorType::HOLD_MODULATION_ENVELOPE,
        GeneratorType::DECAY_MODULATION_ENVELOPE,
        GeneratorType::SUSTAIN_MODULATION_ENVELOPE,
        GeneratorType::RELEASE_MODULATION_ENVELOPE,
        GeneratorType::KEY_NUMBER_TO_MODULATION_ENVELOPE_HOLD,
        GeneratorType::KEY_NUMBER_TO_MODULATION_ENVELOPE_DECAY,
        GeneratorType::DELAY_VOLUME_ENVELOPE,
        GeneratorType::ATTACK_VOLUME_ENVELOPE,
        GeneratorType::HOLD_VOLUME_ENVELOPE,
        GeneratorType::DECAY_VOLUME_ENVELOPE,
        GeneratorType::SUSTAIN_VOLUME_ENVELOPE,
        GeneratorType::RELEASE_VOLUME_ENVELOPE,
        GeneratorType::KEY_NUMBER_TO_VOLUME_ENVELOPE_HOLD,
        GeneratorType::KEY_NUMBER_TO_VOLUME_ENVELOPE_DECAY,
        GeneratorType::INSTRUMENT,
        GeneratorType::RESERVED_1,
        GeneratorType::KEY_RANGE,
        GeneratorType::VELOCITY_RANGE,
        GeneratorType::START_LOOP_ADDRESS_COARSE_OFFSET,
        GeneratorType::KEY_NUMBER,
        GeneratorType::VELOCITY,
        GeneratorType::INITIAL_ATTENUATION,
        GeneratorType::RESERVED_2,
        GeneratorType::END_LOOP_ADDRESS_COARSE_OFFSET,
        GeneratorType::COARSE_TUNE,
        GeneratorType::FINE_TUNE,
        GeneratorType::SAMPLE_ID,
        GeneratorType::SAMPLE_MODES,
        GeneratorType::RESERVED_3,
        GeneratorType::SCALE_TUNING,
        GeneratorType::EXCLUSIVE_CLASS,
        GeneratorType::OVERRIDING_ROOT_KEY,
        GeneratorType::UNUSED_5,
        GeneratorType::UNUSED_END,
    ];

    /// The on-disk operator value of this generator.
    pub fn to_u16(self) -> (v: u16)
        ensures
            v == generator_code(self),
    {
        match self {
            GeneratorType::START_ADDRESS_OFFSET => 0,
            GeneratorType::END_ADDRESS_OFFSET => 1,
            GeneratorType::START_LOOP_ADDRESS_OFFSET => 2,
            GeneratorType::END_LOOP_ADDRESS_OFFSET => 3,
            GeneratorType::START_ADDRESS_COARSE_OFFSET => 4,
            GeneratorType::MODULATION_LFO_TO_PITCH => 5,
            GeneratorType::VIBRATO_LFO_TO_PITCH => 6,
            GeneratorType::MODULATION_ENVELOPE_TO_PITCH => 7,
            GeneratorType::INITIAL_FILTER_CUTOFF_FREQUENCY => 8,
            GeneratorType::INITIAL_FILTER_Q => 9,
            GeneratorType::MODULATION_LFO_TO_FILTER_CUTOFF_FREQUENCY => 10,
            GeneratorType::MODULATION_ENVELOPE_TO_FILTER_CUTOFF_FREQUENCY => 11,
            GeneratorType::END_ADDRESS_COARSE_OFFSET => 12,
            GeneratorType::MODULATION_LFO_TO_VOLUME => 13,
            GeneratorType::UNUSED_1 => 14,
            GeneratorType::CHORUS_EFFECTS_SEND => 15,
            GeneratorType::REVERB_EFFECTS_SEND => 16,
            GeneratorType::PAN => 17,
            GeneratorType::UNUSED_2 => 18,
            GeneratorType::UNUSED_3 => 19,
            GeneratorType::UNUSED_4 => 20,
            GeneratorType::DELAY_MODULATION_LFO => 21,
            GeneratorType::FREQUENCY_MODULATION_LFO => 22,
            GeneratorType::DELAY_VIBRATO_LFO => 23,
            GeneratorType::FREQUENCY_VIBRATO_LFO => 24,
            GeneratorType::DELAY_MODULATION_ENVELOPE => 25,
            GeneratorType::ATTACK_MODULATION_ENVELOPE => 26,
            GeneratorType::HOLD_MODULATION_ENVELOPE => 27,
            GeneratorType::DECAY_MODULATION_ENVELOPE => 28,
            GeneratorType::SUSTAIN_MODULATION_ENVELOPE => 29,
            GeneratorType::RELEASE_MODULATION_ENVELOPE => 30,
            GeneratorType::KEY_NUMBER_TO_MODULATION_ENVELOPE_HOLD => 31,
            GeneratorType::KEY_NUMBER_TO_MODULATION_ENVELOPE_DECAY => 32,
            GeneratorType::DELAY_VOLUME_ENVELOPE => 33,
            GeneratorType::ATTACK_VOLUME_ENVELOPE => 34,
            GeneratorType::HOLD_VOLUME_ENVELOPE => 35,
            GeneratorType::DECAY_VOLUME_ENVELOPE => 36,
            GeneratorType::SUSTAIN_VOLUME_ENVELOPE => 37,
            GeneratorType::RELEASE_VOLUME_ENVELOPE => 38,
            GeneratorType::KEY_NUMBER_TO_VOLUME_ENVELOPE_HOLD => 39,
            GeneratorType::KEY_NUMBER_TO_VOLUME_ENVELOPE_DECAY => 40,
            GeneratorType::INSTRUMENT => 41,
            GeneratorType::RESERVED_1 => 42,
            GeneratorType::KEY_RANGE => 43,
            GeneratorType::VELOCITY_RANGE => 44,
            GeneratorType::START_LOOP_ADDRESS_COARSE_OFFSET => 45,
            GeneratorType::KEY_NUMBER => 46,
            GeneratorType::VELOCITY => 47,
            GeneratorType::INITIAL_ATTENUATION => 48,
            GeneratorType::RESERVED_2 => 49,
            GeneratorType::END_LOOP_ADDRESS_COARSE_OFFSET => 50,
            GeneratorType::COARSE_TUNE => 51,
            GeneratorType::FINE_TUNE => 52,
            GeneratorType::SAMPLE_ID => 53,
            GeneratorType::SAMPLE_MODES => 54,
            GeneratorType::RESERVED_3 => 55,
            GeneratorType::SCALE_TUNING => 56,
            GeneratorType::EXCLUSIVE_CLASS => 57,
            GeneratorType::OVERRIDING_ROOT_KEY => 58,
            GeneratorType::UNUSED_5 => 59,
            GeneratorType::UNUSED_END => 60,
            GeneratorType::COUNT => 61,
        }
    }

    /// Converts a raw operator value into a [`GeneratorType`], returning
    /// `None` for values that are not valid generators (i.e. `>= COUNT`).
    pub fn from_u16(value: u16) -> (g: Option<GeneratorType>)
        ensures
            g == generator_of(value),
            g is Some <==> value < GENERATOR_COUNT,
    {
        match value {
            0 => Some(GeneratorType::START_ADDRESS_OFFSET),
            1 => Some(GeneratorType::END_ADDRESS_OFFSET),
            2 => Some(GeneratorType::START_LOOP_ADDRESS_OFFSET),
            3 => Some(GeneratorType::END_LOOP_ADDRESS_OFFSET),
            4 => Some(GeneratorType::START_ADDRESS_COARSE_OFFSET),
            5 => Some(GeneratorType::MODULATION_LFO_TO_PITCH),
            6 => Some(GeneratorType::VIBRATO_LFO_TO_PITCH),
            7 => Some(GeneratorType::MODULATION_ENVELOPE_TO_PITCH),
            8 => Some(GeneratorType::INITIAL_FILTER_CUTOFF_FREQUENCY),
            9 => Some(GeneratorType::INITIAL_FILTER_Q),
            10 => Some(GeneratorType::MODULATION_LFO_TO_FILTER_CUTOFF_FREQUENCY),
            11 => Some(GeneratorType::MODULATION_ENVELOPE_TO_FILTER_CUTOFF_FREQUENCY),
            12 => Some(GeneratorType::END_ADDRESS_COARSE_OFFSET),
            13 => Some(GeneratorType::MODULATION_LFO_TO_VOLUME),
            14 => Some(GeneratorType::UNUSED_1),
            15 => Some(GeneratorType::CHORUS_EFFECTS_SEND),
            16 => Some(GeneratorType::REVERB_EFFECTS_SEND),
            17 => Some(GeneratorType::PAN),
            18 => Some(GeneratorType::UNUSED_2),
            19 => Some(GeneratorType::UNUSED_3),
            20 => Some(GeneratorType::UNUSED_4),
            21 => Some(GeneratorType::DELAY_MODULATION_LFO),
            22 => Some(GeneratorType::FREQUENCY_MODULATION_LFO),
            23 => Some(GeneratorType::DELAY_VIBRATO_LFO),
            24 => Some(GeneratorType::FREQUENCY_VIBRATO_LFO),
            25 => Some(GeneratorType::DELAY_MODULATION_ENVELOPE),
            26 => Some(GeneratorType::ATTACK_MODULATION_ENVELOPE),
            27 => Some(GeneratorType::HOLD_MODULATION_ENVELOPE),
            28 => Some(GeneratorType::DECAY_MODULATION_ENVELOPE),
            29 => Some(GeneratorType::SUSTAIN_MODULATION_ENVELOPE),
            30 => Some(GeneratorType::RELEASE_MODULATION_ENVELOPE),
            31 => Some(GeneratorType::KEY_NUMBER_TO_MODULATION_ENVELOPE_HOLD),
            32 => Some(GeneratorType::KEY_NUMBER_TO_MODULATION_ENVELOPE_DECAY),
            33 => Some(GeneratorType::DELAY_VOLUME_ENVELOPE),
            34 => Some(GeneratorType::ATTACK_VOLUME_ENVELOPE),
            35 => Some(GeneratorType::HOLD_VOLUME_ENVELOPE),
            36 => Some(GeneratorType::DECAY_VOLUME_ENVELOPE),
            37 => Some(GeneratorType::SUSTAIN_VOLUME_ENVELOPE),
            38 => Some(GeneratorType::RELEASE_VOLUME_ENVELOPE),
            39 => Some(GeneratorType::KEY_NUMBER_TO_VOLUME_ENVELOPE_HOLD),
            40 => Some(GeneratorType::KEY_NUMBER_TO_VOLUME_ENVELOPE_DECAY),
            41 => Some(GeneratorType::INSTRUMENT),
            42 => Some(GeneratorType::RESERVED_1),
            43 => Some(GeneratorType::KEY_RANGE),
            44 => Some(GeneratorType::VELOCITY_RANGE),
            45 => Some(GeneratorType::START_LOOP_ADDRESS_COARSE_OFFSET),
            46 => Some(GeneratorType::KEY_NUMBER),
            47 => Some(GeneratorType::VELOCITY),
            48 => Some(GeneratorType::INITIAL_ATTENUATION),
            49 => Some(GeneratorType::RESERVED_2),
            50 => Some(GeneratorType::END_LOOP_ADDRESS_COARSE_OFFSET),
            51 => Some(GeneratorType::COARSE_TUNE),
            52 => Some(GeneratorType::FINE_TUNE),
            53 => Some(GeneratorType::SAMPLE_ID),
            54 => Some(GeneratorType::SAMPLE_MODES),
            55 => Some(GeneratorType::RESERVED_3),
            56 => Some(GeneratorType::SCALE_TUNING),
            57 => Some(GeneratorType::EXCLUSIVE_CLASS),
            58 => Some(GeneratorType::OVERRIDING_ROOT_KEY),
            59 => Some(GeneratorType::UNUSED_5),
            60 => Some(GeneratorType::UNUSED_END),
            _ => None,
        }
    }
}

/// Every operator value below the count names the generator whose code it
/// is, and no other value names one.
pub proof fn lemma_generator_of_code(v: u16)
    ensures
        v < GENERATOR_COUNT ==> (generator_of(v) matches Some(g) && generator_code(g) == v),
        v >= GENERATOR_COUNT ==> generator_of(v) is None,
{
}

/// Decoding the operator value of any generator but `COUNT` gives the
/// generator back.
pub proof fn lemma_code_round_trip(g: GeneratorType)
    ensures
        g != GeneratorType::COUNT ==> generator_of(generator_code(g)) == Some(g),
        generator_code(g) <= GENERATOR_COUNT,
{
}

} // verus!
