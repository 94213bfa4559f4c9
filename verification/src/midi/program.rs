//! General MIDI program (instrument) numbers and their names.

use vstd::prelude::*;

verus! {

/// A General MIDI program number, stored 0-based (`0..=127` for the General
/// MIDI set; any other byte is carried through unchanged).
#[derive(Copy, Clone, Debug, PartialEq, Eq, Structural)]
pub struct MidiProgram(pub u8);

/// The General MIDI name of the 0-based program `n`, or `"Unknown"`.
pub open spec fn program_name(n: u8) -> Seq<char> {
    match n {
        0 => "Acoustic Grand Piano"@,
        1 => "Bright Acoustic Piano"@,
        2 => "Electric Grand Piano"@,
        3 => "Honky-tonk Piano"@,
        4 => "Electric Piano 1"@,
        5 => "Electric Piano 2"@,
        6 => "Harpsichord"@,
        7 => "Clavinet"@,
        8 => "Celesta"@,
        9 => "Glockenspiel"@,
        10 => "Music Box"@,
        11 => "Vibraphone"@,
        12 => "Marimba"@,
        13 => "Xylophone"@,
        14 => "Tubular Bells"@,
        15 => "Dulcimer"@,
        16 => "Drawbar Organ"@,
        17 => "Percussive Organ"@,
        18 => "Rock Organ"@,
        19 => "Church Organ"@,
        20 => "Reed Organ"@,
        21 => "Accordion"@,
        22 => "Harmonica"@,
        23 => "Bandoneon"@,
        24 => "Acoustic Guitar (Nylon)"@,
        25 => "Acoustic Guitar (Steel)"@,
        26 => "Electric Guitar (Jazz)"@,
        27 => "Electric Guitar (Clean)"@,
        28 => "Electric Guitar (Muted)"@,
        29 => "Overdriven Guitar"@,
        30 => "Distortion Guitar"@,
        31 => "Guitar Harmonics"@,
        32 => "Acoustic Bass"@,
        33 => "Electric Bass (Finger)"@,
        34 => "Electric Bass (Pick)"@,
        35 => "Fretless Bass"@,
        36 => "Slap Bass 1"@,
        37 => "Slap Bass 2"@,
        38 => "Synth Bass 1"@,
        39 => "Synth Bass 2"@,
        40 => "Violin"@,
        41 => "Viola"@,
        42 => "Cello"@,
        43 => "Contrabass"@,
        44 => "Tremolo Strings"@,
        45 => "Pizzicato Strings"@,
        46 => "Orchestral Harp"@,
        47 => "Timpani"@,
        48 => "String Ensemble 1"@,
        49 => "String Ensemble 2"@,
        50 => "Synth Strings 1"@,
        51 => "Synth Strings 2"@,
        52 => "Choir Aahs"@,
        53 => "Voice Oohs"@,
        54 => "Synth Voice"@,
        55 => "Orchestra Hit"@,
        56 => "Trumpet"@,
        57 => "Trombone"@,
        58 => "Tuba"@,
        59 => "Muted Trumpet"@,
        60 => "French Horn"@,
        61 => "Brass Section"@,
        62 => "Synth Brass 1"@,
        63 => "Synth Brass 2"@,
        64 => "Soprano Sax"@,
        65 => "Alto Sax"@,
        66 => "Tenor Sax"@,
        67 => "Baritone Sax"@,
        68 => "Oboe"@,
        69 => "English Horn"@,
        70 => "Bassoon"@,
        71 => "Clarinet"@,
        72 => "Piccolo"@,
        73 => "Flute"@,
        74 => "Recorder"@,
        75 => "Pan Flute"@,
        76 => "Blown Bottle"@,
        77 => "Shakuhachi"@,
        78 => "Whistle"@,
        79 => "Ocarina"@,
        80 => "Lead 1 (Square)"@,
        81 => "Lead 2 (Sawtooth)"@,
        82 => "Lead 3 (Calliope)"@,
        83 => "Lead 4 (Chiff)"@,
        84 => "Lead 5 (Charang)"@,
        85 => "Lead 6 (Voice)"@,
        86 => "Lead 7 (Fifths)"@,
        87 => "Lead 8 (Bass + Lead)"@,
        88 => "Pad 1 (New Age)"@,
        89 => "Pad 2 (Warm)"@,
        90 => "Pad 3 (Polysynth)"@,
        91 => "Pad 4 (Choir)"@,
        92 => "Pad 5 (Bowed)"@,
        93 => "Pad 6 (Metallic)"@,
        94 => "Pad 7 (Halo)"@,
        95 => "Pad 8 (Sweep)"@,
        96 => "FX 1 (Rain)"@,
        97 => "FX 2 (Soundtrack)"@,
        98 => "FX 3 (Crystal)"@,
        99 => "FX 4 (Atmosphere)"@,
        100 => "FX 5 (Brightness)"@,
        101 => "FX 6 (Goblins)"@,
        102 => "FX 7 (Echoes)"@,
        103 => "FX 8 (Sci-Fi)"@,
        104 => "Sitar"@,
        105 => "Banjo"@,
        106 => "Shamisen"@,
        107 => "Koto"@,
        108 => "Kalimba"@,
        109 => "Bag Pipe"@,
        110 => "Fiddle"@,
        111 => "Shanai"@,
        112 => "Tinkle Bell"@,
        113 => "Agogo"@,
        114 => "Steel Drums"@,
        115 => "Woodblock"@,
        116 => "Taiko Drum"@,
        117 => "Melodic Tom"@,
        118 => "Synth Drum"@,
        119 => "Reverse Cymbal"@,
        120 => "Guitar Fret Noise"@,
        121 => "Breath Noise"@,
        122 => "Seashore"@,
        123 => "Bird Tweet"@,
        124 => "Telephone Ring"@,
        125 => "Helicopter"@,
        126 => "Applause"@,
        127 => "Gunshot"@,
        _ => "Unknown"@,
    }
}

impl MidiProgram {
    /// The 1-based number under which General MIDI lists this program.
    pub fn display_number(&self) -> (n: u8)
        requires
            self.0 < 255,
        ensures
            n == self.0 + 1,
    {
        self.0 + 1
    }

    /// The raw 0-based General MIDI program number.
    pub fn index(&self) -> (n: u8)
        ensures
            n == self.0,
    {
        self.0
    }

    /// The General MIDI name of the program, or `"Unknown"` outside the set.
    pub fn get_name(&self) -> (name: &'static str)
        ensures
            name@ == program_name(self.0),
    {
        match self.0 {
            0 => "Acoustic Grand Piano",
            1 => "Bright Acoustic Piano",
            2 => "Electric Grand Piano",
            3 => "Honky-tonk Piano",
            4 => "Electric Piano 1",
            5 => "Electric Piano 2",
            6 => "Harpsichord",
            7 => "Clavinet",
            8 => "Celesta",
            9 => "Glockenspiel",
            10 => "Music Box",
            11 => "Vibraphone",
            12 => "Marimba",
            13 => "Xylophone",
            14 => "Tubular Bells",
            15 => "Dulcimer",
            16 => "Drawbar Organ",
            17 => "Percussive Organ",
            18 => "Rock Organ",
            19 => "Church Organ",
            20 => "Reed Organ",
            21 => "Accordion",
            22 => "Harmonica",
            23 => "Bandoneon",
            24 => "Acoustic Guitar (Nylon)",
            25 => "Acoustic Guitar (Steel)",
            26 => "Electric Guitar (Jazz)",
            27 => "Electric Guitar (Clean)",
            28 => "Electric Guitar (Muted)",
            29 => "Overdriven Guitar",
            30 => "Distortion Guitar",
            31 => "Guitar Harmonics",
            32 => "Acoustic Bass",
            33 => "Electric Bass (Finger)",
            34 => "Electric Bass (Pick)",
            35 => "Fretless Bass",
            36 => "Slap Bass 1",
            37 => "Slap Bass 2",
            38 => "Synth Bass 1",
            39 => "Synth Bass 2",
            40 => "Violin",
            41 => "Viola",
            42 => "Cello",
            43 => "Contrabass",
            44 => "Tremolo Strings",
            45 => "Pizzicato Strings",
            46 => "Orchestral Harp",
            47 => "Timpani",
            48 => "String Ensemble 1",
            49 => "String Ensemble 2",
            50 => "Synth Strings 1",
            51 => "Synth Strings 2",
            52 => "Choir Aahs",
            53 => "Voice Oohs",
            54 => "Synth Voice",
            55 => "Orchestra Hit",
            56 => "Trumpet",
            57 => "Trombone",
            58 => "Tuba",
            59 => "Muted Trumpet",
            60 => "French Horn",
            61 => "Brass Section",
            62 => "Synth Brass 1",
            63 => "Synth Brass 2",
            64 => "Soprano Sax",
            65 => "Alto Sax",
            66 => "Tenor Sax",
            67 => "Baritone Sax",
            68 => "Oboe",
            69 => "English Horn",
            70 => "Bassoon",
            71 => "Clarinet",
            72 => "Piccolo",
            73 => "Flute",
            74 => "Recorder",
            75 => "Pan Flute",
            76 => "Blown Bottle",
            77 => "Shakuhachi",
            78 => "Whistle",
            79 => "Ocarina",
            80 => "Lead 1 (Square)",
            81 => "Lead 2 (Sawtooth)",
            82 => "Lead 3 (Calliope)",
            83 => "Lead 4 (Chiff)",
            84 => "Lead 5 (Charang)",
            85 => "Lead 6 (Voice)",
            86 => "Lead 7 (Fifths)",
            87 => "Lead 8 (Bass + Lead)",
            88 => "Pad 1 (New Age)",
            89 => "Pad 2 (Warm)",
            90 => "Pad 3 (Polysynth)",
            91 => "Pad 4 (Choir)",
            92 => "Pad 5 (Bowed)",
            93 => "Pad 6 (Metallic)",
            94 => "Pad 7 (Halo)",
            95 => "Pad 8 (Sweep)",
            96 => "FX 1 (Rain)",
            97 => "FX 2 (Soundtrack)",
            98 => "FX 3 (Crystal)",
            99 => "FX 4 (Atmosphere)",
            100 => "FX 5 (Brightness)",
            101 => "FX 6 (Goblins)",
            102 => "FX 7 (Echoes)",
            103 => "FX 8 (Sci-Fi)",
            104 => "Sitar",
            105 => "Banjo",
            106 => "Shamisen",
            107 => "Koto",
            108 => "Kalimba",
            109 => "Bag Pipe",
            110 => "Fiddle",
            111 => "Shanai",
            112 => "Tinkle Bell",
            113 => "Agogo",
            114 => "Steel Drums",
            115 => "Woodblock",
            116 => "Taiko Drum",
            117 => "Melodic Tom",
            118 => "Synth Drum",
            119 => "Reverse Cymbal",
            120 => "Guitar Fret Noise",
            121 => "Breath Noise",
            122 => "Seashore",
            123 => "Bird Tweet",
            124 => "Telephone Ring",
            125 => "Helicopter",
            126 => "Applause",
            127 => "Gunshot",
            _ => "Unknown",
        }
    }

    /// The program with the raw 0-based number `v`.
    pub fn from_u8(v: u8) -> (p: MidiProgram)
        ensures
            p.0 == v,
    {
        MidiProgram(v)
    }
}

impl From<u8> for MidiProgram {
    fn from(v: u8) -> (p: MidiProgram) {
        MidiProgram(v)
    }
}

impl vstd::std_specs::convert::FromSpecImpl<u8> for MidiProgram {
    open spec fn obeys_from_spec() -> bool {
        true
    }

    open spec fn from_spec(v: u8) -> MidiProgram {
        MidiProgram(v)
    }
}

/// General MIDI program 1: Acoustic Grand Piano.
#[allow(non_snake_case)]
pub fn ACOUSTIC_GRAND_PIANO() -> (p: MidiProgram)
    ensures
        p.0 == 0,
{
    MidiProgram(0)
}

/// General MIDI program 2: Bright Acoustic Piano.
#[allow(non_snake_case)]
pub fn BRIGHT_ACOUSTIC_PIANO() -> (p: MidiProgram)
    ensures
        p.0 == 1,
{
    MidiProgram(1)
}

/// General MIDI program 3: Electric Grand Piano.
#[allow(non_snake_case)]
pub fn ELECTRIC_GRAND_PIANO() -> (p: MidiProgram)
    ensures
        p.0 == 2,
{
    MidiProgram(2)
}

/// General MIDI program 4: Honky-tonk Piano.
#[allow(non_snake_case)]
pub fn HONKY_TONK_PIANO() -> (p: MidiProgram)
    ensures
        p.0 == 3,
{
    MidiProgram(3)
}

/// General MIDI program 5: Electric Piano 1.
#[allow(non_snake_case)]
pub fn ELECTRIC_PIANO_1() -> (p: MidiProgram)
    ensures
        p.0 == 4,
{
    MidiProgram(4)
}

/// General MIDI program 6: Electric Piano 2.
#[allow(non_snake_case)]
pub fn ELECTRIC_PIANO_2() -> (p: MidiProgram)
    ensures
        p.0 == 5,
{
    MidiProgram(5)
}

/// General MIDI program 7: Harpsichord.
#[allow(non_snake_case)]
pub fn HARPSICHORD() -> (p: MidiProgram)
    ensures
        p.0 == 6,
{
    MidiProgram(6)
}

/// General MIDI program 8: Clavinet.
#[allow(non_snake_case)]
pub fn CLAVINET() -> (p: MidiProgram)
    ensures
        p.0 == 7,
{
    MidiProgram(7)
}

/// General MIDI program 9: Celesta.
#[allow(non_snake_case)]
pub fn CELESTA() -> (p: MidiProgram)
    ensures
        p.0 == 8,
{
    MidiProgram(8)
}

/// General MIDI program 10: Glockenspiel.
#[allow(non_snake_case)]
pub fn GLOCKENSPIEL() -> (p: MidiProgram)
    ensures
        p.0 == 9,
{
    MidiProgram(9)
}

/// General MIDI program 11: Music Box.
#[allow(non_snake_case)]
pub fn MUSIC_BOX() -> (p: MidiProgram)
    ensures
        p.0 == 10,
{
    MidiProgram(10)
}

/// General MIDI program 12: Vibraphone.
#[allow(non_snake_case)]
pub fn VIBRAPHONE() -> (p: MidiProgram)
    ensures
        p.0 == 11,
{
    MidiProgram(11)
}

/// General MIDI program 13: Marimba.
#[allow(non_snake_case)]
pub fn MARIMBA() -> (p: MidiProgram)
    ensures
        p.0 == 12,
{
    MidiProgram(12)
}

/// General MIDI program 14: Xylophone.
#[allow(non_snake_case)]
pub fn XYLOPHONE() -> (p: MidiProgram)
    ensures
        p.0 == 13,
{
    MidiProgram(13)
}

/// General MIDI program 15: Tubular Bells.
#[allow(non_snake_case)]
pub fn TUBULAR_BELLS() -> (p: MidiProgram)
    ensures
        p.0 == 14,
{
    MidiProgram(14)
}

/// General MIDI program 16: Dulcimer.
#[allow(non_snake_case)]
pub fn DULCIMER() -> (p: MidiProgram)
    ensures
        p.0 == 15,
{
    MidiProgram(15)
}

/// General MIDI program 17: Drawbar Organ.
#[allow(non_snake_case)]
pub fn DRAWBAR_ORGAN() -> (p: MidiProgram)
    ensures
        p.0 == 16,
{
    MidiProgram(16)
}

/// General MIDI program 18: Percussive Organ.
#[allow(non_snake_case)]
pub fn PERCUSSIVE_ORGAN() -> (p: MidiProgram)
    ensures
        p.0 == 17,
{
    MidiProgram(17)
}

/// General MIDI program 19: Rock Organ.
#[allow(non_snake_case)]
pub fn ROCK_ORGAN() -> (p: MidiProgram)
    ensures
        p.0 == 18,
{
    MidiProgram(18)
}

/// General MIDI program 20: Church Organ.
#[allow(non_snake_case)]
pub fn CHURCH_ORGAN() -> (p: MidiProgram)
    ensures
        p.0 == 19,
{
    MidiProgram(19)
}

/// General MIDI program 21: Reed Organ.
#[allow(non_snake_case)]
pub fn REED_ORGAN() -> (p: MidiProgram)
    ensures
        p.0 == 20,
{
    MidiProgram(20)
}

/// General MIDI program 22: Accordion.
#[allow(non_snake_case)]
pub fn ACCORDION() -> (p: MidiProgram)
    ensures
        p.0 == 21,
{
    MidiProgram(21)
}

/// General MIDI program 23: Harmonica.
#[allow(non_snake_case)]
pub fn HARMONICA() -> (p: MidiProgram)
    ensures
        p.0 == 22,
{
    MidiProgram(22)
}

/// General MIDI program 24: Bandoneon.
#[allow(non_snake_case)]
pub fn BANDONEON() -> (p: MidiProgram)
    ensures
        p.0 == 23,
{
    MidiProgram(23)
}

/// General MIDI program 25: Acoustic Guitar (Nylon).
#[allow(non_snake_case)]
pub fn ACOUSTIC_GUITAR_NYLON() -> (p: MidiProgram)
    ensures
        p.0 == 24,
{
    MidiProgram(24)
}

/// General MIDI program 26: Acoustic Guitar (Steel).
#[allow(non_snake_case)]
pub fn ACOUSTIC_GUITAR_STEEL() -> (p: MidiProgram)
    ensures
        p.0 == 25,
{
    MidiProgram(25)
}

/// General MIDI program 27: Electric Guitar (Jazz).
#[allow(non_snake_case)]
pub fn ELECTRIC_GUITAR_JAZZ() -> (p: MidiProgram)
    ensures
        p.0 == 26,
{
    MidiProgram(26)
}

/// General MIDI program 28: Electric Guitar (Clean).
#[allow(non_snake_case)]
pub fn ELECTRIC_GUITAR_CLEAN() -> (p: MidiProgram)
    ensures
        p.0 == 27,
{
    MidiProgram(27)
}

/// General MIDI program 29: Electric Guitar (Muted).
#[allow(non_snake_case)]
pub fn ELECTRIC_GUITAR_MUTED() -> (p: MidiProgram)
    ensures
        p.0 == 28,
{
    MidiProgram(28)
}

/// General MIDI program 30: Overdriven Guitar.
#[allow(non_snake_case)]
pub fn OVERDRIVEN_GUITAR() -> (p: MidiProgram)
    ensures
        p.0 == 29,
{
    MidiProgram(29)
}

/// General MIDI program 31: Distortion Guitar.
#[allow(non_snake_case)]
pub fn DISTORTION_GUITAR() -> (p: MidiProgram)
    ensures
        p.0 == 30,
{
    MidiProgram(30)
}

/// General MIDI program 32: Guitar Harmonics.
#[allow(non_snake_case)]
pub fn GUITAR_HARMONICS() -> (p: MidiProgram)
    ensures
        p.0 == 31,
{
    MidiProgram(31)
}

/// General MIDI program 33: Acoustic Bass.
#[allow(non_snake_case)]
pub fn ACOUSTIC_BASS() -> (p: MidiProgram)
    ensures
        p.0 == 32,
{
    MidiProgram(32)
}

/// General MIDI program 34: Electric Bass (Finger).
#[allow(non_snake_case)]
pub fn ELECTRIC_BASS_FINGER() -> (p: MidiProgram)
    ensures
        p.0 == 33,
{
    MidiProgram(33)
}

/// General MIDI program 35: Electric Bass (Pick).
#[allow(non_snake_case)]
pub fn ELECTRIC_BASS_PICK() -> (p: MidiProgram)
    ensures
        p.0 == 34,
{
    MidiProgram(34)
}

/// General MIDI program 36: Fretless Bass.
#[allow(non_snake_case)]
pub fn FRETLESS_BASS() -> (p: MidiProgram)
    ensures
        p.0 == 35,
{
    MidiProgram(35)
}

/// General MIDI program 37: Slap Bass 1.
#[allow(non_snake_case)]
pub fn SLAP_BASS_1() -> (p: MidiProgram)
    ensures
        p.0 == 36,
{
    MidiProgram(36)
}

/// General MIDI program 38: Slap Bass 2.
#[allow(non_snake_case)]
pub fn SLAP_BASS_2() -> (p: MidiProgram)
    ensures
        p.0 == 37,
{
    MidiProgram(37)
}

/// General MIDI program 39: Synth Bass 1.
#[allow(non_snake_case)]
pub fn SYNTH_BASS_1() -> (p: MidiProgram)
    ensures
        p.0 == 38,
{
    MidiProgram(38)
}

/// General MIDI program 40: Synth Bass 2.
#[allow(non_snake_case)]
pub fn SYNTH_BASS_2() -> (p: MidiProgram)
    ensures
        p.0 == 39,
{
    MidiProgram(39)
}

/// General MIDI program 41: Violin.
#[allow(non_snake_case)]
pub fn VIOLIN() -> (p: MidiProgram)
    ensures
        p.0 == 40,
{
    MidiProgram(40)
}

/// General MIDI program 42: Viola.
#[allow(non_snake_case)]
pub fn VIOLA() -> (p: MidiProgram)
    ensures
        p.0 == 41,
{
    MidiProgram(41)
}

/// General MIDI program 43: Cello.
#[allow(non_snake_case)]
pub fn CELLO() -> (p: MidiProgram)
    ensures
        p.0 == 42,
{
    MidiProgram(42)
}

/// General MIDI program 44: Contrabass.
#[allow(non_snake_case)]
pub fn CONTRABASS() -> (p: MidiProgram)
    ensures
        p.0 == 43,
{
    MidiProgram(43)
}

/// General MIDI program 45: Tremolo Strings.
#[allow(non_snake_case)]
pub fn TREMOLO_STRINGS() -> (p: MidiProgram)
    ensures
        p.0 == 44,
{
    MidiProgram(44)
}

/// General MIDI program 46: Pizzicato Strings.
#[allow(non_snake_case)]
pub fn PIZZICATO_STRINGS() -> (p: MidiProgram)
    ensures
        p.0 == 45,
{
    MidiProgram(45)
}

/// General MIDI program 47: Orchestral Harp.
#[allow(non_snake_case)]
pub fn ORCHESTRAL_HARP() -> (p: MidiProgram)
    ensures
        p.0 == 46,
{
    MidiProgram(46)
}

/// General MIDI program 48: Timpani.
#[allow(non_snake_case)]
pub fn TIMPANI() -> (p: MidiProgram)
    ensures
        p.0 == 47,
{
    MidiProgram(47)
}

/// General MIDI program 49: String Ensemble 1.
#[allow(non_snake_case)]
pub fn STRING_ENSEMBLE_1() -> (p: MidiProgram)
    ensures
        p.0 == 48,
{
    MidiProgram(48)
}

/// General MIDI program 50: String Ensemble 2.
#[allow(non_snake_case)]
pub fn STRING_ENSEMBLE_2() -> (p: MidiProgram)
    ensures
        p.0 == 49,
{
    MidiProgram(49)
}

/// General MIDI program 51: Synth Strings 1.
#[allow(non_snake_case)]
pub fn SYNTH_STRINGS_1() -> (p: MidiProgram)
    ensures
        p.0 == 50,
{
    MidiProgram(50)
}

/// General MIDI program 52: Synth Strings 2.
#[allow(non_snake_case)]
pub fn SYNTH_STRINGS_2() -> (p: MidiProgram)
    ensures
        p.0 == 51,
{
    MidiProgram(51)
}

/// General MIDI program 53: Choir Aahs.
#[allow(non_snake_case)]
pub fn CHOIR_AAHS() -> (p: MidiProgram)
    ensures
        p.0 == 52,
{
    MidiProgram(52)
}

/// General MIDI program 54: Voice Oohs.
#[allow(non_snake_case)]
pub fn VOICE_OOHS() -> (p: MidiProgram)
    ensures
        p.0 == 53,
{
    MidiProgram(53)
}

/// General MIDI program 55: Synth Voice.
#[allow(non_snake_case)]
pub fn SYNTH_VOICE() -> (p: MidiProgram)
    ensures
        p.0 == 54,
{
    MidiProgram(54)
}

/// General MIDI program 56: Orchestra Hit.
#[allow(non_snake_case)]
pub fn ORCHESTRA_HIT() -> (p: MidiProgram)
    ensures
        p.0 == 55,
{
    MidiProgram(55)
}

/// General MIDI program 57: Trumpet.
#[allow(non_snake_case)]
pub fn TRUMPET() -> (p: MidiProgram)
    ensures
        p.0 == 56,
{
    MidiProgram(56)
}

/// General MIDI program 58: Trombone.
#[allow(non_snake_case)]
pub fn TROMBONE() -> (p: MidiProgram)
    ensures
        p.0 == 57,
{
    MidiProgram(57)
}

/// General MIDI program 59: Tuba.
#[allow(non_snake_case)]
pub fn TUBA() -> (p: MidiProgram)
    ensures
        p.0 == 58,
{
    MidiProgram(58)
}

/// General MIDI program 60: Muted Trumpet.
#[allow(non_snake_case)]
pub fn MUTED_TRUMPET() -> (p: MidiProgram)
    ensures
        p.0 == 59,
{
    MidiProgram(59)
}

/// General MIDI program 61: French Horn.
#[allow(non_snake_case)]
pub fn FRENCH_HORN() -> (p: MidiProgram)
    ensures
        p.0 == 60,
{
    MidiProgram(60)
}

/// General MIDI program 62: Brass Section.
#[allow(non_snake_case)]
pub fn BRASS_SECTION() -> (p: MidiProgram)
    ensures
        p.0 == 61,
{
    MidiProgram(61)
}

/// General MIDI program 63: Synth Brass 1.
#[allow(non_snake_case)]
pub fn SYNTH_BRASS_1() -> (p: MidiProgram)
    ensures
        p.0 == 62,
{
    MidiProgram(62)
}

/// General MIDI program 64: Synth Brass 2.
#[allow(non_snake_case)]
pub fn SYNTH_BRASS_2() -> (p: MidiProgram)
    ensures
        p.0 == 63,
{
    MidiProgram(63)
}

/// General MIDI program 65: Soprano Sax.
#[allow(non_snake_case)]
pub fn SOPRANO_SAX() -> (p: MidiProgram)
    ensures
        p.0 == 64,
{
    MidiProgram(64)
}

/// General MIDI program 66: Alto Sax.
#[allow(non_snake_case)]
pub fn ALTO_SAX() -> (p: MidiProgram)
    ensures
        p.0 == 65,
{
    MidiProgram(65)
}

/// General MIDI program 67: Tenor Sax.
#[allow(non_snake_case)]
pub fn TENOR_SAX() -> (p: MidiProgram)
    ensures
        p.0 == 66,
{
    MidiProgram(66)
}

/// General MIDI program 68: Baritone Sax.
#[allow(non_snake_case)]
pub fn BARITONE_SAX() -> (p: MidiProgram)
    ensures
        p.0 == 67,
{
    MidiProgram(67)
}

/// General MIDI program 69: Oboe.
#[allow(non_snake_case)]
pub fn OBOE() -> (p: MidiProgram)
    ensures
        p.0 == 68,
{
    MidiProgram(68)
}

/// General MIDI program 70: English Horn.
#[allow(non_snake_case)]
pub fn ENGLISH_HORN() -> (p: MidiProgram)
    ensures
        p.0 == 69,
{
    MidiProgram(69)
}

/// General MIDI program 71: Bassoon.
#[allow(non_snake_case)]
pub fn BASSOON() -> (p: MidiProgram)
    ensures
        p.0 == 70,
{
    MidiProgram(70)
}

/// General MIDI program 72: Clarinet.
#[allow(non_snake_case)]
pub fn CLARINET() -> (p: MidiProgram)
    ensures
        p.0 == 71,
{
    MidiProgram(71)
}

/// Highest orchestral woodwind
/// General MIDI program 73: Piccolo.
#[allow(non_snake_case)]
pub fn PICCOLO() -> (p: MidiProgram)
    ensures
        p.0 == 72,
{
    MidiProgram(72)
}

/// General MIDI program 74: Flute.
#[allow(non_snake_case)]
pub fn FLUTE() -> (p: MidiProgram)
    ensures
        p.0 == 73,
{
    MidiProgram(73)
}

/// General MIDI program 75: Recorder.
#[allow(non_snake_case)]
pub fn RECORDER() -> (p: MidiProgram)
    ensures
        p.0 == 74,
{
    MidiProgram(74)
}

/// General MIDI program 76: Pan Flute.
#[allow(non_snake_case)]
pub fn PAN_FLUTE() -> (p: MidiProgram)
    ensures
        p.0 == 75,
{
    MidiProgram(75)
}

/// General MIDI program 77: Blown Bottle.
#[allow(non_snake_case)]
pub fn BLOWN_BOTTLE() -> (p: MidiProgram)
    ensures
        p.0 == 76,
{
    MidiProgram(76)
}

/// General MIDI program 78: Shakuhachi.
#[allow(non_snake_case)]
pub fn SHAKUHACHI() -> (p: MidiProgram)
    ensures
        p.0 == 77,
{
    MidiProgram(77)
}

/// General MIDI program 79: Whistle.
#[allow(non_snake_case)]
pub fn WHISTLE() -> (p: MidiProgram)
    ensures
        p.0 == 78,
{
    MidiProgram(78)
}

/// General MIDI program 80: Ocarina.
#[allow(non_snake_case)]
pub fn OCARINA() -> (p: MidiProgram)
    ensures
        p.0 == 79,
{
    MidiProgram(79)
}

/// General MIDI program 81: Lead 1 (Square).
#[allow(non_snake_case)]
pub fn LEAD_1_SQUARE() -> (p: MidiProgram)
    ensures
        p.0 == 80,
{
    MidiProgram(80)
}

/// General MIDI program 82: Lead 2 (Sawtooth).
#[allow(non_snake_case)]
pub fn LEAD_2_SAWTOOTH() -> (p: MidiProgram)
    ensures
        p.0 == 81,
{
    MidiProgram(81)
}

/// General MIDI program 83: Lead 3 (Calliope).
#[allow(non_snake_case)]
pub fn LEAD_3_CALLIOPE() -> (p: MidiProgram)
    ensures
        p.0 == 82,
{
    MidiProgram(82)
}

/// General MIDI program 84: Lead 4 (Chiff).
#[allow(non_snake_case)]
pub fn LEAD_4_CHIFF() -> (p: MidiProgram)
    ensures
        p.0 == 83,
{
    MidiProgram(83)
}

/// General MIDI program 85: Lead 5 (Charang).
#[allow(non_snake_case)]
pub fn LEAD_5_CHARANG() -> (p: MidiProgram)
    ensures
        p.0 == 84,
{
    MidiProgram(84)
}

/// General MIDI program 86: Lead 6 (Voice).
#[allow(non_snake_case)]
pub fn LEAD_6_VOICE() -> (p: MidiProgram)
    ensures
        p.0 == 85,
{
    MidiProgram(85)
}

/// General MIDI program 87: Lead 7 (Fifths).
#[allow(non_snake_case)]
pub fn LEAD_7_FIFTHS() -> (p: MidiProgram)
    ensures
        p.0 == 86,
{
    MidiProgram(86)
}

/// General MIDI program 88: Lead 8 (Bass + Lead).
#[allow(non_snake_case)]
pub fn LEAD_8_BASS_LEAD() -> (p: MidiProgram)
    ensures
        p.0 == 87,
{
    MidiProgram(87)
}

/// General MIDI program 89: Pad 1 (New Age).
#[allow(non_snake_case)]
pub fn PAD_1_NEW_AGE() -> (p: MidiProgram)
    ensures
        p.0 == 88,
{
    MidiProgram(88)
}

/// General MIDI program 90: Pad 2 (Warm).
#[allow(non_snake_case)]
pub fn PAD_2_WARM() -> (p: MidiProgram)
    ensures
        p.0 == 89,
{
    MidiProgram(89)
}

/// General MIDI program 91: Pad 3 (Polysynth).
#[allow(non_snake_case)]
pub fn PAD_3_POLYSYNTH() -> (p: MidiProgram)
    ensures
        p.0 == 90,
{
    MidiProgram(90)
}

/// General MIDI program 92: Pad 4 (Choir).
#[allow(non_snake_case)]
pub fn PAD_4_CHOIR() -> (p: MidiProgram)
    ensures
        p.0 == 91,
{
    MidiProgram(91)
}

/// General MIDI program 93: Pad 5 (Bowed).
#[allow(non_snake_case)]
pub fn PAD_5_BOWED() -> (p: MidiProgram)
    ensures
        p.0 == 92,
{
    MidiProgram(92)
}

/// General MIDI program 94: Pad 6 (Metallic).
#[allow(non_snake_case)]
pub fn PAD_6_METALLIC() -> (p: MidiProgram)
    ensures
        p.0 == 93,
{
    MidiProgram(93)
}

/// General MIDI program 95: Pad 7 (Halo).
#[allow(non_snake_case)]
pub fn PAD_7_HALO() -> (p: MidiProgram)
    ensures
        p.0 == 94,
{
    MidiProgram(94)
}

/// General MIDI program 96: Pad 8 (Sweep).
#[allow(non_snake_case)]
pub fn PAD_8_SWEEP() -> (p: MidiProgram)
    ensures
        p.0 == 95,
{
    MidiProgram(95)
}

/// General MIDI program 97: FX 1 (Rain).
#[allow(non_snake_case)]
pub fn FX_1_RAIN() -> (p: MidiProgram)
    ensures
        p.0 == 96,
{
    MidiProgram(96)
}

/// General MIDI program 98: FX 2 (Soundtrack).
#[allow(non_snake_case)]
pub fn FX_2_SOUNDTRACK() -> (p: MidiProgram)
    ensures
        p.0 == 97,
{
    MidiProgram(97)
}

/// General MIDI program 99: FX 3 (Crystal).
#[allow(non_snake_case)]
pub fn FX_3_CRYSTAL() -> (p: MidiProgram)
    ensures
        p.0 == 98,
{
    MidiProgram(98)
}

/// General MIDI program 100: FX 4 (Atmosphere).
#[allow(non_snake_case)]
pub fn FX_4_ATMOSPHERE() -> (p: MidiProgram)
    ensures
        p.0 == 99,
{
    MidiProgram(99)
}

/// General MIDI program 101: FX 5 (Brightness).
#[allow(non_snake_case)]
pub fn FX_5_BRIGHTNESS() -> (p: MidiProgram)
    ensures
        p.0 == 100,
{
    MidiProgram(100)
}

/// General MIDI program 102: FX 6 (Goblins).
#[allow(non_snake_case)]
pub fn FX_6_GOBLINS() -> (p: MidiProgram)
    ensures
        p.0 == 101,
{
    MidiProgram(101)
}

/// General MIDI program 103: FX 7 (Echoes).
#[allow(non_snake_case)]
pub fn FX_7_ECHOES() -> (p: MidiProgram)
    ensures
        p.0 == 102,
{
    MidiProgram(102)
}

/// General MIDI program 104: FX 8 (Sci-Fi).
#[allow(non_snake_case)]
pub fn FX_8_SCI_FI() -> (p: MidiProgram)
    ensures
        p.0 == 103,
{
    MidiProgram(103)
}

/// General MIDI program 105: Sitar.
#[allow(non_snake_case)]
pub fn SITAR() -> (p: MidiProgram)
    ensures
        p.0 == 104,
{
    MidiProgram(104)
}

/// General MIDI program 106: Banjo.
#[allow(non_snake_case)]
pub fn BANJO() -> (p: MidiProgram)
    ensures
        p.0 == 105,
{
    MidiProgram(105)
}

/// General MIDI program 107: Shamisen.
#[allow(non_snake_case)]
pub fn SHAMISEN() -> (p: MidiProgram)
    ensures
        p.0 == 106,
{
    MidiProgram(106)
}

/// General MIDI program 108: Koto.
#[allow(non_snake_case)]
pub fn KOTO() -> (p: MidiProgram)
    ensures
        p.0 == 107,
{
    MidiProgram(107)
}

/// General MIDI program 109: Kalimba.
#[allow(non_snake_case)]
pub fn KALIMBA() -> (p: MidiProgram)
    ensures
        p.0 == 108,
{
    MidiProgram(108)
}

/// General MIDI program 110: Bag Pipe.
#[allow(non_snake_case)]
pub fn BAG_PIPE() -> (p: MidiProgram)
    ensures
        p.0 == 109,
{
    MidiProgram(109)
}

/// General MIDI program 111: Fiddle.
#[allow(non_snake_case)]
pub fn FIDDLE() -> (p: MidiProgram)
    ensures
        p.0 == 110,
{
    MidiProgram(110)
}

/// General MIDI program 112: Shanai.
#[allow(non_snake_case)]
pub fn SHANAI() -> (p: MidiProgram)
    ensures
        p.0 == 111,
{
    MidiProgram(111)
}

/// General MIDI program 113: Tinkle Bell.
#[allow(non_snake_case)]
pub fn TINKLE_BELL() -> (p: MidiProgram)
    ensures
        p.0 == 112,
{
    MidiProgram(112)
}

/// General MIDI program 114: Agogo.
#[allow(non_snake_case)]
pub fn AGOGO() -> (p: MidiProgram)
    ensures
        p.0 == 113,
{
    MidiProgram(113)
}

/// General MIDI program 115: Steel Drums.
#[allow(non_snake_case)]
pub fn STEEL_DRUMS() -> (p: MidiProgram)
    ensures
        p.0 == 114,
{
    MidiProgram(114)
}

/// General MIDI program 116: Woodblock.
#[allow(non_snake_case)]
pub fn WOODBLOCK() -> (p: MidiProgram)
    ensures
        p.0 == 115,
{
    MidiProgram(115)
}

/// General MIDI program 117: Taiko Drum.
#[allow(non_snake_case)]
pub fn TAIKO_DRUM() -> (p: MidiProgram)
    ensures
        p.0 == 116,
{
    MidiProgram(116)
}

/// General MIDI program 118: Melodic Tom.
#[allow(non_snake_case)]
pub fn MELODIC_TOM() -> (p: MidiProgram)
    ensures
        p.0 == 117,
{
    MidiProgram(117)
}

/// General MIDI program 119: Synth Drum.
#[allow(non_snake_case)]
pub fn SYNTH_DRUM() -> (p: MidiProgram)
    ensures
        p.0 == 118,
{
    MidiProgram(118)
}

/// General MIDI program 120: Reverse Cymbal.
#[allow(non_snake_case)]
pub fn REVERSE_CYMBAL() -> (p: MidiProgram)
    ensures
        p.0 == 119,
{
    MidiProgram(119)
}

/// General MIDI program 121: Guitar Fret Noise.
#[allow(non_snake_case)]
pub fn GUITAR_FRET_NOISE() -> (p: MidiProgram)
    ensures
        p.0 == 120,
{
    MidiProgram(120)
}

/// General MIDI program 122: Breath Noise.
#[allow(non_snake_case)]
pub fn BREATH_NOISE() -> (p: MidiProgram)
    ensures
        p.0 == 121,
{
    MidiProgram(121)
}

/// General MIDI program 123: Seashore.
#[allow(non_snake_case)]
pub fn SEASHORE() -> (p: MidiProgram)
    ensures
        p.0 == 122,
{
    MidiProgram(122)
}

/// General MIDI program 124: Bird Tweet.
#[allow(non_snake_case)]
pub fn BIRD_TWEET() -> (p: MidiProgram)
    ensures
        p.0 == 123,
{
    MidiProgram(123)
}

/// General MIDI program 125: Telephone Ring.
#[allow(non_snake_case)]
pub fn TELEPHONE_RING() -> (p: MidiProgram)
    ensures
        p.0 == 124,
{
    MidiProgram(124)
}

/// General MIDI program 126: Helicopter.
#[allow(non_snake_case)]
pub fn HELICOPTER() -> (p: MidiProgram)
    ensures
        p.0 == 125,
{
    MidiProgram(125)
}

/// General MIDI program 127: Applause.
#[allow(non_snake_case)]
pub fn APPLAUSE() -> (p: MidiProgram)
    ensures
        p.0 == 126,
{
    MidiProgram(126)
}

/// General MIDI program 128: Gunshot.
#[allow(non_snake_case)]
pub fn GUNSHOT() -> (p: MidiProgram)
    ensures
        p.0 == 127,
{
    MidiProgram(127)
}

/// Piano family
#[allow(non_snake_case)]
pub fn PIANO() -> (g: [MidiProgram; 8])
    ensures
        g[0] == MidiProgram(0),
        g[1] == MidiProgram(1),
        g[2] == MidiProgram(2),
        g[3] == MidiProgram(3),
        g[4] == MidiProgram(4),
        g[5] == MidiProgram(5),
        g[6] == MidiProgram(6),
        g[7] == MidiProgram(7),
{
    [
        ACOUSTIC_GRAND_PIANO(),
        BRIGHT_ACOUSTIC_PIANO(),
        ELECTRIC_GRAND_PIANO(),
        HONKY_TONK_PIANO(),
        ELECTRIC_PIANO_1(),
        ELECTRIC_PIANO_2(),
        HARPSICHORD(),
        CLAVINET(),
    ]
}

/// Chromatic percussion instruments
#[allow(non_snake_case)]
pub fn CHROMATIC_PERCUSSION() -> (g: [MidiProgram; 8])
    ensures
        g[0] == MidiProgram(8),
        g[1] == MidiProgram(9),
        g[2] == MidiProgram(10),
        g[3] == MidiProgram(11),
        g[4] == MidiProgram(12),
        g[5] == MidiProgram(13),
        g[6] == MidiProgram(14),
        g[7] == MidiProgram(15),
{
    [
        CELESTA(),
        GLOCKENSPIEL(),
        MUSIC_BOX(),
        VIBRAPHONE(),
        MARIMBA(),
        XYLOPHONE(),
        TUBULAR_BELLS(),
        DULCIMER(),
    ]
}

/// Organs
#[allow(non_snake_case)]
pub fn ORGAN() -> (g: [MidiProgram; 8])
    ensures
        g[0] == MidiProgram(16),
        g[1] == MidiProgram(17),
        g[2] == MidiProgram(18),
        g[3] == MidiProgram(19),
        g[4] == MidiProgram(20),
        g[5] == MidiProgram(21),
        g[6] == MidiProgram(22),
        g[7] == MidiProgram(23),
{
    [
        DRAWBAR_ORGAN(),
        PERCUSSIVE_ORGAN(),
        ROCK_ORGAN(),
        CHURCH_ORGAN(),
        REED_ORGAN(),
        ACCORDION(),
        HARMONICA(),
        BANDONEON(),
    ]
}

/// Guitars
#[allow(non_snake_case)]
pub fn GUITAR() -> (g: [MidiProgram; 8])
    ensures
        g[0] == MidiProgram(24),
        g[1] == MidiProgram(25),
        g[2] == MidiProgram(26),
        g[3] == MidiProgram(27),
        g[4] == MidiProgram(28),
        g[5] == MidiProgram(29),
        g[6] == MidiProgram(30),
        g[7] == MidiProgram(31),
{
    [
        ACOUSTIC_GUITAR_NYLON(),
        ACOUSTIC_GUITAR_STEEL(),
        ELECTRIC_GUITAR_JAZZ(),
        ELECTRIC_GUITAR_CLEAN(),
        ELECTRIC_GUITAR_MUTED(),
        OVERDRIVEN_GUITAR(),
        DISTORTION_GUITAR(),
        GUITAR_HARMONICS(),
    ]
}

/// Bass instruments
#[allow(non_snake_case)]
pub fn BASS() -> (g: [MidiProgram; 8])
    ensures
        g[0] == MidiProgram(32),
        g[1] == MidiProgram(33),
        g[2] == MidiProgram(34),
        g[3] == MidiProgram(35),
        g[4] == MidiProgram(36),
        g[5] == MidiProgram(37),
        g[6] == MidiProgram(38),
        g[7] == MidiProgram(39),
{
    [
        ACOUSTIC_BASS(),
        ELECTRIC_BASS_FINGER(),
        ELECTRIC_BASS_PICK(),
        FRETLESS_BASS(),
        SLAP_BASS_1(),
        SLAP_BASS_2(),
        SYNTH_BASS_1(),
        SYNTH_BASS_2(),
    ]
}

/// Bowed strings
#[allow(non_snake_case)]
pub fn STRINGS() -> (g: [MidiProgram; 8])
    ensures
        g[0] == MidiProgram(40),
        g[1] == MidiProgram(41),
        g[2] == MidiProgram(42),
        g[3] == MidiProgram(43),
        g[4] == MidiProgram(44),
        g[5] == MidiProgram(45),
        g[6] == MidiProgram(46),
        g[7] == MidiProgram(47),
{
    [
        VIOLIN(),
        VIOLA(),
        CELLO(),
        CONTRABASS(),
        TREMOLO_STRINGS(),
        PIZZICATO_STRINGS(),
        ORCHESTRAL_HARP(),
        TIMPANI(),
    ]
}

/// Ensemble instruments
#[allow(non_snake_case)]
pub fn ENSEMBLE() -> (g: [MidiProgram; 8])
    ensures
        g[0] == MidiProgram(48),
        g[1] == MidiProgram(49),
        g[2] == MidiProgram(50),
        g[3] == MidiProgram(51),
        g[4] == MidiProgram(52),
        g[5] == MidiProgram(53),
        g[6] == MidiProgram(54),
        g[7] == MidiProgram(55),
{
    [
        STRING_ENSEMBLE_1(),
        STRING_ENSEMBLE_2(),
        SYNTH_STRINGS_1(),
        SYNTH_STRINGS_2(),
        CHOIR_AAHS(),
        VOICE_OOHS(),
        SYNTH_VOICE(),
        ORCHESTRA_HIT(),
    ]
}

/// Brass instruments
#[allow(non_snake_case)]
pub fn BRASS() -> (g: [MidiProgram; 8])
    ensures
        g[0] == MidiProgram(56),
        g[1] == MidiProgram(57),
        g[2] == MidiProgram(58),
        g[3] == MidiProgram(59),
        g[4] == MidiProgram(60),
        g[5] == MidiProgram(61),
        g[6] == MidiProgram(62),
        g[7] == MidiProgram(63),
{
    [
        TRUMPET(),
        TROMBONE(),
        TUBA(),
        MUTED_TRUMPET(),
        FRENCH_HORN(),
        BRASS_SECTION(),
        SYNTH_BRASS_1(),
        SYNTH_BRASS_2(),
    ]
}

/// Reed instruments
#[allow(non_snake_case)]
pub fn REED() -> (g: [MidiProgram; 8])
    ensures
        g[0] == MidiProgram(64),
        g[1] == MidiProgram(65),
        g[2] == MidiProgram(66),
        g[3] == MidiProgram(67),
        g[4] == MidiProgram(68),
        g[5] == MidiProgram(69),
        g[6] == MidiProgram(70),
        g[7] == MidiProgram(71),
{
    [
        SOPRANO_SAX(),
        ALTO_SAX(),
        TENOR_SAX(),
        BARITONE_SAX(),
        OBOE(),
        ENGLISH_HORN(),
        BASSOON(),
        CLARINET(),
    ]
}

/// Pipe, or [Aerophone](https://en.wikipedia.org/wiki/Aerophone)
#[allow(non_snake_case)]
pub fn PIPE() -> (g: [MidiProgram; 8])
    ensures
        g[0] == MidiProgram(72),
        g[1] == MidiProgram(73),
        g[2] == MidiProgram(74),
        g[3] == MidiProgram(75),
        g[4] == MidiProgram(76),
        g[5] == MidiProgram(77),
        g[6] == MidiProgram(78),
        g[7] == MidiProgram(79),
{
    [
        PICCOLO(),
        FLUTE(),
        RECORDER(),
        PAN_FLUTE(),
        BLOWN_BOTTLE(),
        SHAKUHACHI(),
        WHISTLE(),
        OCARINA(),
    ]
}

/// Synth leads
#[allow(non_snake_case)]
pub fn LEAD() -> (g: [MidiProgram; 8])
    ensures
        g[0] == MidiProgram(80),
        g[1] == MidiProgram(81),
        g[2] == MidiProgram(82),
        g[3] == MidiProgram(83),
        g[4] == MidiProgram(84),
        g[5] == MidiProgram(85),
        g[6] == MidiProgram(86),
        g[7] == MidiProgram(87),
{
    [
        LEAD_1_SQUARE(),
        LEAD_2_SAWTOOTH(),
        LEAD_3_CALLIOPE(),
        LEAD_4_CHIFF(),
        LEAD_5_CHARANG(),
        LEAD_6_VOICE(),
        LEAD_7_FIFTHS(),
        LEAD_8_BASS_LEAD(),
    ]
}

/// Synth pads
#[allow(non_snake_case)]
pub fn PAD() -> (g: [MidiProgram; 8])
    ensures
        g[0] == MidiProgram(88),
        g[1] == MidiProgram(89),
        g[2] == MidiProgram(90),
        g[3] == MidiProgram(91),
        g[4] == MidiProgram(92),
        g[5] == MidiProgram(93),
        g[6] == MidiProgram(94),
        g[7] == MidiProgram(95),
{
    [
        PAD_1_NEW_AGE(),
        PAD_2_WARM(),
        PAD_3_POLYSYNTH(),
        PAD_4_CHOIR(),
        PAD_5_BOWED(),
        PAD_6_METALLIC(),
        PAD_7_HALO(),
        PAD_8_SWEEP(),
    ]
}

/// Synth effects
#[allow(non_snake_case)]
pub fn FX() -> (g: [MidiProgram; 8])
    ensures
        g[0] == MidiProgram(96),
        g[1] == MidiProgram(97),
        g[2] == MidiProgram(98),
        g[3] == MidiProgram(99),
        g[4] == MidiProgram(100),
        g[5] == MidiProgram(101),
        g[6] == MidiProgram(102),
        g[7] == MidiProgram(103),
{
    [
        FX_1_RAIN(),
        FX_2_SOUNDTRACK(),
        FX_3_CRYSTAL(),
        FX_4_ATMOSPHERE(),
        FX_5_BRIGHTNESS(),
        FX_6_GOBLINS(),
        FX_7_ECHOES(),
        FX_8_SCI_FI(),
    ]
}

/// Ethnic/world instruments
#[allow(non_snake_case)]
pub fn ETHNIC() -> (g: [MidiProgram; 8])
    ensures
        g[0] == MidiProgram(104),
        g[1] == MidiProgram(105),
        g[2] == MidiProgram(106),
        g[3] == MidiProgram(107),
        g[4] == MidiProgram(108),
        g[5] == MidiProgram(109),
        g[6] == MidiProgram(110),
        g[7] == MidiProgram(111),
{
    [
        SITAR(),
        BANJO(),
        SHAMISEN(),
        KOTO(),
        KALIMBA(),
        BAG_PIPE(),
        FIDDLE(),
        SHANAI(),
    ]
}

/// Percussive pitched instruments
#[allow(non_snake_case)]
pub fn PERCUSSIVE() -> (g: [MidiProgram; 8])
    ensures
        g[0] == MidiProgram(112),
        g[1] == MidiProgram(113),
        g[2] == MidiProgram(114),
        g[3] == MidiProgram(115),
        g[4] == MidiProgram(116),
        g[5] == MidiProgram(117),
        g[6] == MidiProgram(118),
        g[7] == MidiProgram(119),
{
    [
        TINKLE_BELL(),
        AGOGO(),
        STEEL_DRUMS(),
        WOODBLOCK(),
        TAIKO_DRUM(),
        MELODIC_TOM(),
        SYNTH_DRUM(),
        REVERSE_CYMBAL(),
    ]
}

/// Sound effects
#[allow(non_snake_case)]
pub fn SOUND_EFFECTS() -> (g: [MidiProgram; 8])
    ensures
        g[0] == MidiProgram(120),
        g[1] == MidiProgram(121),
        g[2] == MidiProgram(122),
        g[3] == MidiProgram(123),
        g[4] == MidiProgram(124),
        g[5] == MidiProgram(125),
        g[6] == MidiProgram(126),
        g[7] == MidiProgram(127),
{
    [
        GUITAR_FRET_NOISE(),
        BREATH_NOISE(),
        SEASHORE(),
        BIRD_TWEET(),
        TELEPHONE_RING(),
        HELICOPTER(),
        APPLAUSE(),
        GUNSHOT(),
    ]
}

} // verus!
