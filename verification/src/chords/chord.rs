//! Chord qualities, roman numerals and their labels, and cadences.

use vstd::prelude::*;
use vstd::string::StringExecFns;

verus! {

/// The quality of a triad or seventh chord.
#[derive(Debug, Clone, Copy, PartialEq, Eq, Hash, Default, Structural)]
pub enum Quality {
    /// Major triad.
    #[default]
    Major,
    /// Minor triad.
    Minor,
    /// Diminished triad.
    Diminished,
    /// Augmented triad.
    Augmented,
    /// Major triad with a minor seventh (the dominant seventh).
    DominantSeventh,
    /// Major triad with a major seventh.
    MajorSeventh,
    /// Minor triad with a minor seventh.
    MinorSeventh,
    /// Diminished triad with a minor seventh.
    HalfDiminishedSeventh,
    /// Diminished triad with a diminished seventh.
    DiminishedSeventh,
}

/// Semitone offsets of the chord members above the root.
pub open spec fn intervals_spec(q: Quality) -> Seq<i32> {
    match q {
        Quality::Major => seq![0i32, 4, 7],
        Quality::Minor => seq![0i32, 3, 7],
        Quality::Diminished => seq![0i32, 3, 6],
        Quality::Augmented => seq![0i32, 4, 8],
        Quality::DominantSeventh => seq![0i32, 4, 7, 10],
        Quality::MajorSeventh => seq![0i32, 4, 7, 11],
        Quality::MinorSeventh => seq![0i32, 3, 7, 10],
        Quality::HalfDiminishedSeventh => seq![0i32, 3, 6, 10],
        Quality::DiminishedSeventh => seq![0i32, 3, 6, 9],
    }
}

/// Whether the triad's third is minor.
pub open spec fn minorish(q: Quality) -> bool {
    q == Quality::Minor || q == Quality::Diminished || q == Quality::MinorSeventh || q
        == Quality::HalfDiminishedSeventh || q == Quality::DiminishedSeventh
}

/// The triad a third of `third` and a fifth of `fifth` semitones above
/// the root make: minor (3, 7), diminished (3, 6), augmented (4, 8), and
/// major for any other stack.
pub open spec fn from_stack_spec(third: i32, fifth: i32) -> Quality {
    if third == 3 && fifth == 7 {
        Quality::Minor
    } else if third == 3 && fifth == 6 {
        Quality::Diminished
    } else if third == 4 && fifth == 8 {
        Quality::Augmented
    } else {
        Quality::Major
    }
}

/// The seventh chord a triad and a seventh of `seventh` semitones make, as
/// the diatonic seventh chords are named: a major triad with a minor
/// seventh (10) is a dominant seventh, a major or augmented one with any
/// other a major seventh; a minor triad gives a minor seventh; a
/// diminished one a diminished seventh with 9, else a half-diminished one.
pub open spec fn seventh_of(triad: Quality, seventh: i32) -> Quality {
    match triad {
        Quality::Major => if seventh == 10 {
            Quality::DominantSeventh
        } else {
            Quality::MajorSeventh
        },
        Quality::Augmented => Quality::MajorSeventh,
        Quality::Minor => Quality::MinorSeventh,
        Quality::Diminished => if seventh == 9 {
            Quality::DiminishedSeventh
        } else {
            Quality::HalfDiminishedSeventh
        },
        q => q,
    }
}

/// A quality's intervals are the stack of thirds that names it: they start
/// at the root, rise, and read back as the same quality through the triad
/// (and, for a seventh chord, the seventh) they hold; the third is minor
/// (3 semitones) exactly for the qualities counted as minor, and the chord
/// has four members exactly when it has a seventh.
pub proof fn lemma_intervals_name_the_quality(q: Quality)
    ensures
        ({
            let iv = intervals_spec(q);
            &&& iv.len() == 3 || iv.len() == 4
            &&& iv[0] == 0
            &&& forall|i: int, j: int| 0 <= i < j < iv.len() ==> iv[i] < iv[j]
            &&& iv.len() == 3 ==> from_stack_spec(iv[1], iv[2]) == q
            &&& iv.len() == 4 ==> seventh_of(from_stack_spec(iv[1], iv[2]), iv[3]) == q
            &&& (minorish(q) <==> iv[1] == 3)
        }),
{
}

impl Quality {
    /// Semitone offsets of the chord members above the root.
    pub fn intervals(self) -> (v: &'static [i32])
        ensures
            v@ == intervals_spec(self),
    {
        let v: &'static [i32] = match self {
            Quality::Major => &[0, 4, 7],
            Quality::Minor => &[0, 3, 7],
            Quality::Diminished => &[0, 3, 6],
            Quality::Augmented => &[0, 4, 8],
            Quality::DominantSeventh => &[0, 4, 7, 10],
            Quality::MajorSeventh => &[0, 4, 7, 11],
            Quality::MinorSeventh => &[0, 3, 7, 10],
            Quality::HalfDiminishedSeventh => &[0, 3, 6, 10],
            Quality::DiminishedSeventh => &[0, 3, 6, 9],
        };
        assert(v@ =~= intervals_spec(self));
        v
    }

    /// Whether the chord has a seventh.
    pub fn has_seventh(self) -> (b: bool)
        ensures
            b == (intervals_spec(self).len() == 4),
    {
        match self {
            Quality::DominantSeventh | Quality::MajorSeventh | Quality::MinorSeventh
            | Quality::HalfDiminishedSeventh | Quality::DiminishedSeventh => true,
            _ => false,
        }
    }

    /// The triad quality implied by a third of `third` semitones and a fifth
    /// of `fifth` semitones above the root; a stack that is no other triad
    /// (major, suspended, quartal) counts as major, so that it still realises
    /// to something playable.
    pub fn from_stack(third: i32, fifth: i32) -> (q: Quality)
        ensures
            q == from_stack_spec(third, fifth),
    {
        if third == 3 && fifth == 7 {
            Quality::Minor
        } else if third == 3 && fifth == 6 {
            Quality::Diminished
        } else if third == 4 && fifth == 8 {
            Quality::Augmented
        } else {
            Quality::Major
        }
    }

    /// Whether the triad's third is minor.
    pub fn is_minorish(self) -> (b: bool)
        ensures
            b == minorish(self),
    {
        match self {
            Quality::Minor | Quality::Diminished | Quality::MinorSeventh
            | Quality::HalfDiminishedSeventh | Quality::DiminishedSeventh => true,
            _ => false,
        }
    }
}

/// A chord relative to a key.
#[derive(Debug, Clone, Copy, PartialEq, Eq, Hash, Default, Structural)]
pub struct RomanNumeral {
    /// Scale degree of the root, `0..=6`.
    pub degree: u8,
    /// Chromatic alteration of the root in semitones (the Neapolitan is
    /// degree 1, alteration -1).
    pub root_alteration: i8,
    /// Chord quality.
    pub quality: Quality,
    /// Inversion: 0 root position, 1 first, 2 second, 3 third (sevenths).
    pub inversion: u8,
}

/// The roman numeral of a degree, in capitals or in small letters.
pub open spec fn numeral_spec(degree: u8, small: bool) -> Seq<char> {
    if degree == 0 {
        if small { "i"@ } else { "I"@ }
    } else if degree == 1 {
        if small { "ii"@ } else { "II"@ }
    } else if degree == 2 {
        if small { "iii"@ } else { "III"@ }
    } else if degree == 3 {
        if small { "iv"@ } else { "IV"@ }
    } else if degree == 4 {
        if small { "v"@ } else { "V"@ }
    } else if degree == 5 {
        if small { "vi"@ } else { "VI"@ }
    } else {
        if small { "vii"@ } else { "VII"@ }
    }
}

/// The leading-tone chord of a minor key, whose root the key raises: no
/// sharp is written for it.
pub open spec fn raised_leading_tone(r: RomanNumeral) -> bool {
    r.degree == 6 && r.root_alteration == 1 && (r.quality == Quality::Diminished || r.quality
        == Quality::DiminishedSeventh)
}

/// The accidental before the numeral: a flat for a lowered root, a sharp
/// for a raised one (but the leading tone's).
pub open spec fn accidental_spec(r: RomanNumeral) -> Seq<char> {
    if r.root_alteration < 0 {
        "♭"@
    } else if r.root_alteration > 0 && !raised_leading_tone(r) {
        "♯"@
    } else {
        Seq::empty()
    }
}

/// The mark of the quality after the numeral.
pub open spec fn quality_mark(q: Quality) -> Seq<char> {
    match q {
        Quality::Diminished => "°"@,
        Quality::DiminishedSeventh => "°7"@,
        Quality::HalfDiminishedSeventh => "ø7"@,
        Quality::Augmented => "+"@,
        Quality::DominantSeventh | Quality::MinorSeventh | Quality::MajorSeventh => "7"@,
        Quality::Major | Quality::Minor => Seq::empty(),
    }
}

/// The figure of the inversion: none in root position; `6`, `64` for a
/// triad; `65`, `43`, `42` for a seventh chord.
pub open spec fn figure_spec(seventh: bool, inversion: u8) -> Seq<char> {
    if inversion == 0 {
        Seq::empty()
    } else if !seventh {
        if inversion == 1 { "6"@ } else { "64"@ }
    } else if inversion == 1 {
        "65"@
    } else if inversion == 2 {
        "43"@
    } else {
        "42"@
    }
}

/// The conventional label of a chord: accidental, numeral (small for a
/// minor third), quality mark, inversion figure.
pub open spec fn label_spec(r: RomanNumeral) -> Seq<char> {
    accidental_spec(r) + numeral_spec(r.degree, minorish(r.quality)) + quality_mark(r.quality)
        + figure_spec(intervals_spec(r.quality).len() == 4, r.inversion)
}

impl RomanNumeral {
    /// A root-position chord.
    pub fn new(degree: u8, quality: Quality) -> (r: RomanNumeral)
        ensures
            r == (RomanNumeral { degree, root_alteration: 0, quality, inversion: 0 }),
    {
        RomanNumeral { degree, root_alteration: 0, quality, inversion: 0 }
    }

    /// The same chord in `inversion`.
    pub fn inv(self, inversion: u8) -> (r: RomanNumeral)
        ensures
            r == (RomanNumeral { inversion, ..self }),
    {
        RomanNumeral { inversion, ..self }
    }

    /// The same chord with its root altered by `semitones`.
    pub fn altered(self, semitones: i8) -> (r: RomanNumeral)
        ensures
            r == (RomanNumeral { root_alteration: semitones, ..self }),
    {
        RomanNumeral { root_alteration: semitones, ..self }
    }

    /// Whether this is a dominant-function chord (V, V7 or vii°).
    pub fn is_dominant(&self) -> (b: bool)
        ensures
            b == ((self.degree == 4 || self.degree == 6) && self.root_alteration == 0),
    {
        (self.degree == 4 || self.degree == 6) && self.root_alteration == 0
    }

    /// Whether this is the tonic chord in any inversion.
    pub fn is_tonic(&self) -> (b: bool)
        ensures
            b == (self.degree == 0 && self.root_alteration == 0),
    {
        self.degree == 0 && self.root_alteration == 0
    }

    /// The subtonic ♭VII of a minor key: the major triad on the natural
    /// seventh degree, as against the diminished chord on the raised one.
    pub fn subtonic() -> (r: RomanNumeral)
        ensures
            r == (RomanNumeral { degree: 6, root_alteration: 0, quality: Quality::Major, inversion: 0 }),
    {
        RomanNumeral::new(6, Quality::Major)
    }

    /// A conventional label such as `V7`, `ii6`, `vii°`, `♭II6`.
    pub fn label(&self) -> (s: String)
        ensures
            s@ == label_spec(*self),
    {
        let mut s = String::new();
        let raised = self.degree == 6 && self.root_alteration == 1 && (self.quality
            == Quality::Diminished || self.quality == Quality::DiminishedSeventh);
        if self.root_alteration < 0 {
            s.append("♭");
        } else if self.root_alteration > 0 && !raised {
            s.append("♯");
        }
        let small = self.quality.is_minorish();
        let numeral = if self.degree == 0 {
            if small { "i" } else { "I" }
        } else if self.degree == 1 {
            if small { "ii" } else { "II" }
        } else if self.degree == 2 {
            if small { "iii" } else { "III" }
        } else if self.degree == 3 {
            if small { "iv" } else { "IV" }
        } else if self.degree == 4 {
            if small { "v" } else { "V" }
        } else if self.degree == 5 {
            if small { "vi" } else { "VI" }
        } else {
            if small { "vii" } else { "VII" }
        };
        s.append(numeral);
        match self.quality {
            Quality::Diminished => s.append("°"),
            Quality::DiminishedSeventh => s.append("°7"),
            Quality::HalfDiminishedSeventh => s.append("ø7"),
            Quality::Augmented => s.append("+"),
            Quality::DominantSeventh | Quality::MinorSeventh | Quality::MajorSeventh => s.append("7"),
            Quality::Major | Quality::Minor => {},
        }
        let seventh = self.quality.has_seventh();
        if self.inversion == 0 {
        } else if !seventh {
            if self.inversion == 1 {
                s.append("6");
            } else {
                s.append("64");
            }
        } else if self.inversion == 1 {
            s.append("65");
        } else if self.inversion == 2 {
            s.append("43");
        } else {
            s.append("42");
        }
        assert(s@ =~= label_spec(*self));
        s
    }
}

/// A cadence: how a phrase ends.
#[derive(Debug, Clone, Copy, PartialEq, Eq, Hash, Default, Structural)]
pub enum Cadence {
    /// Perfect authentic: V (root) → I (root).
    #[default]
    Authentic,
    /// Imperfect authentic: V → I with an inversion somewhere.
    Imperfect,
    /// Half: ends on V.
    Half,
    /// Deceptive: V → vi.
    Deceptive,
    /// Plagal: IV → I.
    Plagal,
    /// Phrygian half cadence: iv6 → V, the minor-key sigh.
    Phrygian,
}

impl Cadence {
    /// Whether the phrase comes to rest on the tonic: the authentic,
    /// imperfect and plagal cadences do.
    pub fn closes(self) -> (b: bool)
        ensures
            b == (self == Cadence::Authentic || self == Cadence::Imperfect || self
                == Cadence::Plagal),
    {
        match self {
            Cadence::Authentic | Cadence::Imperfect | Cadence::Plagal => true,
            _ => false,
        }
    }
}

} // verus!
