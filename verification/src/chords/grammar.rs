//! Stock progressions and harmonic functions.

use vstd::prelude::*;
use vstd::string::StringExecFns;

use crate::chords::chord::{RomanNumeral, label_spec};

verus! {

/// A named chord progression, one chord per slot.
#[derive(Debug, Clone, PartialEq)]
pub struct Progression {
    /// The chords, in order.
    pub chords: Vec<RomanNumeral>,
    /// Where it came from: a stock name or `"grammar"`.
    pub source: String,
}

/// The labels of `cs` joined with single spaces.
pub open spec fn labels_spec(cs: Seq<RomanNumeral>) -> Seq<char>
    decreases cs.len(),
{
    if cs.len() == 0 {
        seq![]
    } else if cs.len() == 1 {
        label_spec(cs[0])
    } else {
        labels_spec(cs.drop_last()) + " "@ + label_spec(cs.last())
    }
}

impl Progression {
    /// Labels joined with spaces, e.g. `"I IV V I"`.
    pub fn labels(&self) -> (s: String)
        ensures
            s@ == labels_spec(self.chords@),
    {
        let mut s = String::new();
        let mut i: usize = 0;
        while i < self.chords.len()
            invariant
                i <= self.chords@.len(),
                s@ == labels_spec(self.chords@.take(i as int)),
            decreases self.chords@.len() - i,
        {
            proof {
                assert(self.chords@.take(i + 1).drop_last() =~= self.chords@.take(i as int));
                assert(self.chords@.take(i + 1).last() == self.chords@[i as int]);
            }
            if i > 0 {
                s.append(" ");
            }
            let l = self.chords[i].label();
            s.append(l.as_str());
            proof {
                if i == 0 {
                    assert(self.chords@.take(1) =~= seq![self.chords@[0]]);
                }
            }
            i = i + 1;
        }
        proof {
            assert(self.chords@.take(i as int) =~= self.chords@);
        }
        s
    }
}

/// A stock progression of the period: a ground or a sequence a musician
/// would know by name.
#[derive(Debug, Clone, Copy, PartialEq, Eq, Hash, Structural)]
pub enum StockProgression {
    /// La Folia (later form): i V i VII III VII i V, twice, closing on i.
    Folia,
    /// Romanesca: III VII i V III VII i V i — in major, I V vi iii IV I IV V.
    Romanesca,
    /// Passamezzo antico: i VII i V III VII i V i.
    PassamezzoAntico,
    /// Passamezzo moderno: I IV I V I IV I V I.
    PassamezzoModerno,
    /// The lament: a chromatic-or-diatonic descending tetrachord in the bass.
    LamentTetrachord,
    /// The chaconne bass of Lully's stage: I V vi IV (or i V VI iv) then a
    /// cadence.
    Chaconne,
    /// Descending-fifths sequence: I IV vii° iii vi ii V I.
    CircleOfFifths,
    /// Pachelbel-style: I V vi iii IV I IV V.
    Canon,
}

/// The short name of a stock progression.
pub open spec fn progression_name(p: StockProgression) -> Seq<char> {
    match p {
        StockProgression::Folia => "folia"@,
        StockProgression::Romanesca => "romanesca"@,
        StockProgression::PassamezzoAntico => "passamezzo antico"@,
        StockProgression::PassamezzoModerno => "passamezzo moderno"@,
        StockProgression::LamentTetrachord => "lament tetrachord"@,
        StockProgression::Chaconne => "chaconne"@,
        StockProgression::CircleOfFifths => "circle of fifths"@,
        StockProgression::Canon => "canon"@,
    }
}

impl StockProgression {
    /// All stock progressions.
    pub const ALL: [StockProgression; 8] = [
        StockProgression::Folia,
        StockProgression::Romanesca,
        StockProgression::PassamezzoAntico,
        StockProgression::PassamezzoModerno,
        StockProgression::LamentTetrachord,
        StockProgression::Chaconne,
        StockProgression::CircleOfFifths,
        StockProgression::Canon,
    ];

    /// A short name.
    pub fn name(self) -> (s: &'static str)
        ensures
            s@ == progression_name(self),
    {
        match self {
            StockProgression::Folia => "folia",
            StockProgression::Romanesca => "romanesca",
            StockProgression::PassamezzoAntico => "passamezzo antico",
            StockProgression::PassamezzoModerno => "passamezzo moderno",
            StockProgression::LamentTetrachord => "lament tetrachord",
            StockProgression::Chaconne => "chaconne",
            StockProgression::CircleOfFifths => "circle of fifths",
            StockProgression::Canon => "canon",
        }
    }

    /// Whether the pattern belongs to minor keys: the folia, the passamezzo
    /// antico and the lament do.
    pub fn prefers_minor(self) -> (b: bool)
        ensures
            b == (self == StockProgression::Folia || self == StockProgression::PassamezzoAntico
                || self == StockProgression::LamentTetrachord),
    {
        match self {
            StockProgression::Folia
            | StockProgression::PassamezzoAntico
            | StockProgression::LamentTetrachord => true,
            _ => false,
        }
    }
}

/// Harmonic function, the coarse grammar behind the chord-to-chord table.
#[derive(Debug, Clone, Copy, PartialEq, Eq, Hash, Structural)]
pub enum Function {
    /// Tonic: I, vi (and iii, weakly).
    Tonic,
    /// Predominant: ii, IV (and vi on its way somewhere).
    Predominant,
    /// Dominant: V, vii°.
    Dominant,
}

} // verus!
