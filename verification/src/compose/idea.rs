//! The kinds of material in the idea library, and their provenance.

use vstd::prelude::*;

verus! {

/// What kind of material an idea is.
#[derive(Debug, Clone, Copy, PartialEq, Eq, Hash, Structural)]
pub enum IdeaKind {
    /// A melodic motif or tune strain.
    Motif,
    /// A ground bass (chaconne, passacaille, folia, lament).
    Ground,
    /// A fugue subject.
    Subject,
    /// A countersubject written to go with a subject.
    Countersubject,
    /// A rhythmic cell (a dance rhythm) with no fixed pitches.
    Rhythm,
}

/// The directory ideas of a kind live in.
pub open spec fn kind_dir(k: IdeaKind) -> Seq<char> {
    match k {
        IdeaKind::Motif => "motifs"@,
        IdeaKind::Ground => "grounds"@,
        IdeaKind::Subject => "subjects"@,
        IdeaKind::Countersubject => "countersubjects"@,
        IdeaKind::Rhythm => "rhythms"@,
    }
}

impl IdeaKind {
    /// The kinds, in a stable order.
    pub const ALL: [IdeaKind; 5] = [
        IdeaKind::Motif,
        IdeaKind::Ground,
        IdeaKind::Subject,
        IdeaKind::Countersubject,
        IdeaKind::Rhythm,
    ];

    /// The directory name ideas of this kind live in.
    pub fn dir(self) -> (s: &'static str)
        ensures
            s@ == kind_dir(self),
    {
        match self {
            IdeaKind::Motif => "motifs",
            IdeaKind::Ground => "grounds",
            IdeaKind::Subject => "subjects",
            IdeaKind::Countersubject => "countersubjects",
            IdeaKind::Rhythm => "rhythms",
        }
    }
}

/// Where an idea came from.
#[derive(Debug, Clone, Copy, PartialEq, Eq, Hash, Structural)]
pub enum Provenance {
    /// Extracted from a cited, machine-readable source file.
    Sourced,
    /// A documented common practice of the period, with no single source.
    PeriodConvention,
    /// Written down from memory; unverified against a source.
    TranscribedFromMemory,
    /// Newly written to fit the sourced material (countersubjects, mostly).
    ComposedForThisSystem,
}

/// Provenance and citation for an idea.
#[derive(Debug, Clone, PartialEq, Default)]
pub struct Citation {
    /// How trustworthy the transcription is.
    pub provenance: Option<Provenance>,
    /// The work.
    pub work: Option<String>,
    /// The composer, as best known.
    pub composer: Option<String>,
    /// When it was composed or first printed.
    pub composed: Option<String>,
    /// Political colour, where the song had one.
    pub faction: Option<String>,
    /// The piece id in the corpus.
    pub corpus_piece_id: Option<String>,
    /// The file in the corpus the notes were read from.
    pub corpus_file: Option<String>,
    /// Bars of the source the idea was cut from, inclusive.
    pub bars: Option<[u32; 2]>,
    /// The voice/spine of the source the idea was cut from.
    pub voice: Option<String>,
    /// The key of the source, as printed.
    pub source_key: Option<String>,
    /// The encoding's origin (site or project).
    pub source: Option<String>,
    /// URL of the encoding.
    pub source_url: Option<String>,
    /// Who encoded it.
    pub encoder: Option<String>,
    /// The encoding's licence.
    pub license: Option<String>,
    /// Whether the music itself is public domain.
    pub music_public_domain: Option<bool>,
    /// How the notes were extracted.
    pub extraction: Option<String>,
    /// Free-form note about this particular cut.
    pub note: Option<String>,
}

/// Whether an octave or alteration field holds its default, zero (a field
/// at its default is left out when an idea is written).
pub fn is_zero_i8(v: &i8) -> (b: bool)
    ensures
        b == (*v == 0),
{
    *v == 0
}

/// Whether an octave field holds its default, zero.
pub fn is_zero_i32(v: &i32) -> (b: bool)
    ensures
        b == (*v == 0),
{
    *v == 0
}

/// The schema an idea file declares when it names none.
pub open spec fn schema_name() -> Seq<char> {
    "peasantide-idea/2"@
}

/// The schema an idea file declares when it names none.
pub fn default_schema() -> (s: String)
    ensures
        s@ == schema_name(),
{
    "peasantide-idea/2".to_owned()
}

} // verus!
