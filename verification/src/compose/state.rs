//! The dramatic phases and the forms the engine writes in, by name.

use vstd::prelude::*;

use crate::text::{ascii_lower_spec, ascii_lowercase, lemma_plain_text, trim, trim_spec};

verus! {

/// The dramatic phase the music is in.
#[derive(Debug, Clone, Copy, PartialEq, Eq, Hash, Default, Structural)]
pub enum Phase {
    /// Gathering: marching songs, refrains, recruitment.
    #[default]
    Recruit,
    /// The riot itself: dances, hammering rhythms, stretto.
    Riot,
    /// The withdrawal: laments, grounds, thinning textures.
    Retreat,
}

/// The lower-case name of a phase.
pub open spec fn phase_name(p: Phase) -> Seq<char> {
    match p {
        Phase::Recruit => "recruit"@,
        Phase::Riot => "riot"@,
        Phase::Retreat => "retreat"@,
    }
}

/// The phase a lower-case name names.
pub open spec fn phase_named(name: Seq<char>) -> Option<Phase> {
    if name == "recruit"@ {
        Some(Phase::Recruit)
    } else if name == "riot"@ {
        Some(Phase::Riot)
    } else if name == "retreat"@ {
        Some(Phase::Retreat)
    } else {
        None
    }
}

impl Phase {
    /// All phases.
    pub const ALL: [Phase; 3] = [Phase::Recruit, Phase::Riot, Phase::Retreat];

    /// Lower-case name.
    pub fn name(self) -> (s: &'static str)
        ensures
            s@ == phase_name(self),
    {
        match self {
            Phase::Recruit => "recruit",
            Phase::Riot => "riot",
            Phase::Retreat => "retreat",
        }
    }

    /// The phase named exactly `name`.
    pub fn from_name(name: &String) -> (p: Option<Phase>)
        ensures
            p == phase_named(name@),
    {
        if *name == "recruit".to_owned() {
            Some(Phase::Recruit)
        } else if *name == "riot".to_owned() {
            Some(Phase::Riot)
        } else if *name == "retreat".to_owned() {
            Some(Phase::Retreat)
        } else {
            None
        }
    }

    /// Parses a phase name, ignoring surrounding white space and ASCII case.
    pub fn parse(s: &str) -> (p: Option<Phase>)
        ensures
            p == phase_named(ascii_lower_spec(trim_spec(s@))),
    {
        let lower = ascii_lowercase(trim(s));
        Phase::from_name(&lower)
    }
}

/// The forms the engine can write in.
#[derive(Debug, Clone, Copy, PartialEq, Eq, Hash, Structural)]
pub enum FormKind {
    /// Subject, answer, episodes, stretto.
    Fugue,
    /// Refrain and couplets.
    Rondeau,
    /// Variations over a ground bass.
    Chaconne,
    /// A tune with accompaniment, possibly sung.
    Air,
    /// A lively strain-form dance with drums.
    Contredanse,
}

/// The lower-case name of a form.
pub open spec fn form_name(f: FormKind) -> Seq<char> {
    match f {
        FormKind::Fugue => "fugue"@,
        FormKind::Rondeau => "rondeau"@,
        FormKind::Chaconne => "chaconne"@,
        FormKind::Air => "air"@,
        FormKind::Contredanse => "contredanse"@,
    }
}

/// The first form, in the order of [`FormKind::ALL`], whose name is `name`.
pub open spec fn form_named(name: Seq<char>) -> Option<FormKind> {
    if name == "fugue"@ {
        Some(FormKind::Fugue)
    } else if name == "rondeau"@ {
        Some(FormKind::Rondeau)
    } else if name == "chaconne"@ {
        Some(FormKind::Chaconne)
    } else if name == "air"@ {
        Some(FormKind::Air)
    } else if name == "contredanse"@ {
        Some(FormKind::Contredanse)
    } else {
        None
    }
}

impl FormKind {
    /// All forms.
    pub const ALL: [FormKind; 5] = [
        FormKind::Fugue,
        FormKind::Rondeau,
        FormKind::Chaconne,
        FormKind::Air,
        FormKind::Contredanse,
    ];

    /// Lower-case name.
    pub fn name(self) -> (s: &'static str)
        ensures
            s@ == form_name(self),
    {
        match self {
            FormKind::Fugue => "fugue",
            FormKind::Rondeau => "rondeau",
            FormKind::Chaconne => "chaconne",
            FormKind::Air => "air",
            FormKind::Contredanse => "contredanse",
        }
    }

    /// The first form, in the order of [`FormKind::ALL`], named exactly
    /// `name`.
    pub fn from_name(name: &String) -> (f: Option<FormKind>)
        ensures
            f == form_named(name@),
    {
        let mut i: usize = 0;
        proof {
            lemma_form_named_from(name@);
        }
        while i < 5
            invariant
                i <= 5,
                forall|k: int| 0 <= k < i ==> form_name(#[trigger] FormKind::ALL@[k]) != name@,
                form_named(name@) == form_named_from(name@, i as int),
            decreases 5 - i,
        {
            let f = FormKind::ALL[i];
            if *name == f.name().to_owned() {
                return Some(f);
            }
            i = i + 1;
        }
        None
    }

    /// Parses a form name, ignoring surrounding white space and ASCII case.
    pub fn parse(s: &str) -> (f: Option<FormKind>)
        ensures
            f == form_named(ascii_lower_spec(trim_spec(s@))),
    {
        let lower = ascii_lowercase(trim(s));
        FormKind::from_name(&lower)
    }
}

/// The first form at or after position `i` of [`FormKind::ALL`] named
/// `name`.
pub open spec fn form_named_from(name: Seq<char>, i: int) -> Option<FormKind>
    decreases 5 - i,
{
    if i < 0 || i >= 5 {
        None
    } else if form_name(FormKind::ALL@[i]) == name {
        Some(FormKind::ALL@[i])
    } else {
        form_named_from(name, i + 1)
    }
}

/// Scanning [`FormKind::ALL`] from its start finds the form of that name.
proof fn lemma_form_named_from(name: Seq<char>)
    ensures
        form_named(name) == form_named_from(name, 0),
{
    assert(FormKind::ALL@[0] == FormKind::Fugue);
    assert(FormKind::ALL@[1] == FormKind::Rondeau);
    assert(FormKind::ALL@[2] == FormKind::Chaconne);
    assert(FormKind::ALL@[3] == FormKind::Air);
    assert(FormKind::ALL@[4] == FormKind::Contredanse);
    reveal_with_fuel(form_named_from, 6);
}

/// A phase's name names that phase.
pub proof fn lemma_phase_name_round_trip(p: Phase)
    ensures
        phase_named(phase_name(p)) == Some(p),
{
    reveal_strlit("recruit");
    reveal_strlit("riot");
    reveal_strlit("retreat");
    assert("recruit"@.len() == 7 && "riot"@.len() == 4 && "retreat"@.len() == 7);
    assert("recruit"@[2] == 'c' && "retreat"@[2] == 't');
}

/// A form's name names that form.
pub proof fn lemma_form_name_round_trip(f: FormKind)
    ensures
        form_named(form_name(f)) == Some(f),
{
    reveal_strlit("fugue");
    reveal_strlit("rondeau");
    reveal_strlit("chaconne");
    reveal_strlit("air");
    reveal_strlit("contredanse");
    assert("fugue"@.len() == 5 && "rondeau"@.len() == 7 && "chaconne"@.len() == 8 && "air"@.len()
        == 3 && "contredanse"@.len() == 11);
}

/// Parsing a phase's name gives that phase.
pub proof fn lemma_phase_parses_its_name(p: Phase)
    ensures
        phase_named(ascii_lower_spec(trim_spec(phase_name(p)))) == Some(p),
{
    reveal_strlit("recruit");
    reveal_strlit("riot");
    reveal_strlit("retreat");
    let t = phase_name(p);
    assert forall|i: int| 0 <= i < t.len() implies !('A' <= #[trigger] t[i] <= 'Z') by {}
    lemma_plain_text(t);
    lemma_phase_name_round_trip(p);
}

/// Parsing a form's name gives that form.
pub proof fn lemma_form_parses_its_name(f: FormKind)
    ensures
        form_named(ascii_lower_spec(trim_spec(form_name(f)))) == Some(f),
{
    reveal_strlit("fugue");
    reveal_strlit("rondeau");
    reveal_strlit("chaconne");
    reveal_strlit("air");
    reveal_strlit("contredanse");
    let t = form_name(f);
    assert forall|i: int| 0 <= i < t.len() implies !('A' <= #[trigger] t[i] <= 'Z') by {}
    lemma_plain_text(t);
    lemma_form_name_round_trip(f);
}

} // verus!
