//! The Humdrum `**kern` reader: why a file cannot be read at all, the tie
//! state of a note, the lines of a file and the fields they hold, how the
//! spines split, join and end, and the reading of one data token.

pub mod layout;
pub mod lines;
pub mod token;

use vstd::prelude::*;

verus! {

/// Why a file could not be parsed at all.
#[derive(Debug, Clone, PartialEq, Eq, Structural)]
pub enum ParseError {
    /// No `**kern` spine was declared.
    NoKernSpine,
}

impl ParseError {
    /// The error as text.
    pub fn message(&self) -> (s: String)
        ensures
            s@ == "no **kern spine in file"@,
    {
        String::from_str("no **kern spine in file")
    }
}

/// The pieces of `s` between single occurrences of `sep` (two in a row
/// leave an empty piece; an empty `s` is one empty piece).
pub open spec fn split_on(s: Seq<char>, sep: char) -> Seq<Seq<char>>
    decreases s.len(),
{
    if s.len() == 0 {
        seq![seq![]]
    } else {
        let p = split_on(s.drop_last(), sep);
        if s.last() == sep {
            p.push(seq![])
        } else {
            p.update(p.len() - 1, p.last().push(s.last()))
        }
    }
}

/// Tie state of a note.
#[derive(Debug, Clone, Copy, PartialEq, Eq, Default, Structural)]
pub enum Tie {
    /// Not tied.
    #[default]
    Untied,
    /// First note of a tie (`[`).
    Start,
    /// Middle of a tie (`_`).
    Continue,
    /// Last note of a tie (`]`).
    End,
}

} // verus!
