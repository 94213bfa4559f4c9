//! The small vocabularies of the composition engine: the dramatic phases
//! and forms, kinds and provenance of ideas, instrument roles and families,
//! and the voice bookkeeping of the forms.

pub mod anneal;
pub mod conductor;
pub mod form;
pub mod idea;
pub mod instrument;
pub mod state;
