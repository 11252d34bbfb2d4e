//! Errors raised when building terms.
use vstd::prelude::*;

verus! {

/// What can go wrong when building a term.
#[derive(Clone, Debug, PartialEq, Eq)]
pub enum TermError {
    /// The text holds a character that no IRI may hold.
    InvalidIri(String),
    /// The text is no BCP47 language tag; `err` says which rule it breaks.
    InvalidLanguageTag { tag: String, err: String },
    /// A term of another kind was found where `expect` was wanted.
    UnexpectedKindOfTerm { term: String, expect: String },
}

} // verus!
