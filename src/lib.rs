//! RDF literals: a lexical text paired with either a language tag or a
//! datatype IRI, with RDF equality and NTriples serialization.
pub mod error;
pub mod escape;
pub mod iri;
pub mod lang_tag;
pub mod literal;
pub mod ns;
pub mod term;
pub mod term_data;
mod text;

pub use error::TermError;
pub use iri::{Iri, Normalization};
pub use literal::{Kind, Literal};
pub use ns::{rdf_lang_string, xsd_integer, xsd_string};
pub use term::Term;
pub use term_data::{ConvertInto, FromBorrowed, MownStr, TermData};
