//! Well-known datatype IRIs.
use crate::iri::Iri;
use vstd::prelude::*;

verus! {

/// The value of `xsd:string`, the datatype of plain literals.
pub open spec fn xsd_string_value() -> Seq<char> {
    "http://www.w3.org/2001/XMLSchema#"@ + "string"@
}

/// The value of `rdf:langString`, the datatype of language-tagged literals.
pub open spec fn rdf_lang_string_value() -> Seq<char> {
    "http://www.w3.org/1999/02/22-rdf-syntax-ns#"@ + "langString"@
}

/// The IRI `xsd:string`.
pub fn xsd_string() -> (r: Iri<&'static str>)
    ensures
        r.value() == xsd_string_value(),
{
    Iri::from_static("http://www.w3.org/2001/XMLSchema#", "string")
}

/// The IRI `xsd:integer`.
pub fn xsd_integer() -> (r: Iri<&'static str>)
    ensures
        r.value() == "http://www.w3.org/2001/XMLSchema#"@ + "integer"@,
{
    Iri::from_static("http://www.w3.org/2001/XMLSchema#", "integer")
}

/// The IRI `rdf:langString`.
pub fn rdf_lang_string() -> (r: Iri<&'static str>)
    ensures
        r.value() == rdf_lang_string_value(),
{
    Iri::from_static("http://www.w3.org/1999/02/22-rdf-syntax-ns#", "langString")
}

} // verus!
