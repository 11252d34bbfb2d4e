//! Validation of language tags against BCP47.
use vstd::prelude::*;

verus! {

/// Whether a text parses as a BCP47 language tag.
pub uninterp spec fn is_lang_tag(s: Seq<char>) -> bool;

/// Relies on `FromStr for language_tag::LangTag`: parses `tag` under the BCP47
/// grammar, and hands back the parser's message where it fails.
#[verifier::external_body]
pub(crate) fn parse_lang_tag(tag: &str) -> (r: Result<(), String>)
    ensures
        r is Ok <==> is_lang_tag(tag@),
{
    match tag.parse::<language_tag::LangTag>() {
        Ok(_) => Ok(()),
        Err(e) => Err(e),
    }
}

} // verus!
