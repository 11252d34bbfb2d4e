//! RDF terms, of which a literal is one kind.
use crate::error::TermError;
use crate::iri::{iri_ntriples, Iri};
use crate::literal::Literal;
use crate::term_data::{FromBorrowed, TermData};
use crate::text::{push_char, push_str};
use vstd::prelude::*;

verus! {

/// An RDF term.
#[derive(Clone, Copy, Debug)]
pub enum Term<TD: TermData> {
    /// An IRI.
    Iri(Iri<TD>),
    /// A blank node, by its identifier.
    BNode(TD),
    /// A literal.
    Literal(Literal<TD>),
}

/// The NTriples form of a term.
pub open spec fn term_ntriples<TD: TermData>(t: Term<TD>) -> Seq<char> {
    match t {
        Term::Iri(i) => iri_ntriples(i.value()),
        Term::BNode(id) => seq!['_', ':'] + id.text(),
        Term::Literal(l) => l.ntriples(),
    }
}

impl<TD: TermData> Term<TD> {
    /// The NTriples form of this term.
    pub fn to_ntriples(&self) -> (r: String)
        ensures
            r@ == term_ntriples(*self),
    {
        match self {
            Term::Iri(i) => {
                let mut s = String::new();
                i.write_fmt(&mut s);
                assert(s@ =~= iri_ntriples(i.value()));
                s
            },
            Term::BNode(id) => {
                let mut s = String::new();
                push_char(&mut s, '_');
                push_char(&mut s, ':');
                push_str(&mut s, id.as_str());
                assert(s@ =~= seq!['_', ':'] + id.text());
                s
            },
            Term::Literal(l) => l.to_ntriples(),
        }
    }
}

impl<TD: TermData> Literal<TD> {
    /// The literal held by `term`; fails where `term` is of another kind,
    /// with the NTriples form of `term` and the kind that was expected.
    pub fn try_from_term(term: Term<TD>) -> (r: Result<Literal<TD>, TermError>)
        ensures
            term matches Term::Literal(l) ==> r == Ok::<Literal<TD>, TermError>(l),
            !(term is Literal) ==> (r matches Err(TermError::UnexpectedKindOfTerm { term: t, expect: e })
                && t@ == term_ntriples(term) && e@ == "literal"@),
    {
        match term {
            Term::Literal(lit) => Ok(lit),
            _ => Err(
                TermError::UnexpectedKindOfTerm { term: term.to_ntriples(), expect: "literal".to_owned() },
            ),
        }
    }

    /// The literal held by `term`, rebuilt over this storage from its
    /// borrowed texts; fails where `term` is of another kind.
    pub fn try_from_term_ref<'a, U: TermData>(term: &'a Term<U>) -> (r: Result<
        Literal<TD>,
        TermError,
    >) where TD: FromBorrowed<'a>
        ensures
            (r is Ok) == (*term is Literal),
            *term matches Term::Literal(l) ==> (r matches Ok(m) && m.text_view() == l.text_view()
                && m.lang_view() == l.lang_view() && m.dt_view() == l.dt_view()),
            !(*term is Literal) ==> (r matches Err(TermError::UnexpectedKindOfTerm { term: t, expect: e })
                && t@ == term_ntriples(*term) && e@ == "literal"@),
    {
        match term {
            Term::Literal(lit) => Ok(lit.clone_into()),
            _ => Err(
                TermError::UnexpectedKindOfTerm { term: term.to_ntriples(), expect: "literal".to_owned() },
            ),
        }
    }

    /// Whether `other` is a literal equal to this one.
    pub fn eq_term<U: TermData>(&self, other: &Term<U>) -> (r: bool)
        ensures
            r == (other matches Term::Literal(l) && self.lit_eq(&l)),
    {
        match other {
            Term::Literal(l) => self.same_as(l),
            _ => false,
        }
    }
}

} // verus!
