//! RDF literals and their NTriples form.
use crate::error::TermError;
use crate::escape::{
    escaped, escaped_bytes, fmt_quoted_string, io_quoted_string, lemma_encode_ascii,
    lemma_encode_concat, lemma_escape_commutes_with_encoding, lemma_unescape_escaped, unescaped,
};
use crate::iri::{has_scheme, iri_ntriples, scheme_tail, suffix_text, Iri, Normalization};
use crate::lang_tag::{is_lang_tag, parse_lang_tag};
use crate::ns::{rdf_lang_string, rdf_lang_string_value, xsd_string, xsd_string_value};
use crate::term_data::{ConvertInto, FromBorrowed, MownStr, TermData};
use crate::text::{
    append_bytes, ascii_lower_seq, chars_of, lower_chars, push_char, push_str, same_chars,
};
use vstd::utf8::encode_utf8;
use vstd::prelude::*;

verus! {

/// What sets a literal's datatype: a language tag (the datatype is then
/// `rdf:langString`) or an explicit datatype IRI.
#[derive(Clone, Copy, Debug)]
pub enum Kind<TD: TermData> {
    /// A BCP47 language tag.
    Lang(TD),
    /// The datatype IRI.
    Dt(Iri<TD>),
}

/// An RDF literal: a lexical text and either a language tag or a datatype.
///
/// Ill-typed literals, whose text is not in the lexical space of their
/// datatype, are accepted and kept as they are.
#[derive(Clone, Copy, Debug)]
pub struct Literal<TD: TermData> {
    txt: TD,
    kind: Kind<TD>,
}

/// What follows the closing quote of a serialized literal.
pub open spec fn kind_suffix<TD: TermData>(k: Kind<TD>) -> Seq<char> {
    match k {
        Kind::Lang(tag) => seq!['@'] + tag.text(),
        Kind::Dt(dt) => if dt.value() == xsd_string_value() {
            Seq::empty()
        } else {
            seq!['^', '^'] + iri_ntriples(dt.value())
        },
    }
}

/// The bytes that follow the closing quote of a serialized literal.
pub open spec fn kind_suffix_bytes<TD: TermData>(k: Kind<TD>) -> Seq<u8> {
    match k {
        Kind::Lang(tag) => seq![64u8] + encode_utf8(tag.text()),
        Kind::Dt(dt) => if dt.value() == xsd_string_value() {
            Seq::empty()
        } else {
            seq![94u8, 94u8, 60u8] + encode_utf8(dt.ns_spec().text()) + encode_utf8(
                suffix_text(dt.suffix_spec()),
            ) + seq![62u8]
        },
    }
}

/// RDF equality of kinds: tags compare ignoring ASCII case, IRIs exactly.
pub open spec fn kind_eq<T: TermData, U: TermData>(a: Kind<T>, b: Kind<U>) -> bool {
    match (a, b) {
        (Kind::Lang(x), Kind::Lang(y)) => ascii_lower_seq(x.text()) == ascii_lower_seq(y.text()),
        (Kind::Dt(x), Kind::Dt(y)) => x.value() == y.value(),
        _ => false,
    }
}

/// What a kind contributes to a literal's hash.
pub open spec fn kind_hash_key<TD: TermData>(k: Kind<TD>) -> Seq<char> {
    match k {
        Kind::Lang(tag) => ascii_lower_seq(tag.text()),
        Kind::Dt(dt) => dt.value(),
    }
}

impl<TD: TermData> Literal<TD> {
    /// The stored lexical text.
    pub closed spec fn txt_spec(&self) -> TD {
        self.txt
    }

    /// The stored kind.
    pub closed spec fn kind_spec(&self) -> Kind<TD> {
        self.kind
    }

    /// The lexical text.
    pub open spec fn text_view(&self) -> Seq<char> {
        self.txt_spec().text()
    }

    /// The language tag, if the literal has one.
    pub open spec fn lang_view(&self) -> Option<Seq<char>> {
        match self.kind_spec() {
            Kind::Lang(tag) => Some(tag.text()),
            Kind::Dt(_) => None,
        }
    }

    /// The effective datatype: `rdf:langString` for a tagged literal.
    pub open spec fn dt_view(&self) -> Seq<char> {
        match self.kind_spec() {
            Kind::Lang(_) => rdf_lang_string_value(),
            Kind::Dt(dt) => dt.value(),
        }
    }

    /// The NTriples form of the literal.
    pub open spec fn ntriples(&self) -> Seq<char> {
        seq!['"'] + escaped(self.text_view()) + seq!['"'] + kind_suffix(self.kind_spec())
    }

    /// The NTriples form of the literal, as bytes.
    pub open spec fn ntriples_bytes(&self) -> Seq<u8> {
        seq![34u8] + escaped_bytes(encode_utf8(self.text_view())) + seq![34u8] + kind_suffix_bytes(
            self.kind_spec(),
        )
    }

    /// RDF equality: the same text, and kinds that match.
    pub open spec fn lit_eq<U: TermData>(&self, other: &Literal<U>) -> bool {
        self.text_view() == other.text_view() && kind_eq(self.kind_spec(), other.kind_spec())
    }

    /// The characters hashed for this literal.
    pub open spec fn hash_key_view(&self) -> Seq<char> {
        self.text_view() + seq!['"'] + kind_hash_key(self.kind_spec())
    }

    /// A language-tagged literal; fails where `tag` is no BCP47 language tag.
    pub fn new_lang<U, V>(txt: U, tag: V) -> (r: Result<Self, TermError>) where
        U: ConvertInto<TD>,
        V: ConvertInto<TD>,
        ensures
            r is Ok <==> is_lang_tag(tag.text()),
            r matches Ok(l) ==> l.text_view() == txt.text() && l.lang_view() == Some(tag.text()),
            r matches Err(e) ==> e matches TermError::InvalidLanguageTag { tag: t, err: _ } && t@
                == tag.text(),
    {
        match parse_lang_tag(tag.as_str()) {
            Ok(()) => Ok(Self::new_lang_unchecked(txt, tag)),
            Err(err) => Err(TermError::InvalidLanguageTag { tag: tag.as_str().to_owned(), err }),
        }
    }

    /// A language-tagged literal whose tag the caller knows to be valid.
    pub fn new_lang_unchecked<U, V>(txt: U, tag: V) -> (r: Self) where
        U: ConvertInto<TD>,
        V: ConvertInto<TD>,
        requires
            is_lang_tag(tag.text()),
        ensures
            r.text_view() == txt.text(),
            r.lang_view() == Some(tag.text()),
    {
        Literal { txt: txt.convert_into(), kind: Kind::Lang(tag.convert_into()) }
    }

    /// A literal of datatype `dt`; its text is not checked against `dt`.
    pub fn new_dt<U, V>(txt: U, dt: Iri<V>) -> (r: Self) where
        U: ConvertInto<TD>,
        V: ConvertInto<TD>,
        ensures
            r.text_view() == txt.text(),
            r.lang_view() is None,
            r.dt_view() == dt.value(),
    {
        Literal { txt: txt.convert_into(), kind: Kind::Dt(dt.map_into()) }
    }

    /// Borrows the parts of this literal.
    pub fn as_ref(&self) -> (r: Literal<&TD>)
        ensures
            r.text_view() == self.text_view(),
            r.lang_view() == self.lang_view(),
            r.dt_view() == self.dt_view(),
            r.kind_spec() is Dt <==> self.kind_spec() is Dt,
    {
        let kind = match &self.kind {
            Kind::Lang(tag) => Kind::Lang(tag),
            Kind::Dt(dt) => Kind::Dt(dt.as_ref()),
        };
        Literal { txt: &self.txt, kind }
    }

    /// Borrows the parts of this literal as `&str`.
    pub fn as_ref_str(&self) -> (r: Literal<&str>)
        ensures
            r.text_view() == self.text_view(),
            r.lang_view() == self.lang_view(),
            r.dt_view() == self.dt_view(),
            r.kind_spec() is Dt <==> self.kind_spec() is Dt,
    {
        let kind = match &self.kind {
            Kind::Lang(tag) => Kind::Lang(tag.as_str()),
            Kind::Dt(dt) => Kind::Dt(dt.as_ref_str()),
        };
        Literal { txt: self.txt.as_str(), kind }
    }

    /// Applies `f` once to each stored text: the lexical text, then the tag
    /// or each part of the datatype IRI.
    pub fn map<F, TD2>(self, f: F) -> (r: Literal<TD2>) where F: FnMut(TD) -> TD2, TD2: TermData
        requires
            forall|x: TD| call_requires(f, (x,)),
        ensures
            call_ensures(f, (self.txt_spec(),), r.txt_spec()),
            match (self.kind_spec(), r.kind_spec()) {
                (Kind::Lang(a), Kind::Lang(b)) => call_ensures(f, (a,), b),
                (Kind::Dt(a), Kind::Dt(b)) => call_ensures(f, (a.ns_spec(),), b.ns_spec()) && (
                a.suffix_spec() is None <==> b.suffix_spec() is None) && (a.suffix_spec() matches Some(
                    s,
                ) ==> call_ensures(f, (s,), b.suffix_spec()->Some_0)),
                _ => false,
            },
    {
        let mut f = f;
        let txt = f(self.txt);
        let kind = match self.kind {
            Kind::Lang(tag) => Kind::Lang(f(tag)),
            Kind::Dt(dt) => Kind::Dt(dt.map(f)),
        };
        Literal { txt, kind }
    }

    /// Converts the storage of every stored text, keeping the text.
    pub fn map_into<TD2: TermData>(self) -> (r: Literal<TD2>) where TD: ConvertInto<TD2>
        ensures
            r.text_view() == self.text_view(),
            r.lang_view() == self.lang_view(),
            r.dt_view() == self.dt_view(),
            r.kind_spec() is Dt <==> self.kind_spec() is Dt,
    {
        let txt = self.txt.convert_into();
        let kind = match self.kind {
            Kind::Lang(tag) => Kind::Lang(tag.convert_into()),
            Kind::Dt(dt) => Kind::Dt(dt.map_into()),
        };
        Literal { txt, kind }
    }

    /// A new literal made by applying `factory` once to each stored text,
    /// borrowed as `&str`; `self` is left as it is.
    pub fn clone_map<'a, U, F>(&'a self, factory: F) -> (r: Literal<U>) where
        U: TermData,
        F: FnMut(&'a str) -> U,
        requires
            forall|x: &'a str| call_requires(factory, (x,)),
        ensures
            exists|a: &'a str|
                a@ == self.text_view() && call_ensures(factory, (a,), r.txt_spec()),
            match (self.kind_spec(), r.kind_spec()) {
                (Kind::Lang(t), Kind::Lang(u)) => exists|a: &'a str|
                    a@ == t.text() && call_ensures(factory, (a,), u),
                (Kind::Dt(t), Kind::Dt(u)) => (exists|a: &'a str|
                    a@ == t.ns_spec().text() && call_ensures(factory, (a,), u.ns_spec())) && (
                t.suffix_spec() is None <==> u.suffix_spec() is None) && (t.suffix_spec() matches Some(
                    s,
                ) ==> exists|a: &'a str|
                    a@ == s.text() && call_ensures(factory, (a,), u.suffix_spec()->Some_0)),
                _ => false,
            },
    {
        let mut factory = factory;
        let t = self.txt.as_str();
        let txt = factory(t);
        let kind = match &self.kind {
            Kind::Lang(tag) => {
                let g = tag.as_str();
                Kind::Lang(factory(g))
            },
            Kind::Dt(iri) => Kind::Dt(iri.clone_map(factory)),
        };
        Literal { txt, kind }
    }

    /// A new literal whose every text is built from the borrowed text of
    /// `self` by `U::from_borrowed`, which borrows where `U` can.
    pub fn clone_into<'src, U: FromBorrowed<'src>>(&'src self) -> (r: Literal<U>)
        ensures
            r.text_view() == self.text_view(),
            r.lang_view() == self.lang_view(),
            r.dt_view() == self.dt_view(),
            r.kind_spec() is Dt <==> self.kind_spec() is Dt,
            U::zero_copy() ==> r.txt_spec().is_borrowed(),
            U::zero_copy() ==> match r.kind_spec() {
                Kind::Lang(t) => t.is_borrowed(),
                Kind::Dt(d) => d.ns_spec().is_borrowed() && (d.suffix_spec() matches Some(s)
                    ==> s.is_borrowed()),
            },
    {
        let txt = U::from_borrowed(self.txt.as_str());
        let kind = match &self.kind {
            Kind::Lang(tag) => Kind::Lang(U::from_borrowed(tag.as_str())),
            Kind::Dt(iri) => Kind::Dt(iri.clone_into()),
        };
        Literal { txt, kind }
    }

    /// An equal literal over `MownStr` that borrows its text and tag from
    /// `self`, and whose datatype IRI is laid out as `policy` says.
    pub fn normalized(&self, policy: Normalization) -> (r: Literal<MownStr<'_>>)
        ensures
            r.text_view() == self.text_view(),
            r.lang_view() == self.lang_view(),
            r.dt_view() == self.dt_view(),
            r.kind_spec() is Dt <==> self.kind_spec() is Dt,
            r.txt_spec() is Ref,
            r.kind_spec() matches Kind::Lang(t) ==> t is Ref,
            policy == Normalization::NoSuffix ==> (r.kind_spec() matches Kind::Dt(d) ==> d.suffix_spec() is None),
            policy == Normalization::Unchanged ==> (r.kind_spec() matches Kind::Dt(d) ==> (d.ns_spec() is Ref
                && (d.suffix_spec() matches Some(s) ==> s is Ref))),
            match (self.kind_spec(), r.kind_spec()) {
                (Kind::Dt(a), Kind::Dt(b)) => (a.suffix_spec() is None ==> b.ns_spec() is Ref) && (
                policy == Normalization::Unchanged ==> b.ns_spec().text() == a.ns_spec().text() && (
                b.suffix_spec() is None <==> a.suffix_spec() is None)),
                _ => true,
            },
    {
        let txt = MownStr::Ref(self.txt.as_str());
        let kind = match &self.kind {
            Kind::Lang(tag) => Kind::Lang(MownStr::Ref(tag.as_str())),
            Kind::Dt(iri) => Kind::Dt(iri.normalized(policy)),
        };
        Literal { txt, kind }
    }

    /// Appends the NTriples form of the literal to `w`: the quoted, escaped
    /// text, then `@` and the tag, nothing for `xsd:string`, or `^^` and the
    /// datatype IRI.
    pub fn write_fmt(&self, w: &mut String)
        ensures
            final(w)@ == old(w)@ + self.ntriples(),
    {
        push_char(w, '"');
        fmt_quoted_string(w, self.txt.as_str());
        push_char(w, '"');
        match &self.kind {
            Kind::Lang(tag) => {
                push_char(w, '@');
                push_str(w, tag.as_str());
            },
            Kind::Dt(dt) => {
                if !dt.same_value(&xsd_string()) {
                    push_char(w, '^');
                    push_char(w, '^');
                    dt.write_fmt(w);
                }
            },
        }
        assert(final(w)@ =~= old(w)@ + self.ntriples());
    }

    /// The NTriples form of the literal.
    pub fn to_ntriples(&self) -> (r: String)
        ensures
            r@ == self.ntriples(),
    {
        let mut s = String::new();
        self.write_fmt(&mut s);
        assert(s@ =~= self.ntriples());
        s
    }

    /// Appends the UTF-8 bytes of the NTriples form of the literal to `w`.
    pub fn write_io(&self, w: &mut Vec<u8>)
        ensures
            final(w)@ == old(w)@ + self.ntriples_bytes(),
    {
        w.push(34u8);
        io_quoted_string(w, self.txt.as_str().as_bytes());
        w.push(34u8);
        match &self.kind {
            Kind::Lang(tag) => {
                w.push(64u8);
                append_bytes(w, tag.as_str());
            },
            Kind::Dt(dt) => {
                if !dt.same_value(&xsd_string()) {
                    w.push(94u8);
                    w.push(94u8);
                    dt.write_io(w);
                }
            },
        }
        assert(final(w)@ =~= old(w)@ + self.ntriples_bytes());
    }

    /// The lexical text, borrowed.
    pub fn value(&self) -> (r: MownStr<'_>)
        ensures
            r.text() == self.text_view(),
            r is Ref,
    {
        MownStr::Ref(self.txt.as_str())
    }

    /// The stored lexical text.
    pub fn txt(&self) -> (r: &TD)
        ensures
            *r == self.txt_spec(),
    {
        &self.txt
    }

    /// The effective datatype, borrowed: `rdf:langString` for a tagged
    /// literal, the stored IRI otherwise.
    pub fn dt(&self) -> (r: Iri<&str>)
        ensures
            r.value() == self.dt_view(),
    {
        match &self.kind {
            Kind::Lang(_) => rdf_lang_string(),
            Kind::Dt(dt) => dt.as_ref_str(),
        }
    }

    /// The language tag, if the literal has one.
    pub fn lang(&self) -> (r: Option<&TD>)
        ensures
            r is Some <==> self.lang_view() is Some,
            r matches Some(t) ==> t.text() == self.lang_view()->Some_0,
            r matches Some(t) ==> self.kind_spec() == Kind::Lang(*t),
    {
        match &self.kind {
            Kind::Lang(tag) => Some(tag),
            Kind::Dt(_) => None,
        }
    }

    /// Whether the effective datatype IRI is absolute; always true for a
    /// tagged literal, as `rdf:langString` is.
    pub fn is_absolute(&self) -> (r: bool)
        ensures
            r == has_scheme(self.dt_view()),
    {
        match &self.kind {
            Kind::Dt(dt) => dt.is_absolute(),
            Kind::Lang(_) => {
                proof {
                    lemma_lang_string_absolute();
                }
                true
            },
        }
    }

    /// Whether both literals have the same lexical text, whatever their kinds.
    pub fn eq_txt<U: TermData>(&self, other: Literal<U>) -> (r: bool)
        ensures
            r == (self.text_view() == other.text_view()),
    {
        let a = chars_of(self.txt.as_str());
        let b = chars_of(other.txt.as_str());
        same_chars(&a, &b)
    }

    /// RDF equality with a literal over any storage.
    pub fn same_as<U: TermData>(&self, other: &Literal<U>) -> (r: bool)
        ensures
            r == self.lit_eq(other),
    {
        let a = chars_of(self.txt.as_str());
        let b = chars_of(other.txt.as_str());
        if !same_chars(&a, &b) {
            return false;
        }
        match (&self.kind, &other.kind) {
            (Kind::Lang(x), Kind::Lang(y)) => {
                let lx = lower_chars(&chars_of(x.as_str()));
                let ly = lower_chars(&chars_of(y.as_str()));
                same_chars(&lx, &ly)
            },
            (Kind::Dt(x), Kind::Dt(y)) => x.same_value(y),
            _ => false,
        }
    }

    /// The characters fed to a hasher for this literal: the text, then the
    /// tag lower-cased or the datatype IRI's value.
    pub fn hash_key(&self) -> (r: Vec<char>)
        ensures
            r@ == self.hash_key_view(),
    {
        let mut out = chars_of(self.txt.as_str());
        out.push('"');
        match &self.kind {
            Kind::Lang(tag) => {
                let mut l = lower_chars(&chars_of(tag.as_str()));
                out.append(&mut l);
            },
            Kind::Dt(dt) => {
                let mut v = dt.hash_key();
                out.append(&mut v);
            },
        }
        out
    }
}

/// `rdf:langString` is an absolute IRI.
proof fn lemma_lang_string_absolute()
    ensures
        has_scheme(rdf_lang_string_value()),
{
    let v = rdf_lang_string_value();
    reveal_strlit("http://www.w3.org/1999/02/22-rdf-syntax-ns#");
    reveal_strlit("langString");
    let t = v.drop_first();
    assert(t[0] == 't' && t[1] == 't' && t[2] == 'p' && t[3] == ':');
    assert(t.drop_first().drop_first().drop_first()[0] == ':');
    assert(scheme_tail(t.drop_first().drop_first().drop_first()));
    assert(scheme_tail(t.drop_first().drop_first()));
    assert(scheme_tail(t.drop_first()));
    assert(scheme_tail(t));
}

impl<T: TermData, U: TermData> PartialEq<Literal<U>> for Literal<T> {
    fn eq(&self, other: &Literal<U>) -> (r: bool) {
        self.same_as(other)
    }
}

impl<T: TermData, U: TermData> vstd::std_specs::cmp::PartialEqSpecImpl<Literal<U>> for Literal<T> {
    open spec fn obeys_eq_spec() -> bool {
        true
    }

    open spec fn eq_spec(&self, other: &Literal<U>) -> bool {
        self.lit_eq(other)
    }
}

impl<TD: TermData> std::hash::Hash for Literal<TD> {
    fn hash<H: std::hash::Hasher>(&self, state: &mut H) {
        let key = self.hash_key();
        hash_chars(&key, state);
    }
}

/// Relies on `Hash for Vec<char>`: feeds the characters to `state`.
#[verifier::external_body]
fn hash_chars<H: std::hash::Hasher>(key: &Vec<char>, state: &mut H) {
    std::hash::Hash::hash(key, state)
}

/// Exactly one of "has a language tag" and "has an explicit datatype"
/// holds of a literal, and its effective datatype is always defined.
pub proof fn lemma_kind_exclusive<TD: TermData>(l: Literal<TD>)
    ensures
        (l.lang_view() is Some) != (l.kind_spec() is Dt),
        l.lang_view() is Some ==> l.dt_view() == rdf_lang_string_value(),
        l.kind_spec() matches Kind::Dt(d) ==> l.dt_view() == d.value(),
{
}

/// Equal literals have the same hash key, so they hash alike; this holds
/// across tags that differ only in ASCII case.
pub proof fn lemma_eq_hash<T: TermData, U: TermData>(a: Literal<T>, b: Literal<U>)
    requires
        a.lit_eq(&b),
    ensures
        a.hash_key_view() == b.hash_key_view(),
{
}

/// The byte writer writes the UTF-8 encoding of what the text writer
/// writes.
pub proof fn lemma_writers_agree<TD: TermData>(l: Literal<TD>)
    ensures
        l.ntriples_bytes() == encode_utf8(l.ntriples()),
{
    let q = seq!['"'];
    let e = escaped(l.text_view());
    let k = kind_suffix(l.kind_spec());
    lemma_encode_ascii('"');
    lemma_escape_commutes_with_encoding(l.text_view());
    lemma_encode_concat(q, e);
    lemma_encode_concat(q + e, q);
    lemma_encode_concat(q + e + q, k);
    match l.kind_spec() {
        Kind::Lang(tag) => {
            lemma_encode_ascii('@');
            lemma_encode_concat(seq!['@'], tag.text());
        },
        Kind::Dt(dt) => {
            if dt.value() != xsd_string_value() {
                let ns = dt.ns_spec().text();
                let sf = suffix_text(dt.suffix_spec());
                lemma_encode_ascii('^');
                lemma_encode_ascii('<');
                lemma_encode_ascii('>');
                assert(k =~= seq!['^'] + seq!['^'] + seq!['<'] + ns + sf + seq!['>']);
                lemma_encode_concat(seq!['^'], seq!['^']);
                lemma_encode_concat(seq!['^'] + seq!['^'], seq!['<']);
                lemma_encode_concat(seq!['^'] + seq!['^'] + seq!['<'], ns);
                lemma_encode_concat(seq!['^'] + seq!['^'] + seq!['<'] + ns, sf);
                lemma_encode_concat(seq!['^'] + seq!['^'] + seq!['<'] + ns + sf, seq!['>']);
                assert(encode_utf8(k) =~= kind_suffix_bytes(l.kind_spec()));
            } else {
                assert(encode_utf8(k) =~= kind_suffix_bytes(l.kind_spec()));
            }
        },
    }
    assert(l.ntriples_bytes() =~= encode_utf8(l.ntriples()));
}

/// A literal of datatype `xsd:string` is written as its escaped text between
/// double quotes, and reading the escapes back gives its text.
pub proof fn lemma_plain_round_trip<TD: TermData>(l: Literal<TD>)
    requires
        l.kind_spec() is Dt,
        l.dt_view() == xsd_string_value(),
    ensures
        l.ntriples() == seq!['"'] + escaped(l.text_view()) + seq!['"'],
        unescaped(escaped(l.text_view())) == l.text_view(),
{
    assert(l.ntriples() =~= seq!['"'] + escaped(l.text_view()) + seq!['"']);
    lemma_unescape_escaped(l.text_view());
}

} // verus!
