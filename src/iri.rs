//! IRIs, held as a namespace and an optional suffix.
use crate::error::TermError;
use crate::term_data::{ConvertInto, FromBorrowed, MownStr, TermData};
use crate::text::{append_bytes, append_chars, chars_of, push_char, push_str, same_chars};
use vstd::utf8::encode_utf8;
use vstd::prelude::*;

verus! {

/// Whether `c` may stand in an IRI: no space, control character, or one of
/// `<>"{}|^`\`.
pub open spec fn iri_char(c: char) -> bool {
    (c as u32) > 0x20 && c != '<' && c != '>' && c != '"' && c != '{' && c != '}' && c != '|'
        && c != '^' && c != '`' && c != '\\'
}

/// Whether every character of `s` may stand in an IRI.
pub open spec fn valid_iri(s: Seq<char>) -> bool {
    forall|i: int| 0 <= i < s.len() ==> iri_char(#[trigger] s[i])
}

/// An ASCII letter.
pub open spec fn is_alpha(c: char) -> bool {
    ('a' <= c && c <= 'z') || ('A' <= c && c <= 'Z')
}

/// A character that may follow the first one of a scheme.
pub open spec fn scheme_char(c: char) -> bool {
    is_alpha(c) || ('0' <= c && c <= '9') || c == '+' || c == '-' || c == '.'
}

/// Whether `s` starts with scheme characters up to a `:`.
pub open spec fn scheme_tail(s: Seq<char>) -> bool
    decreases s.len(),
{
    if s.len() == 0 {
        false
    } else if s[0] == ':' {
        true
    } else {
        scheme_char(s[0]) && scheme_tail(s.drop_first())
    }
}

/// Whether `s` starts with a scheme (a letter, scheme characters, then `:`),
/// that is, whether it is an absolute IRI.
pub open spec fn has_scheme(s: Seq<char>) -> bool {
    s.len() > 0 && is_alpha(s[0]) && scheme_tail(s.drop_first())
}

/// What an IRI datatype adds to a serialized literal, `<` value `>`.
pub open spec fn iri_ntriples(v: Seq<char>) -> Seq<char> {
    seq!['<'] + v + seq!['>']
}

/// How an IRI is laid out after normalization.
#[derive(Clone, Copy, Debug, PartialEq, Eq)]
pub enum Normalization {
    /// The whole IRI in the namespace, no suffix.
    NoSuffix,
    /// The namespace and suffix kept as they are.
    Unchanged,
}

/// An IRI, held as a namespace and an optional suffix whose concatenation is
/// its value.
#[derive(Clone, Copy, Debug)]
pub struct Iri<TD: TermData> {
    ns: TD,
    suffix: Option<TD>,
}

/// The characters held by an optional suffix.
pub open spec fn suffix_text<TD: TermData>(s: Option<TD>) -> Seq<char> {
    match s {
        Some(t) => t.text(),
        None => Seq::empty(),
    }
}

impl<TD: TermData> Iri<TD> {
    /// The namespace.
    pub closed spec fn ns_spec(&self) -> TD {
        self.ns
    }

    /// The suffix, if any.
    pub closed spec fn suffix_spec(&self) -> Option<TD> {
        self.suffix
    }

    /// The IRI's value: the namespace followed by the suffix.
    pub open spec fn value(&self) -> Seq<char> {
        self.ns_spec().text() + suffix_text(self.suffix_spec())
    }

    /// Builds an IRI from its whole text; fails where a character may not
    /// stand in an IRI.
    pub fn new<U: ConvertInto<TD>>(iri: U) -> (r: Result<Self, TermError>)
        ensures
            r is Ok <==> valid_iri(iri.text()),
            r matches Ok(i) ==> i.ns_spec().text() == iri.text() && i.suffix_spec() is None,
    {
        if !check_iri_text(iri.as_str()) {
            return Err(TermError::InvalidIri(iri.as_str().to_owned()));
        }
        Ok(Iri { ns: iri.convert_into(), suffix: None })
    }

    /// Builds an IRI from a namespace and a suffix; fails where a character of
    /// either may not stand in an IRI.
    pub fn new_suffixed<U: ConvertInto<TD>, V: ConvertInto<TD>>(ns: U, suffix: V) -> (r: Result<
        Self,
        TermError,
    >)
        ensures
            r is Ok <==> valid_iri(ns.text() + suffix.text()),
            r matches Ok(i) ==> i.ns_spec().text() == ns.text() && (i.suffix_spec() matches Some(
                s,
            ) && s.text() == suffix.text()),
    {
        let a = check_iri_text(ns.as_str());
        let b = check_iri_text(suffix.as_str());
        proof {
            lemma_valid_iri_concat(ns.text(), suffix.text());
        }
        if !a || !b {
            let mut whole = ns.as_str().to_owned();
            push_str(&mut whole, suffix.as_str());
            return Err(TermError::InvalidIri(whole));
        }
        Ok(Iri { ns: ns.convert_into(), suffix: Some(suffix.convert_into()) })
    }

    /// The characters of the value.
    pub fn value_chars(&self) -> (r: Vec<char>)
        ensures
            r@ == self.value(),
    {
        let mut out = chars_of(self.ns.as_str());
        match &self.suffix {
            Some(s) => append_chars(&mut out, s.as_str()),
            None => {
                assert(out@ =~= out@ + Seq::<char>::empty());
            },
        }
        out
    }

    /// Borrows the parts of this IRI.
    pub fn as_ref(&self) -> (r: Iri<&TD>)
        ensures
            r.value() == self.value(),
            r.ns_spec().text() == self.ns_spec().text(),
            suffix_text(r.suffix_spec()) == suffix_text(self.suffix_spec()),
            r.suffix_spec() is None <==> self.suffix_spec() is None,
    {
        let suffix = match &self.suffix {
            Some(s) => Some(s),
            None => None,
        };
        Iri { ns: &self.ns, suffix }
    }

    /// Borrows the parts of this IRI as `&str`.
    pub fn as_ref_str(&self) -> (r: Iri<&str>)
        ensures
            r.value() == self.value(),
            r.ns_spec().text() == self.ns_spec().text(),
            suffix_text(r.suffix_spec()) == suffix_text(self.suffix_spec()),
            r.suffix_spec() is None <==> self.suffix_spec() is None,
    {
        let suffix = match &self.suffix {
            Some(s) => Some(s.as_str()),
            None => None,
        };
        Iri { ns: self.ns.as_str(), suffix }
    }

    /// Applies `f` once to the namespace and once to the suffix, if any.
    pub fn map<F, TD2>(self, f: F) -> (r: Iri<TD2>) where F: FnMut(TD) -> TD2, TD2: TermData
        requires
            forall|x: TD| call_requires(f, (x,)),
        ensures
            call_ensures(f, (self.ns_spec(),), r.ns_spec()),
            self.suffix_spec() is None <==> r.suffix_spec() is None,
            self.suffix_spec() matches Some(s) ==> call_ensures(
                f,
                (s,),
                r.suffix_spec()->Some_0,
            ),
    {
        let mut f = f;
        let ns = f(self.ns);
        let suffix = match self.suffix {
            Some(s) => Some(f(s)),
            None => None,
        };
        Iri { ns, suffix }
    }

    /// Converts the storage of both parts, keeping their text.
    pub fn map_into<TD2: TermData>(self) -> (r: Iri<TD2>) where TD: ConvertInto<TD2>
        ensures
            r.ns_spec().text() == self.ns_spec().text(),
            suffix_text(r.suffix_spec()) == suffix_text(self.suffix_spec()),
            r.suffix_spec() is None <==> self.suffix_spec() is None,
            r.value() == self.value(),
    {
        let ns = self.ns.convert_into();
        let suffix = match self.suffix {
            Some(s) => Some(s.convert_into()),
            None => None,
        };
        Iri { ns, suffix }
    }

    /// Applies `factory` once to the borrowed namespace and once to the
    /// borrowed suffix, if any.
    pub fn clone_map<'a, U, F>(&'a self, factory: F) -> (r: Iri<U>) where
        U: TermData,
        F: FnMut(&'a str) -> U,
        requires
            forall|x: &'a str| call_requires(factory, (x,)),
        ensures
            exists|a: &'a str|
                a@ == self.ns_spec().text() && call_ensures(factory, (a,), r.ns_spec()),
            self.suffix_spec() is None <==> r.suffix_spec() is None,
            self.suffix_spec() matches Some(s) ==> exists|a: &'a str|
                a@ == s.text() && call_ensures(factory, (a,), r.suffix_spec()->Some_0),
    {
        let mut factory = factory;
        let n = self.ns.as_str();
        let ns = factory(n);
        let suffix = match &self.suffix {
            Some(s) => {
                let t = s.as_str();
                let u = factory(t);
                Some(u)
            },
            None => None,
        };
        Iri { ns, suffix }
    }

    /// A new IRI whose parts are built from the borrowed parts of `self` by
    /// `U::from_borrowed`, which borrows where `U` can.
    pub fn clone_into<'src, U: FromBorrowed<'src>>(&'src self) -> (r: Iri<U>)
        ensures
            r.ns_spec().text() == self.ns_spec().text(),
            suffix_text(r.suffix_spec()) == suffix_text(self.suffix_spec()),
            r.suffix_spec() is None <==> self.suffix_spec() is None,
            r.value() == self.value(),
            U::zero_copy() ==> r.ns_spec().is_borrowed(),
            U::zero_copy() ==> (r.suffix_spec() matches Some(s) ==> s.is_borrowed()),
    {
        let ns = U::from_borrowed(self.ns.as_str());
        let suffix = match &self.suffix {
            Some(s) => Some(U::from_borrowed(s.as_str())),
            None => None,
        };
        Iri { ns, suffix }
    }

    /// An IRI with the same value that borrows from `self` where `policy`
    /// keeps the layout, and owns the joined text otherwise.
    pub fn normalized(&self, policy: Normalization) -> (r: Iri<MownStr<'_>>)
        ensures
            r.value() == self.value(),
            policy == Normalization::NoSuffix ==> r.suffix_spec() is None,
            policy == Normalization::Unchanged ==> r.ns_spec().text() == self.ns_spec().text()
                && (r.suffix_spec() is None <==> self.suffix_spec() is None),
            self.suffix_spec() is None ==> r.ns_spec() matches MownStr::Ref(_),
            policy == Normalization::Unchanged ==> r.ns_spec() matches MownStr::Ref(_),
            policy == Normalization::Unchanged ==> (r.suffix_spec() matches Some(s) ==> s is Ref),
    {
        match (&self.suffix, policy) {
            (None, _) => {
                let r = Iri { ns: MownStr::Ref(self.ns.as_str()), suffix: None };
                assert(r.value() =~= self.value());
                r
            },
            (Some(s), Normalization::Unchanged) => Iri {
                ns: MownStr::Ref(self.ns.as_str()),
                suffix: Some(MownStr::Ref(s.as_str())),
            },
            (Some(s), Normalization::NoSuffix) => {
                let mut joined = self.ns.as_str().to_owned();
                push_str(&mut joined, s.as_str());
                let r = Iri { ns: MownStr::Own(joined), suffix: None };
                assert(r.value() =~= self.value());
                r
            },
        }
    }

    /// Whether the IRI starts with a scheme, that is, is absolute.
    pub fn is_absolute(&self) -> (r: bool)
        ensures
            r == has_scheme(self.value()),
    {
        let v = self.value_chars();
        if v.len() == 0 || !is_alpha_exec(v[0]) {
            return false;
        }
        let mut i: usize = 1;
        assert(v@.drop_first() =~= v@.skip(1));
        while i < v.len()
            invariant
                1 <= i <= v.len(),
                v@.len() > 0,
                v@ == self.value(),
                is_alpha(v@[0]),
                scheme_tail(v@.drop_first()) == scheme_tail(v@.skip(i as int)),
            decreases v.len() - i,
        {
            assert(v@.skip(i as int).drop_first() =~= v@.skip(i as int + 1));
            assert(v@.skip(i as int)[0] == v@[i as int]);
            let ghost rest = v@.skip(i as int);
            assert(rest.len() > 0);
            if v[i] == ':' {
                assert(scheme_tail(rest));
                return true;
            }
            if !is_scheme_char_exec(v[i]) {
                assert(!scheme_tail(rest));
                return false;
            }
            i = i + 1;
        }
        assert(v@.skip(i as int).len() == 0);
        false
    }

    /// Appends the NTriples form of this IRI, `<` value `>`, to `w`.
    pub fn write_fmt(&self, w: &mut String)
        ensures
            final(w)@ == old(w)@ + iri_ntriples(self.value()),
    {
        push_char(w, '<');
        push_str(w, self.ns.as_str());
        match &self.suffix {
            Some(s) => push_str(w, s.as_str()),
            None => {},
        }
        push_char(w, '>');
        assert(w@ =~= old(w)@ + iri_ntriples(self.value()));
    }

    /// Whether both IRIs have the same value, whatever their layout.
    pub fn same_value<U: TermData>(&self, other: &Iri<U>) -> (r: bool)
        ensures
            r == (self.value() == other.value()),
    {
        let a = self.value_chars();
        let b = other.value_chars();
        same_chars(&a, &b)
    }

    /// Appends the UTF-8 bytes of the NTriples form of this IRI to `w`.
    pub fn write_io(&self, w: &mut Vec<u8>)
        ensures
            final(w)@ == old(w)@ + seq![60u8] + encode_utf8(self.ns_spec().text()) + encode_utf8(
                suffix_text(self.suffix_spec()),
            ) + seq![62u8],
    {
        w.push(60u8);
        append_bytes(w, self.ns.as_str());
        match &self.suffix {
            Some(s) => append_bytes(w, s.as_str()),
            None => {
                assert(encode_utf8(Seq::<char>::empty()) =~= Seq::<u8>::empty());
                assert(w@ =~= w@ + encode_utf8(Seq::<char>::empty()));
            },
        }
        w.push(62u8);
    }

    /// The characters hashed for this IRI: its value, so that equal IRIs hash
    /// alike whatever their layout.
    pub fn hash_key(&self) -> (r: Vec<char>)
        ensures
            r@ == self.value(),
    {
        self.value_chars()
    }
}

fn is_alpha_exec(c: char) -> (r: bool)
    ensures
        r == is_alpha(c),
{
    ('a' <= c && c <= 'z') || ('A' <= c && c <= 'Z')
}

fn is_scheme_char_exec(c: char) -> (r: bool)
    ensures
        r == scheme_char(c),
{
    is_alpha_exec(c) || ('0' <= c && c <= '9') || c == '+' || c == '-' || c == '.'
}

fn is_iri_char_exec(c: char) -> (r: bool)
    ensures
        r == iri_char(c),
{
    (c as u32) > 0x20 && c != '<' && c != '>' && c != '"' && c != '{' && c != '}' && c != '|'
        && c != '^' && c != '`' && c != '\\'
}

impl<'a> Iri<&'a str> {
    /// An IRI made of two static parts that are known to be valid.
    pub(crate) fn from_static(ns: &'a str, suffix: &'a str) -> (r: Self)
        ensures
            r.ns_spec() == ns,
            r.suffix_spec() == Some(suffix),
            r.value() == ns@ + suffix@,
    {
        Iri { ns, suffix: Some(suffix) }
    }
}

/// Whether every character of `s` may stand in an IRI.
pub fn check_iri_text(s: &str) -> (r: bool)
    ensures
        r == valid_iri(s@),
{
    let v = chars_of(s);
    let mut i: usize = 0;
    while i < v.len()
        invariant
            i <= v.len(),
            v@ == s@,
            forall|j: int| 0 <= j < i ==> iri_char(#[trigger] v@[j]),
        decreases v.len() - i,
    {
        if !is_iri_char_exec(v[i]) {
            return false;
        }
        i = i + 1;
    }
    true
}

/// Two texts may be joined into an IRI exactly when each may stand in one.
proof fn lemma_valid_iri_concat(a: Seq<char>, b: Seq<char>)
    ensures
        valid_iri(a + b) <==> (valid_iri(a) && valid_iri(b)),
{
    if valid_iri(a + b) {
        assert forall|i: int| 0 <= i < a.len() implies iri_char(#[trigger] a[i]) by {
            assert((a + b)[i] == a[i]);
        }
        assert forall|i: int| 0 <= i < b.len() implies iri_char(#[trigger] b[i]) by {
            assert((a + b)[a.len() + i] == b[i]);
        }
    }
}

impl<T: TermData, U: TermData> PartialEq<Iri<U>> for Iri<T> {
    fn eq(&self, other: &Iri<U>) -> (r: bool) {
        self.same_value(other)
    }
}

impl<T: TermData, U: TermData> vstd::std_specs::cmp::PartialEqSpecImpl<Iri<U>> for Iri<T> {
    open spec fn obeys_eq_spec() -> bool {
        true
    }

    open spec fn eq_spec(&self, other: &Iri<U>) -> bool {
        self.value() == other.value()
    }
}

} // verus!
