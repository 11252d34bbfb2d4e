use rdf_literal::{
    rdf_lang_string, xsd_integer, xsd_string, Iri, Literal, MownStr, Normalization, Term,
    TermData, TermError,
};
use std::collections::hash_map::DefaultHasher;
use std::hash::{Hash, Hasher};
use std::sync::Arc;

fn hash_of<T: Hash>(t: &T) -> u64 {
    let mut h = DefaultHasher::new();
    t.hash(&mut h);
    h.finish()
}

fn unescape(s: &str) -> String {
    let mut out = String::new();
    let mut it = s.chars();
    while let Some(c) = it.next() {
        if c == '\\' {
            match it.next() {
                Some('n') => out.push('\n'),
                Some('r') => out.push('\r'),
                Some(other) => out.push(other),
                None => out.push('\\'),
            }
        } else {
            out.push(c);
        }
    }
    out
}

#[test]
fn convert_to_mown_does_not_allocate() {
    let lit1 = Literal::<Box<str>>::new_dt("hello", xsd_string());
    let lit2: Literal<MownStr> = lit1.clone_into();
    let txt = lit2.txt();
    assert!(!matches!(txt, MownStr::Own(_)), "txt has been allocated");
}

#[test]
fn resolve_to_mown_does_not_allocate_txt() {
    let dt1 = Iri::<Box<str>>::new("").unwrap();
    let lit1 = Literal::<Box<str>>::new_dt("hello", dt1);
    let lit2: Literal<MownStr> = lit1.normalized(Normalization::NoSuffix);
    let txt = lit2.txt();
    assert!(!matches!(txt, MownStr::Own(_)), "txt has been allocated");
}

#[test]
fn map() {
    let dt = Iri::<&str>::new_suffixed("some/iri/", "example").unwrap();
    let input = Literal::new_dt("test", dt);
    let dt2 = Iri::<&str>::new("SOME/IRI/EXAMPLE").unwrap();
    let expect = Literal::<&str>::new_dt("TEST", dt2);

    let mut cnt = 0;
    let mut invoked = 0;

    let cl = input.clone_map(|s: &str| {
        cnt += s.len();
        invoked += 1;
        s.to_ascii_uppercase()
    });
    assert_eq!(cl, expect);
    assert_eq!(cnt, "some/iri/exampletest".len());
    assert_eq!(invoked, 3);

    cnt = 0;
    invoked = 0;
    let mapped = input.map(|s: &str| {
        cnt += s.len();
        invoked += 1;
        s.to_ascii_uppercase()
    });
    assert_eq!(mapped, expect);
    assert_eq!(cnt, "some/iri/exampletest".len());
    assert_eq!(invoked, 3);

    assert_eq!(
        cl.map_into::<Box<str>>(),
        mapped.clone_into::<std::sync::Arc<str>>()
    );
}

#[test]
fn kind_is_exclusive() {
    let tagged = Literal::<&str>::new_lang("chat", "fr").unwrap();
    assert!(tagged.lang().is_some());
    assert_eq!(tagged.dt().value_chars().iter().collect::<String>(),
        "http://www.w3.org/1999/02/22-rdf-syntax-ns#langString");
    let typed = Literal::<&str>::new_dt("1", xsd_integer());
    assert!(typed.lang().is_none());
    assert_eq!(typed.dt().value_chars().iter().collect::<String>(),
        "http://www.w3.org/2001/XMLSchema#integer");
}

#[test]
fn invalid_language_tag_is_rejected() {
    let r = Literal::<&str>::new_lang("hello", "not a tag!!");
    match r {
        Err(TermError::InvalidLanguageTag { tag, .. }) => assert_eq!(tag, "not a tag!!"),
        other => panic!("unexpected {:?}", other),
    }
}

#[test]
fn valid_language_tag_is_kept() {
    let l = Literal::<&str>::new_lang("hello", "en-US").unwrap();
    assert_eq!(l.lang().map(|t| *t), Some("en-US"));
}

#[test]
fn tags_compare_ignoring_case() {
    let a = Literal::<&str>::new_lang("chat", "en").unwrap();
    let b = Literal::<String>::new_lang("chat", "EN").unwrap();
    let c = Literal::<&str>::new_lang("chat", "fr").unwrap();
    assert_eq!(a, b);
    assert_ne!(a, c);
}

#[test]
fn datatypes_compare_exactly() {
    let a = Literal::<&str>::new_dt("x", Iri::<&str>::new("http://example.org/Type").unwrap());
    let b = Literal::<&str>::new_dt("x", Iri::<&str>::new("http://example.org/type").unwrap());
    assert_ne!(a, b);
    let c = Literal::<&str>::new_dt(
        "x",
        Iri::<&str>::new_suffixed("http://example.org/", "Type").unwrap(),
    );
    assert_eq!(a, c);
}

#[test]
fn text_compares_exactly() {
    let a = Literal::<&str>::new_dt("x", xsd_string());
    let b = Literal::<&str>::new_dt("X", xsd_string());
    assert_ne!(a, b);
    let tagged = Literal::<&str>::new_lang("x", "en").unwrap();
    assert_ne!(a, tagged);
    assert!(a.eq_txt(tagged));
    assert!(!a.eq_txt(b));
}

#[test]
fn borrowed_clone_does_not_allocate() {
    let lit = Literal::<&str>::new_lang("hello", "en").unwrap();
    let m: Literal<MownStr> = lit.clone_into();
    assert!(matches!(m.txt(), MownStr::Ref(_)));
    assert!(matches!(m.lang(), Some(MownStr::Ref(_))));
    assert!(matches!(lit.value(), MownStr::Ref("hello")));
}

#[test]
fn escaping_round_trip() {
    let text = "a\"b\\c\nd\re\\\\\"\"\n";
    let lit = Literal::<&str>::new_dt(text, xsd_string());
    let out = lit.to_ntriples();
    assert!(out.starts_with('"') && out.ends_with('"'));
    let inner = &out[1..out.len() - 1];
    assert!(!inner.contains('\n') && !inner.contains('\r'));
    assert_eq!(unescape(inner), text);
}

#[test]
fn plain_string_has_no_datatype_suffix() {
    let lit = Literal::<&str>::new_dt("hello", xsd_string());
    assert_eq!(lit.to_ntriples(), "\"hello\"");
}

#[test]
fn other_datatype_is_written() {
    let lit = Literal::<&str>::new_dt("hello", xsd_integer());
    assert_eq!(
        lit.to_ntriples(),
        "\"hello\"^^<http://www.w3.org/2001/XMLSchema#integer>"
    );
}

#[test]
fn language_tagged_serialization() {
    let lit = Literal::<&str>::new_lang("bonjour", "fr").unwrap();
    assert_eq!(lit.to_ntriples(), "\"bonjour\"@fr");
}

#[test]
fn equal_literals_hash_alike() {
    let a = Literal::<&str>::new_lang("chat", "en").unwrap();
    let b = Literal::<String>::new_lang("chat", "EN").unwrap();
    assert_eq!(a, b);
    assert_eq!(hash_of(&a), hash_of(&b));
    let c = Literal::<&str>::new_dt("x", Iri::<&str>::new("http://example.org/a").unwrap());
    let d = Literal::<Box<str>>::new_dt(
        "x",
        Iri::<&str>::new_suffixed("http://example.org/", "a").unwrap(),
    );
    assert_eq!(c, d);
    assert_eq!(hash_of(&c), hash_of(&d));
}

#[test]
fn empty_text() {
    let lit = Literal::<&str>::new_dt("", xsd_string());
    assert_eq!(lit.to_ntriples(), "\"\"");
}

#[test]
fn multi_escape_text() {
    let lit = Literal::<&str>::new_dt("line1\nline2\\\"quoted\"", xsd_string());
    assert_eq!(lit.to_ntriples(), r#""line1\nline2\\\"quoted\"""#);
}

#[test]
fn byte_output_matches_text_output() {
    let lits = [
        Literal::<&str>::new_dt("héllo \"wörld\"\r\n\\", xsd_string()),
        Literal::<&str>::new_dt("日本", xsd_integer()),
        Literal::<&str>::new_lang("a\\b", "de-CH").unwrap(),
    ];
    for lit in lits.iter() {
        let mut bytes = Vec::new();
        lit.write_io(&mut bytes);
        assert_eq!(bytes, lit.to_ntriples().into_bytes());
    }
}

#[test]
fn write_appends() {
    let lit = Literal::<&str>::new_lang("x", "en").unwrap();
    let mut s = String::from("pre ");
    lit.write_fmt(&mut s);
    assert_eq!(s, "pre \"x\"@en");
}

#[test]
fn absolute_datatypes() {
    let tagged = Literal::<&str>::new_lang("x", "en").unwrap();
    assert!(tagged.is_absolute());
    assert!(Literal::<&str>::new_dt("x", xsd_string()).is_absolute());
    let rel = Literal::<&str>::new_dt("x", Iri::<&str>::new("some/iri/").unwrap());
    assert!(!rel.is_absolute());
    let colon_late = Literal::<&str>::new_dt("x", Iri::<&str>::new("a/b:c").unwrap());
    assert!(!colon_late.is_absolute());
}

#[test]
fn invalid_iri_is_rejected() {
    assert_eq!(
        Iri::<&str>::new("a b").err(),
        Some(TermError::InvalidIri("a b".to_string()))
    );
    assert!(Iri::<&str>::new_suffixed("http://ex/", "a<b").is_err());
}

#[test]
fn normalization_keeps_value() {
    let dt = Iri::<&str>::new_suffixed("http://example.org/", "t").unwrap();
    let lit = Literal::<&str>::new_dt("v", dt);
    let joined = lit.normalized(Normalization::NoSuffix);
    assert_eq!(joined, lit);
    assert_eq!(joined.to_ntriples(), "\"v\"^^<http://example.org/t>");
    let kept = lit.normalized(Normalization::Unchanged);
    assert_eq!(kept, lit);
}

#[test]
fn conversions_keep_text() {
    let owned = Literal::<String>::new_lang("txt", "en").unwrap();
    let arc: Literal<Arc<str>> = owned.clone().map_into();
    assert_eq!(arc.to_ntriples(), "\"txt\"@en");
    let boxed: Literal<Box<str>> = owned.map_into();
    let back: Literal<String> = boxed.clone().map_into();
    assert_eq!(back.txt().as_str(), "txt");
    assert_eq!(boxed.as_ref_str().to_ntriples(), "\"txt\"@en");
    assert_eq!(boxed.as_ref().to_ntriples(), "\"txt\"@en");
}

#[test]
fn non_literal_term_is_refused() {
    let t: Term<&str> = Term::BNode("b1");
    match Literal::try_from_term(t) {
        Err(TermError::UnexpectedKindOfTerm { term, expect }) => {
            assert_eq!(term, "_:b1");
            assert_eq!(expect, "literal");
        }
        other => panic!("unexpected {:?}", other),
    }
    let i: Term<&str> = Term::Iri(Iri::new("http://ex/").unwrap());
    assert!(Literal::try_from_term(i).is_err());
    let lit = Literal::<&str>::new_dt("1", xsd_integer());
    assert_eq!(Literal::try_from_term(Term::Literal(lit)).unwrap(), lit);
}

#[test]
fn lang_string_datatype() {
    let l = Literal::<&str>::new_lang("x", "en").unwrap();
    assert_eq!(l.dt(), rdf_lang_string());
}

#[test]
fn literal_against_terms() {
    let lit = Literal::<&str>::new_lang("chat", "en").unwrap();
    let same: Term<String> = Term::Literal(Literal::<String>::new_lang("chat", "EN").unwrap());
    let other: Term<&str> = Term::BNode("chat");
    assert!(lit.eq_term(&same));
    assert!(!lit.eq_term(&other));
}

#[test]
fn borrowed_term_converts_to_literal() {
    let lit = Literal::<String>::new_lang("chat", "en").unwrap();
    let term: Term<String> = Term::Literal(lit.clone());
    let got: Literal<MownStr> = Literal::try_from_term_ref(&term).unwrap();
    assert_eq!(got, lit);
    assert!(matches!(got.txt(), MownStr::Ref("chat")));
    let bnode: Term<String> = Term::BNode("b".to_string());
    match Literal::<&str>::try_from_term_ref(&bnode) {
        Err(TermError::UnexpectedKindOfTerm { term, expect }) => {
            assert_eq!(term, "_:b");
            assert_eq!(expect, "literal");
        }
        other => panic!("unexpected {:?}", other),
    }
}

#[test]
fn clone_into_borrows_every_part() {
    let dt = Iri::<String>::new_suffixed("http://example.org/", "t").unwrap();
    let lit = Literal::<String>::new_dt("v", dt);
    let m: Literal<MownStr> = lit.clone_into();
    assert!(matches!(m.txt(), MownStr::Ref("v")));
    let n = m.normalized(Normalization::Unchanged);
    assert!(matches!(n.txt(), MownStr::Ref("v")));
    assert_eq!(n, lit);
}

#[test]
fn escapes_at_edges_and_in_a_row() {
    let lit = Literal::<&str>::new_dt("\"\\\n\r\"é\\", xsd_string());
    assert_eq!(lit.to_ntriples(), r#""\"\\\n\r\"é\\""#);
    let mut bytes = Vec::new();
    lit.write_io(&mut bytes);
    assert_eq!(bytes, lit.to_ntriples().into_bytes());
    let plain = Literal::<&str>::new_dt("no escapes here ü", xsd_string());
    assert_eq!(plain.to_ntriples(), "\"no escapes here ü\"");
}
