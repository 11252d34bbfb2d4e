//! Text storage that a literal can be generic over.
use std::sync::Arc;
use vstd::prelude::*;

verus! {

/// A type that holds text and exposes it as a borrowed `&str`.
pub trait TermData: Sized {
    /// The characters held.
    spec fn text(&self) -> Seq<char>;

    /// Borrows the held text.
    fn as_str(&self) -> (r: &str)
        ensures
            r@ == self.text(),
    ;
}

/// A text storage that can be built from a borrowed string slice.
pub trait FromBorrowed<'a>: TermData {
    /// Whether every value built by `from_borrowed` borrows its text.
    spec fn zero_copy() -> bool;

    /// Whether this value borrows its text rather than owning a copy.
    spec fn is_borrowed(&self) -> bool;

    /// Builds a value holding exactly the characters of `s`, borrowing them
    /// where the storage is zero-copy.
    fn from_borrowed(s: &'a str) -> (r: Self)
        ensures
            r.text() == s@,
            Self::zero_copy() ==> r.is_borrowed(),
    ;
}

/// Text that is either borrowed or owned, decided at run time.
#[derive(Clone, Debug)]
pub enum MownStr<'a> {
    Ref(&'a str),
    Own(String),
}

impl<'a> TermData for MownStr<'a> {
    open spec fn text(&self) -> Seq<char> {
        match self {
            MownStr::Ref(s) => s@,
            MownStr::Own(s) => s@,
        }
    }

    fn as_str(&self) -> (r: &str) {
        match self {
            MownStr::Ref(s) => s,
            MownStr::Own(s) => s.as_str(),
        }
    }
}

impl<'a> FromBorrowed<'a> for MownStr<'a> {
    open spec fn zero_copy() -> bool {
        true
    }

    open spec fn is_borrowed(&self) -> bool {
        self is Ref
    }

    fn from_borrowed(s: &'a str) -> (r: Self) {
        MownStr::Ref(s)
    }
}

impl<'a> TermData for &'a str {
    open spec fn text(&self) -> Seq<char> {
        (*self)@
    }

    fn as_str(&self) -> (r: &str) {
        *self
    }
}

impl<'a> FromBorrowed<'a> for &'a str {
    open spec fn zero_copy() -> bool {
        true
    }

    open spec fn is_borrowed(&self) -> bool {
        true
    }

    fn from_borrowed(s: &'a str) -> (r: Self) {
        s
    }
}

impl<'a, T: TermData> TermData for &'a T {
    open spec fn text(&self) -> Seq<char> {
        (**self).text()
    }

    fn as_str(&self) -> (r: &str) {
        (**self).as_str()
    }
}

impl TermData for String {
    open spec fn text(&self) -> Seq<char> {
        self@
    }

    fn as_str(&self) -> (r: &str) {
        self.as_str()
    }
}

impl<'a> FromBorrowed<'a> for String {
    open spec fn zero_copy() -> bool {
        false
    }

    open spec fn is_borrowed(&self) -> bool {
        false
    }

    fn from_borrowed(s: &'a str) -> (r: Self) {
        s.to_owned()
    }
}

impl TermData for Box<str> {
    open spec fn text(&self) -> Seq<char> {
        (**self)@
    }

    fn as_str(&self) -> (r: &str) {
        &**self
    }
}

impl TermData for Arc<str> {
    open spec fn text(&self) -> Seq<char> {
        (**self)@
    }

    fn as_str(&self) -> (r: &str) {
        &**self
    }
}

impl<'a> FromBorrowed<'a> for Box<str> {
    open spec fn zero_copy() -> bool {
        false
    }

    open spec fn is_borrowed(&self) -> bool {
        false
    }

    fn from_borrowed(s: &'a str) -> (r: Self) {
        box_from_str(s)
    }
}

impl<'a> FromBorrowed<'a> for Arc<str> {
    open spec fn zero_copy() -> bool {
        false
    }

    open spec fn is_borrowed(&self) -> bool {
        false
    }

    fn from_borrowed(s: &'a str) -> (r: Self) {
        arc_from_str(s)
    }
}

/// Relies on `From<&str> for Box<str>`: copies the characters.
#[verifier::external_body]
fn box_from_str(s: &str) -> (r: Box<str>)
    ensures
        (*r)@ == s@,
{
    Box::from(s)
}

/// Relies on `From<&str> for Arc<str>`: copies the characters.
#[verifier::external_body]
fn arc_from_str(s: &str) -> (r: Arc<str>)
    ensures
        (*r)@ == s@,
{
    Arc::from(s)
}

/// Relies on `String::into_boxed_str`: keeps the characters.
#[verifier::external_body]
fn string_into_box(s: String) -> (r: Box<str>)
    ensures
        (*r)@ == s@,
{
    s.into_boxed_str()
}

/// Relies on `str::into_string` on a boxed slice: keeps the characters.
#[verifier::external_body]
fn box_into_string(s: Box<str>) -> (r: String)
    ensures
        r@ == (*s)@,
{
    s.into_string()
}

/// Relies on `From<String> for Arc<str>`: keeps the characters.
#[verifier::external_body]
fn string_into_arc(s: String) -> (r: Arc<str>)
    ensures
        (*r)@ == s@,
{
    Arc::from(s)
}

/// A conversion between text storages that keeps the characters.
pub trait ConvertInto<T: TermData>: TermData {
    /// Converts `self`, reusing its allocation where the target allows it.
    fn convert_into(self) -> (r: T)
        ensures
            r.text() == self.text(),
    ;
}

impl<'a, T: FromBorrowed<'a>> ConvertInto<T> for &'a str {
    fn convert_into(self) -> (r: T) {
        T::from_borrowed(self)
    }
}

impl ConvertInto<String> for String {
    fn convert_into(self) -> (r: String) {
        self
    }
}

impl ConvertInto<Box<str>> for String {
    fn convert_into(self) -> (r: Box<str>) {
        string_into_box(self)
    }
}

impl ConvertInto<Arc<str>> for String {
    fn convert_into(self) -> (r: Arc<str>) {
        string_into_arc(self)
    }
}

impl<'a> ConvertInto<MownStr<'a>> for String {
    fn convert_into(self) -> (r: MownStr<'a>) {
        MownStr::Own(self)
    }
}

impl ConvertInto<Box<str>> for Box<str> {
    fn convert_into(self) -> (r: Box<str>) {
        self
    }
}

impl ConvertInto<String> for Box<str> {
    fn convert_into(self) -> (r: String) {
        box_into_string(self)
    }
}

impl<'a> ConvertInto<MownStr<'a>> for MownStr<'a> {
    fn convert_into(self) -> (r: MownStr<'a>) {
        self
    }
}

} // verus!
