//! Escaping of quoted strings in the NTriples syntax.
use crate::text::{push_char, push_str};
use vstd::prelude::*;
use vstd::utf8::{
    char_u32_cast, encode_scalar, encode_utf8, encode_utf8_decode_utf8, encode_utf8_first_scalar,
    encode_utf8_valid_utf8, is_char_boundary_iff_is_leading_byte, length_of_first_scalar,
};

verus! {

/// Whether `c` is written escaped inside a quoted string.
pub open spec fn needs_escape(c: char) -> bool {
    c == '\n' || c == '\r' || c == '"' || c == '\\'
}

/// The escape sequence written for `c` inside a quoted string.
pub open spec fn escape_char(c: char) -> Seq<char> {
    if c == '\n' {
        seq!['\\', 'n']
    } else if c == '\r' {
        seq!['\\', 'r']
    } else if c == '"' {
        seq!['\\', '"']
    } else if c == '\\' {
        seq!['\\', '\\']
    } else {
        seq![c]
    }
}

/// `s` with newline, carriage return, double quote and backslash escaped;
/// every other character is kept.
pub open spec fn escaped(s: Seq<char>) -> Seq<char>
    decreases s.len(),
{
    if s.len() == 0 {
        Seq::empty()
    } else {
        escape_char(s[0]) + escaped(s.drop_first())
    }
}

/// The character that `\` followed by `c` stands for.
pub open spec fn unescape_char(c: char) -> char {
    if c == 'n' {
        '\n'
    } else if c == 'r' {
        '\r'
    } else {
        c
    }
}

/// Reads escape sequences back: `\` and the next character become one.
pub open spec fn unescaped(s: Seq<char>) -> Seq<char>
    decreases s.len(),
{
    if s.len() == 0 {
        Seq::empty()
    } else if s[0] == '\\' && s.len() >= 2 {
        seq![unescape_char(s[1])] + unescaped(s.skip(2))
    } else {
        seq![s[0]] + unescaped(s.drop_first())
    }
}

/// The escape sequence written for byte `b` inside a quoted string.
pub open spec fn escape_byte(b: u8) -> Seq<u8> {
    if b == 10 {
        seq![92u8, 110u8]
    } else if b == 13 {
        seq![92u8, 114u8]
    } else if b == 34 {
        seq![92u8, 34u8]
    } else if b == 92 {
        seq![92u8, 92u8]
    } else {
        seq![b]
    }
}

/// `s` with the bytes of newline, carriage return, double quote and
/// backslash escaped.
pub open spec fn escaped_bytes(s: Seq<u8>) -> Seq<u8>
    decreases s.len(),
{
    if s.len() == 0 {
        Seq::empty()
    } else {
        escape_byte(s[0]) + escaped_bytes(s.drop_first())
    }
}

/// Escaping a concatenation escapes each part.
pub proof fn lemma_escaped_concat(a: Seq<char>, b: Seq<char>)
    ensures
        escaped(a + b) == escaped(a) + escaped(b),
    decreases a.len(),
{
    if a.len() == 0 {
        assert(a + b =~= b);
    } else {
        assert((a + b).drop_first() =~= a.drop_first() + b);
        lemma_escaped_concat(a.drop_first(), b);
        assert(escaped(a + b) =~= escaped(a) + escaped(b));
    }
}

/// Escaping a concatenation of bytes escapes each part.
pub proof fn lemma_escaped_bytes_concat(a: Seq<u8>, b: Seq<u8>)
    ensures
        escaped_bytes(a + b) == escaped_bytes(a) + escaped_bytes(b),
    decreases a.len(),
{
    if a.len() == 0 {
        assert(a + b =~= b);
    } else {
        assert((a + b).drop_first() =~= a.drop_first() + b);
        lemma_escaped_bytes_concat(a.drop_first(), b);
        assert(escaped_bytes(a + b) =~= escaped_bytes(a) + escaped_bytes(b));
    }
}

/// Reading the escape sequences of an escaped text back gives the text.
pub proof fn lemma_unescape_escaped(t: Seq<char>)
    ensures
        unescaped(escaped(t)) == t,
    decreases t.len(),
{
    if t.len() == 0 {
    } else {
        let e = escaped(t);
        let rest = escaped(t.drop_first());
        lemma_unescape_escaped(t.drop_first());
        if needs_escape(t[0]) {
            assert(e.skip(2) =~= rest);
            assert(e[0] == '\\');
            assert(unescape_char(e[1]) == t[0]);
        } else {
            assert(e.drop_first() =~= rest);
        }
        assert(unescaped(e) =~= t);
    }
}

/// The UTF-8 encoding of a concatenation is the concatenation of the
/// encodings.
pub proof fn lemma_encode_concat(a: Seq<char>, b: Seq<char>)
    ensures
        encode_utf8(a + b) == encode_utf8(a) + encode_utf8(b),
    decreases a.len(),
{
    if a.len() == 0 {
        assert(a + b =~= b);
    } else {
        assert((a + b).drop_first() =~= a.drop_first() + b);
        assert((a + b)[0] == a[0]);
        lemma_encode_concat(a.drop_first(), b);
        assert(encode_utf8(a + b) =~= encode_utf8(a) + encode_utf8(b));
    }
}

/// The UTF-8 encoding of one character.
pub proof fn lemma_encode_one(c: char)
    ensures
        encode_utf8(seq![c]) == encode_scalar(c as u32),
{
    assert(seq![c].drop_first() =~= Seq::<char>::empty());
    assert(encode_utf8(seq![c].drop_first()) == Seq::<u8>::empty());
    assert(seq![c][0] == c);
    assert(encode_scalar(c as u32) + Seq::<u8>::empty() =~= encode_scalar(c as u32));
}

/// The UTF-8 encoding of one ASCII character is its code.
pub proof fn lemma_encode_ascii(c: char)
    requires
        (c as u32) <= 0x7F,
    ensures
        encode_utf8(seq![c]) == seq![(c as u32) as u8],
{
    lemma_encode_one(c);
    lemma_ascii_byte(c as u32);
}

/// Bytes of `0x80` and above are never escaped.
proof fn lemma_high_bytes_unescaped(s: Seq<u8>)
    requires
        forall|i: int| 0 <= i < s.len() ==> #[trigger] s[i] >= 0x80,
    ensures
        escaped_bytes(s) == s,
    decreases s.len(),
{
    if s.len() > 0 {
        lemma_high_bytes_unescaped(s.drop_first());
        assert(escaped_bytes(s) =~= s);
    }
}

/// Every byte of the UTF-8 encoding of a character outside ASCII is `0x80`
/// or above.
proof fn lemma_non_ascii_bytes_high(v: u32)
    requires
        v >= 0x80,
    ensures
        forall|i: int| 0 <= i < encode_scalar(v).len() ==> #[trigger] encode_scalar(v)[i] >= 0x80,
{
    let a = ((v >> 6) & 0x1F) as u8;
    let b = ((v >> 12) & 0x0F) as u8;
    let c = ((v >> 18) & 0x7) as u8;
    let d = (v & 0x3F) as u8;
    let e = ((v >> 6) & 0x3F) as u8;
    let f = ((v >> 12) & 0x3F) as u8;
    assert(0xC0u8 | a >= 0x80) by (bit_vector);
    assert(0xE0u8 | b >= 0x80) by (bit_vector);
    assert(0xF0u8 | c >= 0x80) by (bit_vector);
    assert(0x80u8 | d >= 0x80) by (bit_vector);
    assert(0x80u8 | e >= 0x80) by (bit_vector);
    assert(0x80u8 | f >= 0x80) by (bit_vector);
}

/// The one byte of the UTF-8 encoding of an ASCII character is its code.
proof fn lemma_ascii_byte(v: u32)
    requires
        v <= 0x7F,
    ensures
        encode_scalar(v) == seq![v as u8],
{
    assert(v & 0x7F == v) by (bit_vector)
        requires
            v <= 0x7F,
    ;
}

/// Escaping a character and encoding the result gives the bytes that
/// escaping its encoding gives.
proof fn lemma_escape_char_bytes(c: char)
    ensures
        encode_utf8(escape_char(c)) == escaped_bytes(encode_scalar(c as u32)),
{
    let v = c as u32;
    if v <= 0x7F {
        lemma_ascii_byte(v);
        let b = v as u8;
        assert(seq![b].drop_first() =~= Seq::<u8>::empty());
        assert(escaped_bytes(seq![b].drop_first()) == Seq::<u8>::empty());
        assert(seq![b][0] == b);
        assert(escaped_bytes(seq![b]) =~= escape_byte(b));
        if needs_escape(c) {
            let x = escape_char(c)[1];
            assert(escape_char(c) =~= seq!['\\'] + seq![x]);
            lemma_encode_concat(seq!['\\'], seq![x]);
            lemma_encode_one('\\');
            lemma_encode_one(x);
            lemma_ascii_byte('\\' as u32);
            lemma_ascii_byte(x as u32);
            assert(encode_utf8(escape_char(c)) =~= escape_byte(b));
        } else {
            lemma_encode_one(c);
            assert(encode_utf8(escape_char(c)) =~= escape_byte(b));
        }
    } else {
        lemma_encode_one(c);
        lemma_non_ascii_bytes_high(v);
        lemma_high_bytes_unescaped(encode_scalar(v));
    }
}

/// Escaping text and then encoding it in UTF-8 gives the same bytes as
/// encoding it and then escaping its bytes: the two writers agree.
pub proof fn lemma_escape_commutes_with_encoding(s: Seq<char>)
    ensures
        encode_utf8(escaped(s)) == escaped_bytes(encode_utf8(s)),
    decreases s.len(),
{
    if s.len() > 0 {
        lemma_escape_commutes_with_encoding(s.drop_first());
        lemma_encode_concat(escape_char(s[0]), escaped(s.drop_first()));
        lemma_escaped_bytes_concat(encode_scalar(s[0] as u32), encode_utf8(s.drop_first()));
        lemma_escape_char_bytes(s[0]);
    }
}

fn write_escaped_char(w: &mut String, c: char)
    ensures
        final(w)@ == old(w)@ + escape_char(c),
{
    if c == '\n' {
        push_char(w, '\\');
        push_char(w, 'n');
    } else if c == '\r' {
        push_char(w, '\\');
        push_char(w, 'r');
    } else if c == '"' {
        push_char(w, '\\');
        push_char(w, '"');
    } else if c == '\\' {
        push_char(w, '\\');
        push_char(w, '\\');
    } else {
        push_char(w, c);
    }
    assert(final(w)@ =~= old(w)@ + escape_char(c));
}

/// A text whose UTF-8 bytes hold no byte to escape is written as it is.
proof fn lemma_plain_run(s: Seq<char>)
    requires
        forall|i: int|
            0 <= i < encode_utf8(s).len() ==> !needs_escape_byte(#[trigger] encode_utf8(s)[i]),
    ensures
        escaped(s) == s,
{
    lemma_plain_run_bytes(encode_utf8(s));
    lemma_escape_commutes_with_encoding(s);
    encode_utf8_decode_utf8(escaped(s));
    encode_utf8_decode_utf8(s);
}

/// Where the UTF-8 encoding of `s` starts with an ASCII byte, that byte is
/// the code of the first character, and the rest encodes the other
/// characters.
proof fn lemma_ascii_first(s: Seq<char>)
    requires
        encode_utf8(s).len() > 0,
        encode_utf8(s)[0] <= 0x7F,
    ensures
        s.len() > 0,
        s[0] as u32 == encode_utf8(s)[0] as u32,
        encode_utf8(s.drop_first()) == encode_utf8(s).drop_first(),
        length_of_first_scalar(encode_utf8(s)) == 1,
{
    let v = s[0] as u32;
    if v >= 0x80 {
        lemma_non_ascii_bytes_high(v);
        assert(encode_utf8(s)[0] == encode_scalar(v)[0]);
    }
    lemma_ascii_byte(v);
    encode_utf8_first_scalar(s);
    assert(encode_utf8(s).drop_first() =~= encode_utf8(s.drop_first()));
}

/// Appends `txt` to `w` with newline, carriage return, double quote and
/// backslash escaped; every other character is written as it is. Each run of
/// characters up to the next one to escape is appended in one step.
pub fn fmt_quoted_string(w: &mut String, txt: &str)
    ensures
        final(w)@ == old(w)@ + escaped(txt@),
{
    broadcast use encode_utf8_decode_utf8, encode_utf8_valid_utf8;

    let ghost start = w@;
    let ghost mut done: Seq<char> = Seq::empty();
    let mut rest: &str = txt;
    loop
        invariant_except_break
            w@ == start + escaped(done),
        invariant
            txt@ == done + rest@,
        ensures
            w@ == start + escaped(txt@),
        decreases rest@.len(),
    {
        let bytes = rest.as_bytes();
        let cut = next_escape(bytes, 0);
        if cut == bytes.len() {
            proof {
                assert(bytes@ == encode_utf8(rest@));
                lemma_plain_run(rest@);
                lemma_escaped_concat(done, rest@);
            }
            push_str(w, rest);
            break;
        }
        proof {
            assert(bytes@ == encode_utf8(rest@));
            encode_utf8_valid_utf8(rest@);
            is_char_boundary_iff_is_leading_byte(bytes@, cut as int);
        }
        let (pre, tail) = rest.split_at(cut);
        let b = bytes[cut];
        proof {
            assert(encode_utf8(pre@) =~= bytes@.take(cut as int));
            assert(encode_utf8(tail@) =~= bytes@.skip(cut as int));
            lemma_encode_concat(pre@, tail@);
            assert(encode_utf8(pre@ + tail@) =~= bytes@);
            encode_utf8_decode_utf8(pre@ + tail@);
            encode_utf8_decode_utf8(rest@);
            assert(rest@ == pre@ + tail@);
            lemma_plain_run(pre@);
            lemma_ascii_first(tail@);
            assert(encode_utf8(tail@)[0] == b);
            char_u32_cast(tail@[0], b as u32);
            encode_utf8_valid_utf8(tail@);
            reveal_with_fuel(vstd::utf8::is_char_boundary, 2);
            assert(vstd::utf8::is_char_boundary(encode_utf8(tail@), 1));
        }
        let c = b as char;
        push_str(w, pre);
        write_escaped_char(w, c);
        let (_, next) = tail.split_at(1);
        proof {
            assert(tail@[0] == c);
            assert(encode_utf8(next@) =~= encode_utf8(tail@).skip(1));
            assert(encode_utf8(tail@).skip(1) =~= encode_utf8(tail@.drop_first()));
            encode_utf8_decode_utf8(next@);
            encode_utf8_decode_utf8(tail@.drop_first());
            assert(next@ == tail@.drop_first());
            assert(tail@ =~= seq![c] + next@);
            lemma_escaped_concat(done, pre@);
            lemma_escaped_concat(done + pre@, seq![c]);
            assert(escaped(seq![c]) =~= escape_char(c)) by {
                assert(seq![c].drop_first() =~= Seq::<char>::empty());
                assert(escaped(seq![c].drop_first()) == Seq::<char>::empty());
                assert(seq![c][0] == c);
            }
            done = done + pre@ + seq![c];
            assert(txt@ =~= done + next@);
        }
        rest = next;
    }
}

fn write_escaped_byte(w: &mut Vec<u8>, b: u8)
    ensures
        final(w)@ == old(w)@ + escape_byte(b),
{
    if b == 10u8 {
        w.push(92u8);
        w.push(110u8);
    } else if b == 13u8 {
        w.push(92u8);
        w.push(114u8);
    } else if b == 34u8 {
        w.push(92u8);
        w.push(34u8);
    } else if b == 92u8 {
        w.push(92u8);
        w.push(92u8);
    } else {
        w.push(b);
    }
    assert(final(w)@ =~= old(w)@ + escape_byte(b));
}

/// Whether byte `b` is written escaped inside a quoted string.
pub open spec fn needs_escape_byte(b: u8) -> bool {
    b == 10 || b == 13 || b == 34 || b == 92
}

/// A run of bytes none of which is escaped is written as it is.
proof fn lemma_plain_run_bytes(s: Seq<u8>)
    requires
        forall|i: int| 0 <= i < s.len() ==> !needs_escape_byte(#[trigger] s[i]),
    ensures
        escaped_bytes(s) == s,
    decreases s.len(),
{
    if s.len() > 0 {
        lemma_plain_run_bytes(s.drop_first());
        assert(escaped_bytes(s) =~= s);
    }
}

/// The first position at or after `from` of a byte that is escaped, or the
/// length of `b` where there is none.
fn next_escape(b: &[u8], from: usize) -> (r: usize)
    requires
        from <= b.len(),
    ensures
        from <= r <= b.len(),
        forall|i: int| from <= i < r ==> !needs_escape_byte(#[trigger] b@[i]),
        r < b.len() ==> needs_escape_byte(b@[r as int]),
{
    let mut i = from;
    while i < b.len()
        invariant
            from <= i <= b.len(),
            forall|j: int| from <= j < i ==> !needs_escape_byte(#[trigger] b@[j]),
        decreases b.len() - i,
    {
        let c = b[i];
        if c == 10u8 || c == 13u8 || c == 34u8 || c == 92u8 {
            return i;
        }
        i = i + 1;
    }
    i
}

/// Appends the bytes `txt` to `w` with the bytes of newline, carriage
/// return, double quote and backslash escaped. Each run of bytes up to the
/// next one to escape is appended in one step.
pub fn io_quoted_string(w: &mut Vec<u8>, txt: &[u8])
    ensures
        final(w)@ == old(w)@ + escaped_bytes(txt@),
{
    let ghost start = w@;
    let mut i: usize = 0;
    while i < txt.len()
        invariant
            i <= txt.len(),
            w@ == start + escaped_bytes(txt@.take(i as int)),
        decreases txt.len() - i,
    {
        let cut = next_escape(txt, i);
        let run = vstd::slice::slice_subrange(txt, i, cut);
        let ghost before = w@;
        w.extend_from_slice(run);
        proof {
            assert(w@ =~= before + run@) by {
                assert forall|k: int| 0 <= k < w@.len() implies w@[k] == (before + run@)[k] by {
                    if k >= before.len() {
                        assert(cloned::<u8>(run@[k - before.len()], w@[k]));
                    }
                }
            }
            lemma_plain_run_bytes(run@);
            assert(txt@.take(cut as int) =~= txt@.take(i as int) + run@);
            lemma_escaped_bytes_concat(txt@.take(i as int), run@);
        }
        if cut < txt.len() {
            let b = txt[cut];
            write_escaped_byte(w, b);
            proof {
                assert(txt@.take(cut as int + 1) =~= txt@.take(cut as int) + seq![b]);
                lemma_escaped_bytes_concat(txt@.take(cut as int), seq![b]);
                assert(escaped_bytes(seq![b]) =~= escape_byte(b)) by {
                    assert(seq![b].drop_first() =~= Seq::<u8>::empty());
                    assert(escaped_bytes(seq![b].drop_first()) == Seq::<u8>::empty());
                    assert(seq![b][0] == b);
                }
            }
            i = cut + 1;
        } else {
            i = cut;
        }
    }
    assert(txt@.take(i as int) =~= txt@);
}

} // verus!
