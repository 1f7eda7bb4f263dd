//! JSON string literals, for text placed into script source.

use vstd::prelude::*;
use vstd::string::StringExecFns;
use crate::text::hex_digit;

verus! {

/// `serde_json`'s error type.
#[verifier::external_type_specification]
#[verifier::external_body]
pub struct ExJsonError(serde_json::Error);

/// How one character appears inside a JSON string: a quote or a backslash
/// behind a backslash, the control characters with a short escape as such,
/// the other control characters as `\u00XX` with lower-case hex, and every
/// other character as itself.
pub open spec fn json_char_escape(c: char) -> Seq<char> {
    let u = c as u32;
    if c == '"' {
        seq!['\\', '"']
    } else if c == '\\' {
        seq!['\\', '\\']
    } else if u == 0x08 {
        seq!['\\', 'b']
    } else if u == 0x09 {
        seq!['\\', 't']
    } else if u == 0x0A {
        seq!['\\', 'n']
    } else if u == 0x0C {
        seq!['\\', 'f']
    } else if u == 0x0D {
        seq!['\\', 'r']
    } else if u < 0x20 {
        seq!['\\', 'u', '0', '0', hex_digit((u / 16) as nat), hex_digit((u % 16) as nat)]
    } else {
        seq![c]
    }
}

/// The escaped characters of a string, in order.
pub open spec fn json_escape(s: Seq<char>) -> Seq<char>
    decreases s.len(),
{
    if s.len() == 0 {
        Seq::empty()
    } else {
        json_escape(s.drop_last()) + json_char_escape(s.last())
    }
}

/// The JSON string literal `serde_json` writes for `s`: its escaped
/// characters between double quotes.
pub open spec fn json_literal(s: Seq<char>) -> Seq<char> {
    seq!['"'] + json_escape(s) + seq!['"']
}

/// `serde_json::to_string` on a string slice. Trusted: the result is `Ok`,
/// and its text is `json_literal(s)`, as the crate's string writer and its
/// escape table produce it. Serialising a `str` writes into a `Vec<u8>`, a
/// writer that never fails, so no error can arise on this path.
#[verifier::external_body]
fn to_json_string(s: &str) -> (res: Result<String, serde_json::Error>)
    ensures
        res is Ok,
        res matches Ok(out) ==> out@ == json_literal(s@),
{
    serde_json::to_string(s)
}

/// `s` as a JSON string literal; `fallback` should serialisation fail.
pub fn json_or(s: &str, fallback: &str) -> (res: String)
    ensures
        res@ == json_literal(s@),
{
    match to_json_string(s) {
        Ok(out) => out,
        Err(_) => String::from_str(fallback),
    }
}

/// A hexadecimal digit, in either case.
pub open spec fn is_hex_char(c: char) -> bool {
    ('0' <= c <= '9') || ('a' <= c <= 'f') || ('A' <= c <= 'F')
}

/// `t` is the inside of a JSON string (RFC 8259): no bare quote, backslash
/// or control character, only complete escapes.
pub open spec fn json_body(t: Seq<char>) -> bool
    decreases t.len(),
{
    if t.len() == 0 {
        true
    } else if t[0] == '"' || (t[0] as u32) < 0x20 {
        false
    } else if t[0] == '\\' {
        if t.len() >= 2 && (t[1] == '"' || t[1] == '\\' || t[1] == '/' || t[1] == 'b' || t[1]
            == 'f' || t[1] == 'n' || t[1] == 'r' || t[1] == 't') {
            json_body(t.subrange(2, t.len() as int))
        } else if t.len() >= 6 && t[1] == 'u' && is_hex_char(t[2]) && is_hex_char(t[3])
            && is_hex_char(t[4]) && is_hex_char(t[5]) {
            json_body(t.subrange(6, t.len() as int))
        } else {
            false
        }
    } else {
        json_body(t.drop_first())
    }
}

/// Two string insides in a row make one.
pub proof fn lemma_json_body_concat(a: Seq<char>, b: Seq<char>)
    requires
        json_body(a),
        json_body(b),
    ensures
        json_body(a + b),
    decreases a.len(),
{
    if a.len() == 0 {
        assert(a + b =~= b);
    } else {
        let ab = a + b;
        assert(ab[0] == a[0]);
        if a[0] == '\\' {
            if a.len() >= 2 && (a[1] == '"' || a[1] == '\\' || a[1] == '/' || a[1] == 'b' || a[1]
                == 'f' || a[1] == 'n' || a[1] == 'r' || a[1] == 't') {
                assert(ab[1] == a[1]);
                lemma_json_body_concat(a.subrange(2, a.len() as int), b);
                assert(ab.subrange(2, ab.len() as int) =~= a.subrange(2, a.len() as int) + b);
            } else {
                assert(ab[1] == a[1] && ab[2] == a[2] && ab[3] == a[3] && ab[4] == a[4] && ab[5]
                    == a[5]);
                lemma_json_body_concat(a.subrange(6, a.len() as int), b);
                assert(ab.subrange(6, ab.len() as int) =~= a.subrange(6, a.len() as int) + b);
            }
        } else {
            lemma_json_body_concat(a.drop_first(), b);
            assert(ab.drop_first() =~= a.drop_first() + b);
        }
    }
}

/// Each escaped character is a string inside on its own.
pub proof fn lemma_json_char_escape_body(c: char)
    ensures
        json_body(json_char_escape(c)),
{
    let e = json_char_escape(c);
    let u = c as u32;
    let none = Seq::<char>::empty();
    assert(json_body(none));
    if c == '"' || c == '\\' || u == 0x08 || u == 0x09 || u == 0x0A || u == 0x0C || u == 0x0D {
        assert(e.subrange(2, e.len() as int) =~= none);
    } else if u < 0x20 {
        assert(is_hex_char(hex_digit((u / 16) as nat)));
        assert(is_hex_char(hex_digit((u % 16) as nat)));
        assert(e.subrange(6, e.len() as int) =~= none);
    } else {
        assert(e.drop_first() =~= none);
    }
}

/// Escaped text is a string inside.
pub proof fn lemma_json_escape_body(s: Seq<char>)
    ensures
        json_body(json_escape(s)),
    decreases s.len(),
{
    if s.len() > 0 {
        lemma_json_escape_body(s.drop_last());
        lemma_json_char_escape_body(s.last());
        lemma_json_body_concat(json_escape(s.drop_last()), json_char_escape(s.last()));
    }
}

/// Whatever `s` holds, its literal opens and closes with a quote and what
/// lies between is a complete string inside: a reader of the script that
/// starts at the opening quote ends the string exactly at the closing one,
/// so no quote, backslash or line break in `s` can end it early.
pub proof fn json_literal_stays_closed(s: Seq<char>)
    ensures
        json_literal(s).len() >= 2,
        json_literal(s)[0] == '"',
        json_literal(s).last() == '"',
        json_body(json_literal(s).subrange(1, json_literal(s).len() - 1)),
{
    lemma_json_escape_body(s);
    assert(json_literal(s).subrange(1, json_literal(s).len() - 1) =~= json_escape(s));
}

/// The value of a hexadecimal digit.
pub open spec fn hex_value(c: char) -> nat {
    let u = c as u32;
    if '0' <= c <= '9' {
        (u - 48) as nat
    } else if 'a' <= c <= 'f' {
        (u - 87) as nat
    } else {
        (u - 55) as nat
    }
}

/// The character a JSON short escape `\x` stands for.
pub open spec fn short_escape_char(x: char) -> char {
    if x == 'b' {
        0x08u8 as char
    } else if x == 'f' {
        0x0Cu8 as char
    } else if x == 'n' {
        0x0Au8 as char
    } else if x == 'r' {
        0x0Du8 as char
    } else if x == 't' {
        0x09u8 as char
    } else {
        x
    }
}

/// The text a JSON string inside stands for, as a JSON reader decodes it
/// (`\uXXXX` below the surrogate range only).
pub open spec fn json_unescape(t: Seq<char>) -> Seq<char>
    decreases t.len(),
{
    if t.len() == 0 {
        Seq::empty()
    } else if t[0] == '\\' && t.len() >= 2 && t[1] != 'u' {
        seq![short_escape_char(t[1])] + json_unescape(t.subrange(2, t.len() as int))
    } else if t[0] == '\\' && t.len() >= 6 && t[1] == 'u' {
        seq![
            ((hex_value(t[2]) * 4096 + hex_value(t[3]) * 256 + hex_value(t[4]) * 16 + hex_value(
                t[5],
            )) as u32) as char,
        ] + json_unescape(t.subrange(6, t.len() as int))
    } else {
        seq![t[0]] + json_unescape(t.drop_first())
    }
}

/// Decoding two string insides in a row decodes each in turn.
proof fn lemma_json_unescape_concat(a: Seq<char>, b: Seq<char>)
    requires
        json_body(a),
    ensures
        json_unescape(a + b) == json_unescape(a) + json_unescape(b),
    decreases a.len(),
{
    let ab = a + b;
    if a.len() == 0 {
        assert(ab =~= b);
    } else {
        assert(ab[0] == a[0]);
        if a[0] == '\\' {
            assert(ab[1] == a[1]);
            if a[1] != 'u' {
                lemma_json_unescape_concat(a.subrange(2, a.len() as int), b);
                assert(ab.subrange(2, ab.len() as int) =~= a.subrange(2, a.len() as int) + b);
            } else {
                assert(ab[2] == a[2] && ab[3] == a[3] && ab[4] == a[4] && ab[5] == a[5]);
                lemma_json_unescape_concat(a.subrange(6, a.len() as int), b);
                assert(ab.subrange(6, ab.len() as int) =~= a.subrange(6, a.len() as int) + b);
            }
        } else {
            lemma_json_unescape_concat(a.drop_first(), b);
            assert(ab.drop_first() =~= a.drop_first() + b);
        }
    }
}

/// Each escaped character decodes to itself.
proof fn lemma_json_char_escape_decodes(c: char)
    ensures
        json_unescape(json_char_escape(c)) == seq![c],
{
    let e = json_char_escape(c);
    let u = c as u32;
    let none = Seq::<char>::empty();
    assert(json_unescape(none) == none);
    if c == '"' || c == '\\' || u == 0x08 || u == 0x09 || u == 0x0A || u == 0x0C || u == 0x0D {
        assert(e.subrange(2, e.len() as int) =~= none);
        assert(json_unescape(e) =~= seq![short_escape_char(e[1])] + none);
    } else if u < 0x20 {
        let hi = (u / 16) as nat;
        let lo = (u % 16) as nat;
        assert(hex_value(hex_digit(hi)) == hi);
        assert(hex_value(hex_digit(lo)) == lo);
        assert(hex_value('0') == 0);
        assert(e.subrange(6, e.len() as int) =~= none);
        assert(hi * 16 + lo == u);
        assert((u as u32) as char == c);
    } else {
        assert(e.drop_first() =~= none);
    }
}

/// A JSON reader gets back exactly the text that was escaped.
pub proof fn json_escape_decodes_back(s: Seq<char>)
    ensures
        json_unescape(json_escape(s)) == s,
    decreases s.len(),
{
    if s.len() > 0 {
        json_escape_decodes_back(s.drop_last());
        lemma_json_escape_body(s.drop_last());
        lemma_json_unescape_concat(json_escape(s.drop_last()), json_char_escape(s.last()));
        lemma_json_char_escape_decodes(s.last());
        assert(s =~= s.drop_last() + seq![s.last()]);
    } else {
        assert(json_escape(s) =~= Seq::<char>::empty());
    }
}

} // verus!
