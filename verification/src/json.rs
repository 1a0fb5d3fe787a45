//! Safe string literals for the Python scripts, by way of JSON, whose
//! string syntax Python shares. Without this a Windows path would slip its
//! backslashes into the script as escape sequences.

use vstd::prelude::*;

verus! {

/// The lowercase hexadecimal digit of a nibble.
pub open spec fn hex_digit(n: int) -> char {
    if n < 10 {
        ((48 + n) as u8) as char
    } else {
        ((87 + n) as u8) as char
    }
}

/// How JSON writes one character inside a string literal: quote, backslash
/// and the control characters escaped (the short forms where JSON has one,
/// `\u00XX` with lowercase hex otherwise), everything else as it is.
pub open spec fn json_char(c: char) -> Seq<char> {
    let u = c as u32;
    if c == '"' {
        seq!['\\', '"']
    } else if c == '\\' {
        seq!['\\', '\\']
    } else if u == 8 {
        seq!['\\', 'b']
    } else if u == 9 {
        seq!['\\', 't']
    } else if u == 10 {
        seq!['\\', 'n']
    } else if u == 12 {
        seq!['\\', 'f']
    } else if u == 13 {
        seq!['\\', 'r']
    } else if u < 0x20 {
        seq!['\\', 'u', '0', '0', hex_digit(u as int / 16), hex_digit(u as int % 16)]
    } else {
        seq![c]
    }
}

/// The characters of `s`, each written as in a JSON string literal.
pub open spec fn json_escaped(s: Seq<char>) -> Seq<char>
    decreases s.len(),
{
    if s.len() == 0 {
        Seq::empty()
    } else {
        json_escaped(s.drop_last()) + json_char(s.last())
    }
}

/// `s` as a JSON string literal.
pub open spec fn json_literal(s: Seq<char>) -> Seq<char> {
    seq!['"'] + json_escaped(s) + seq!['"']
}

/// `serde_json::Error`, carried as an opaque value.
#[verifier::external_type_specification]
#[verifier::external_body]
pub struct ExJsonError(serde_json::Error);

/// `serde_json::to_string` on a string slice. In the crate's source a `str`
/// is written by `format_escaped_str`: a quote, then each byte as is except
/// those its `ESCAPE` table marks (`"`, `\`, and the bytes below 0x20,
/// written `\b`, `\t`, `\n`, `\f`, `\r` or `\u00` and two lowercase hex
/// digits), then a quote. The writer is a `Vec<u8>`, whose writes cannot
/// fail, so the result is always `Ok`.
#[verifier::external_body]
fn json_to_string(s: &str) -> (r: Result<String, serde_json::Error>)
    ensures
        r is Ok,
        r matches Ok(t) ==> t@ == json_literal(s@),
{
    serde_json::to_string(s)
}

/// A Python-safe string literal for `s`.
pub fn json_str(s: &str) -> (lit: String)
    ensures
        lit@ == json_literal(s@),
{
    match json_to_string(s) {
        Ok(t) => t,
        Err(_) => String::new(),
    }
}


proof fn lemma_escaped_printable(s: Seq<char>)
    ensures
        forall|i: int| 0 <= i < json_escaped(s).len() ==> (#[trigger] json_escaped(s)[i] as u32) >= 0x20,
    decreases s.len(),
{
    if s.len() > 0 {
        let front = json_escaped(s.drop_last());
        let tail = json_char(s.last());
        lemma_escaped_printable(s.drop_last());
        let u = s.last() as u32;
        if u < 0x20 && u != 8 && u != 9 && u != 10 && u != 12 && u != 13 {
            let hi = u as int / 16;
            let lo = u as int % 16;
            assert(hi == 0 || hi == 1);
            assert(0 <= lo < 16);
            assert(hex_digit(hi) as u32 >= 0x30);
            assert(hex_digit(lo) as u32 >= 0x30);
        }
        assert forall|i: int| 0 <= i < tail.len() implies (#[trigger] tail[i] as u32) >= 0x20 by {
            if u < 0x20 && u != 8 && u != 9 && u != 10 && u != 12 && u != 13 {
                assert(tail == seq!['\\', 'u', '0', '0', hex_digit(u as int / 16), hex_digit(u as int % 16)]);
            }
        }
        assert forall|i: int| 0 <= i < json_escaped(s).len() implies (#[trigger] json_escaped(s)[i] as u32) >= 0x20 by {
            assert(json_escaped(s) == front + tail);
            if i < front.len() {
                assert(json_escaped(s)[i] == front[i]);
            } else {
                assert(json_escaped(s)[i] == tail[i - front.len()]);
            }
        }
    }
}

/// A literal written for a script holds no control character: whatever the
/// path or text, it stays on its line of the script and cannot end it early.
pub proof fn law_literal_is_printable(s: Seq<char>)
    ensures
        forall|i: int| 0 <= i < json_literal(s).len() ==> (#[trigger] json_literal(s)[i] as u32) >= 0x20,
{
    lemma_escaped_printable(s);
    let e = json_escaped(s);
    assert forall|i: int| 0 <= i < json_literal(s).len() implies (#[trigger] json_literal(s)[i] as u32) >= 0x20 by {
        if i == 0 || i == e.len() + 1 {
        } else {
            assert(json_literal(s)[i] == e[i - 1]);
        }
    }
}

} // verus!
