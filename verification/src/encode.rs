//! Percent-encoding of query text (through `urlencoding`) and JSON string
//! quoting (through `serde_json`), with what each produces stated exactly.
use vstd::prelude::*;
use vstd::utf8::encode_utf8;

verus! {

/// The bytes that percent-encoding leaves as they are: ASCII letters, digits
/// and `-`, `.`, `_`, `~`.
pub open spec fn unreserved(b: u8) -> bool {
    ||| (48 <= b && b <= 57)
    ||| (65 <= b && b <= 90)
    ||| (97 <= b && b <= 122)
    ||| b == 45
    ||| b == 46
    ||| b == 95
    ||| b == 126
}

/// Upper-case hexadecimal digit for `d < 16`.
pub open spec fn hex_upper(d: u8) -> char {
    if d < 10 {
        ((d + 48) as u8) as char
    } else {
        ((d + 55) as u8) as char
    }
}

/// One byte, percent-encoded.
pub open spec fn percent_byte(b: u8) -> Seq<char> {
    if unreserved(b) {
        seq![b as char]
    } else {
        seq!['%', hex_upper(b / 16), hex_upper(b % 16)]
    }
}

/// A byte sequence, percent-encoded byte by byte.
pub open spec fn percent_bytes(bs: Seq<u8>) -> Seq<char>
    decreases bs.len(),
{
    if bs.len() == 0 {
        Seq::empty()
    } else {
        percent_byte(bs[0]) + percent_bytes(bs.drop_first())
    }
}

/// The percent-encoding of the UTF-8 form of `s`.
pub open spec fn url_encoded(s: Seq<char>) -> Seq<char> {
    percent_bytes(encode_utf8(s))
}

/// Lower-case hexadecimal digit for `d < 16`.
pub open spec fn hex_lower(d: u32) -> char {
    if d < 10 {
        ((d + 48) as u8) as char
    } else {
        ((d + 87) as u8) as char
    }
}

/// How one character stands inside a JSON string literal.
pub open spec fn json_escape_char(c: char) -> Seq<char> {
    if c == '"' {
        seq!['\\', '"']
    } else if c == '\\' {
        seq!['\\', '\\']
    } else if c == '\u{8}' {
        seq!['\\', 'b']
    } else if c == '\u{c}' {
        seq!['\\', 'f']
    } else if c == '\n' {
        seq!['\\', 'n']
    } else if c == '\r' {
        seq!['\\', 'r']
    } else if c == '\t' {
        seq!['\\', 't']
    } else if (c as u32) < 0x20 {
        seq!['\\', 'u', '0', '0', hex_lower((c as u32) / 16), hex_lower((c as u32) % 16)]
    } else {
        seq![c]
    }
}

/// The characters of `s`, each escaped for a JSON string literal.
pub open spec fn json_escaped(s: Seq<char>) -> Seq<char>
    decreases s.len(),
{
    if s.len() == 0 {
        Seq::empty()
    } else {
        json_escape_char(s[0]) + json_escaped(s.drop_first())
    }
}

/// `s` as a JSON string literal, quotes included.
pub open spec fn json_quoted(s: Seq<char>) -> Seq<char> {
    seq!['"'] + json_escaped(s) + seq!['"']
}

/// The characters a percent-encoded text is made of.
pub open spec fn is_url_char(c: char) -> bool {
    ||| c == '%'
    ||| ('0' <= c && c <= '9')
    ||| ('A' <= c && c <= 'Z')
    ||| ('a' <= c && c <= 'z')
    ||| c == '-'
    ||| c == '.'
    ||| c == '_'
    ||| c == '~'
}

proof fn lemma_percent_bytes_chars(bs: Seq<u8>)
    ensures
        forall|k: int| 0 <= k < percent_bytes(bs).len() ==> is_url_char(#[trigger] percent_bytes(bs)[k]),
    decreases bs.len(),
{
    if bs.len() > 0 {
        lemma_percent_bytes_chars(bs.drop_first());
        let b = bs[0];
        let h = percent_byte(b);
        let t = percent_bytes(bs.drop_first());
        assert(b / 16 < 16 && b % 16 < 16);
        assert forall|k: int| 0 <= k < h.len() implies is_url_char(#[trigger] h[k]) by {
            if unreserved(b) {
                assert(h[k] == b as char);
            } else {
                assert(k == 0 || k == 1 || k == 2);
            }
        }
        assert forall|k: int| 0 <= k < (h + t).len() implies is_url_char(#[trigger] (h + t)[k]) by {
            if k < h.len() {
                assert((h + t)[k] == h[k]);
            } else {
                assert((h + t)[k] == t[k - h.len()]);
            }
        }
    }
}

/// Percent-encoded text is made only of ASCII letters, digits, `-._~` and `%`,
/// so it can stand in a URL as it is.
pub proof fn law_url_encoded_chars(s: Seq<char>)
    ensures
        forall|k: int| 0 <= k < url_encoded(s).len() ==> is_url_char(#[trigger] url_encoded(s)[k]),
{
    lemma_percent_bytes_chars(encode_utf8(s));
}

/// Calls `urlencoding::encode`, which percent-encodes every byte of the UTF-8
/// form of `s` except ASCII letters, digits and `-._~`, with upper-case hex
/// digits: the contract claims exactly that result.
#[verifier::external_body]
pub(crate) fn url_encode(s: &str) -> (r: String)
    ensures
        r@ == url_encoded(s@),
{
    urlencoding::encode(s).into_owned()
}

/// Calls `serde_json::to_string` on a string slice: a JSON string literal in
/// which `"` and `\` are backslash-escaped, the control characters with a
/// short escape (`\b \f \n \r \t`) take it, the other characters below U+0020
/// become `\u00` and two lower-case hex digits, and everything else is kept.
/// Serialising a string into memory cannot fail (the error arm, which would
/// give an empty string, is never taken), so the contract claims that literal.
#[verifier::external_body]
pub(crate) fn json_quote(s: &str) -> (r: String)
    ensures
        r@ == json_quoted(s@),
{
    serde_json::to_string(s).unwrap_or_default()
}

} // verus!
