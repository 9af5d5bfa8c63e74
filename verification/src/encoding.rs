//! Bytes and texts in the forms that answers and URLs carry.

use vstd::prelude::*;
use vstd::utf8::*;

verus! {

/// The character for a number below sixty-four in the URL-safe base-64 alphabet.
pub open spec fn base64_char(d: int) -> char {
    if d < 26 {
        (d + 'A' as int) as char
    } else if d < 52 {
        (d - 26 + 'a' as int) as char
    } else if d < 62 {
        (d - 52 + '0' as int) as char
    } else if d == 62 {
        '-'
    } else {
        '_'
    }
}

/// Bytes in URL-safe base 64 without padding: four characters for three bytes, and two or three for
/// the one or two that may be left.
pub open spec fn base64_text(bytes: Seq<u8>) -> Seq<char>
    decreases bytes.len(),
{
    if bytes.len() == 0 {
        Seq::empty()
    } else if bytes.len() == 1 {
        let x = bytes[0] as int;
        seq![base64_char(x / 4), base64_char(x % 4 * 16)]
    } else if bytes.len() == 2 {
        let x = bytes[0] as int;
        let y = bytes[1] as int;
        seq![base64_char(x / 4), base64_char(x % 4 * 16 + y / 16), base64_char(y % 16 * 4)]
    } else {
        let x = bytes[0] as int;
        let y = bytes[1] as int;
        let z = bytes[2] as int;
        seq![
            base64_char(x / 4),
            base64_char(x % 4 * 16 + y / 16),
            base64_char(y % 16 * 4 + z / 64),
            base64_char(z % 64),
        ] + base64_text(bytes.skip(3))
    }
}

/// `base64::Engine::encode` of the engine `URL_SAFE_NO_PAD`: URL-safe base 64 without padding.
#[verifier::external_body]
pub(crate) fn base64_string(bytes: &[u8]) -> (r: String)
    ensures
        r@ == base64_text(bytes@),
{
    base64::Engine::encode(&base64::engine::general_purpose::URL_SAFE_NO_PAD, bytes)
}

/// The upper-case hexadecimal digit for a number below sixteen.
pub open spec fn upper_hex_digit(d: int) -> char {
    if d < 10 {
        (d + '0' as int) as char
    } else {
        (d - 10 + 'A' as int) as char
    }
}

/// Whether a byte stands for itself in a URL: ASCII letters and digits, and four marks.
pub open spec fn is_unreserved(b: u8) -> bool {
    ||| '0' as int <= b <= '9' as int
    ||| 'A' as int <= b <= 'Z' as int
    ||| 'a' as int <= b <= 'z' as int
    ||| b == '-' as int
    ||| b == '.' as int
    ||| b == '_' as int
    ||| b == '~' as int
}

/// Bytes as a URL carries them: every byte that does not stand for itself by its value, in
/// hexadecimal behind a percent sign.
pub open spec fn percent_text(bytes: Seq<u8>) -> Seq<char>
    decreases bytes.len(),
{
    if bytes.len() == 0 {
        Seq::empty()
    } else {
        let b = bytes.last();
        percent_text(bytes.drop_last()) + if is_unreserved(b) {
            seq![b as char]
        } else {
            seq!['%', upper_hex_digit(b as int / 16), upper_hex_digit(b as int % 16)]
        }
    }
}

/// A text as a URL carries it.
pub open spec fn url_text(s: Seq<char>) -> Seq<char> {
    percent_text(encode_utf8(s))
}

/// `urlencoding::encode`: every byte of the text but letters, digits, `-`, `.`, `_` and `~` is
/// percent-encoded, with upper-case digits.
#[verifier::external_body]
pub(crate) fn url_string(s: &str) -> (r: String)
    ensures
        r@ == url_text(s@),
{
    urlencoding::encode(s).into_owned()
}

} // verus!
