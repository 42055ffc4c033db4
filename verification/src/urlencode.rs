//! Percent-encoding of paths, as askama's `urlencode` filter writes it.

use vstd::prelude::*;

verus! {

/// A byte that `urlencode` keeps as it is: an ASCII letter or digit, or one
/// of `_ . - ~ /`.
pub open spec fn is_url_path_safe(b: u8) -> bool {
    (0x30 <= b <= 0x39) || (0x41 <= b <= 0x5a) || (0x61 <= b <= 0x7a) || b == 0x5f || b == 0x2e
        || b == 0x2d || b == 0x7e || b == 0x2f
}

/// An upper-case hexadecimal digit.
pub open spec fn hex_upper(n: int) -> char {
    if n < 10 {
        (0x30 + n) as char
    } else {
        (0x41 + n - 10) as char
    }
}

/// The percent-encoding of one byte.
pub open spec fn encode_byte(b: u8) -> Seq<char> {
    if is_url_path_safe(b) {
        seq![b as char]
    } else {
        seq!['%', hex_upper(b as int / 16), hex_upper(b as int % 16)]
    }
}

/// The percent-encoding of a byte sequence.
pub open spec fn encode_bytes(bs: Seq<u8>) -> Seq<char>
    decreases bs.len(),
{
    if bs.len() == 0 {
        Seq::empty()
    } else {
        encode_bytes(bs.drop_last()) + encode_byte(bs.last())
    }
}

/// The text `urlencode` makes of a string: its UTF-8 bytes, each kept or
/// written as `%XX`.
pub open spec fn url_encoded(s: Seq<char>) -> Seq<char> {
    encode_bytes(vstd::utf8::encode_utf8(s))
}

/// `askama::filters::urlencode`, written out: every UTF-8 byte of `s` that is
/// not an ASCII letter or digit or one of `_ . - ~ /` becomes `%` and two
/// upper-case hexadecimal digits (percent-encoding's `percent_encode_byte`).
#[verifier::external_body]
pub(crate) fn url_encode(s: &str) -> (r: String)
    ensures
        r@ == url_encoded(s@),
{
    askama::filters::urlencode(s).unwrap().to_string()
}

} // verus!
