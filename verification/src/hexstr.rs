//! Hexadecimal byte-array inputs: the spec of what a hex string denotes,
//! and the trusted call into the `hex` crate that decodes one.

use vstd::prelude::*;
use vstd::string::StrSliceExecFns;
use vstd::utf8::encode_utf8;

verus! {

/// Is `b` the ASCII code of a hexadecimal digit (either case)?
pub open spec fn is_hex_digit(b: u8) -> bool {
    (48 <= b && b <= 57) || (97 <= b && b <= 102) || (65 <= b && b <= 70)
}

/// The numeric value of the hexadecimal digit with ASCII code `b`.
pub open spec fn hex_digit_val(b: u8) -> int {
    if 48 <= b && b <= 57 {
        b - 48
    } else if 97 <= b && b <= 102 {
        b - 87
    } else if 65 <= b && b <= 70 {
        b - 55
    } else {
        0
    }
}

/// Is `s` a well-formed hexadecimal byte string: even length, every byte a
/// hex digit?
pub open spec fn is_hex_bytes(s: Seq<u8>) -> bool {
    s.len() % 2 == 0 && forall|i: int| 0 <= i < s.len() ==> is_hex_digit(s[i])
}

/// The bytes a well-formed hexadecimal string denotes: one byte per digit
/// pair, high digit first.
pub open spec fn hex_decoded(s: Seq<u8>) -> Seq<u8> {
    Seq::new((s.len() / 2) as nat, |i: int| (hex_digit_val(s[2 * i]) * 16 + hex_digit_val(s[2 * i + 1])) as u8)
}

/// `s` with one leading `0x` removed, if it has one.
pub open spec fn strip_hex_prefix(s: Seq<char>) -> Seq<char> {
    if s.len() >= 2 && s[0] == '0' && s[1] == 'x' {
        s.subrange(2, s.len() as int)
    } else {
        s
    }
}

/// Removes one leading `0x` from `s`, if present.
pub fn without_hex_prefix(s: &str) -> (r: &str)
    ensures
        r@ == strip_hex_prefix(s@),
{
    let n = s.unicode_len();
    if n >= 2 && s.get_char(0) == '0' && s.get_char(1) == 'x' {
        s.substring_char(2, n)
    } else {
        s
    }
}

/// Relies on `hex::decode`: each pair of hexadecimal digits (either case)
/// becomes one byte; an odd number of digits or any non-hex byte is an
/// error. It reads the UTF-8 bytes of `s`.
#[verifier::external_body]
pub(crate) fn hex_decode(s: &str) -> (r: Option<Vec<u8>>)
    ensures
        match r {
            Some(v) => is_hex_bytes(encode_utf8(s@)) && v@ == hex_decoded(encode_utf8(s@)),
            None => !is_hex_bytes(encode_utf8(s@)),
        },
{
    hex::decode(s).ok()
}

} // verus!
