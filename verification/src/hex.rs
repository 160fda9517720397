//! Hexadecimal string literals.

use vstd::prelude::*;
use vstd::utf8::{decode_utf8, valid_utf8};

verus! {

pub open spec fn is_hex_digit(c: char) -> bool {
    ('0' <= c <= '9') || ('a' <= c <= 'f') || ('A' <= c <= 'F')
}

pub open spec fn hex_value(c: char) -> int {
    if '0' <= c <= '9' {
        c as int - '0' as int
    } else if 'a' <= c <= 'f' {
        c as int - 'a' as int + 10
    } else {
        c as int - 'A' as int + 10
    }
}

/// A non-empty string of hexadecimal digits, whole bytes long.
pub open spec fn spec_is_hex(s: Seq<char>) -> bool {
    &&& s.len() > 0
    &&& s.len() % 2 == 0
    &&& forall|i: int| 0 <= i < s.len() ==> is_hex_digit(#[trigger] s[i])
}

/// The bytes that a string of hexadecimal digit pairs spells.
pub open spec fn hex_bytes(s: Seq<char>) -> Seq<u8> {
    Seq::new(s.len() / 2, |i: int| (hex_value(s[2 * i]) * 16 + hex_value(s[2 * i + 1])) as u8)
}

/// What `String::from_utf8_lossy` gives for a byte sequence: each invalid
/// sequence becomes U+FFFD.
pub uninterp spec fn spec_utf8_lossy(bytes: Seq<u8>) -> Seq<char>;

/// `String::from_utf8_lossy(bytes).into_owned()`. Valid UTF-8 decodes to
/// its characters; what invalid sequences become is left to the name.
#[verifier::external_body]
pub(crate) fn utf8_lossy(bytes: &[u8]) -> (s: String)
    ensures
        s@ == spec_utf8_lossy(bytes@),
        valid_utf8(bytes@) ==> s@ == decode_utf8(bytes@),
{
    String::from_utf8_lossy(bytes).into_owned()
}

/// The text that a hexadecimal string spells.
pub open spec fn spec_decode_hex(s: Seq<char>) -> Seq<char> {
    spec_utf8_lossy(hex_bytes(s))
}

fn hex_digit_exec(c: char) -> (r: Option<u8>)
    ensures
        r is Some <==> is_hex_digit(c),
        r matches Some(d) ==> d as int == hex_value(c),
{
    if '0' <= c && c <= '9' {
        Some(((c as u32) - ('0' as u32)) as u8)
    } else if 'a' <= c && c <= 'f' {
        Some(((c as u32) - ('a' as u32) + 10) as u8)
    } else if 'A' <= c && c <= 'F' {
        Some(((c as u32) - ('A' as u32) + 10) as u8)
    } else {
        None
    }
}

/// Whether a string is hexadecimal (whole bytes of hex digits).
pub fn is_hex_str(s: &str) -> (r: bool)
    ensures
        r == spec_is_hex(s@),
{
    let v = crate::text::chars_of(s);
    if v.len() == 0 || v.len() % 2 != 0 {
        return false;
    }
    let mut i: usize = 0;
    while i < v.len()
        invariant
            v@ == s@,
            0 <= i <= v@.len(),
            forall|j: int| 0 <= j < i ==> is_hex_digit(#[trigger] v@[j]),
        decreases v.len() - i,
    {
        if hex_digit_exec(v[i]).is_none() {
            return false;
        }
        i = i + 1;
    }
    true
}

/// Decode a hexadecimal string into text, invalid UTF-8 becoming U+FFFD.
pub fn decode_hex_lossy(s: &str) -> (r: String)
    requires
        spec_is_hex(s@),
    ensures
        r@ == spec_decode_hex(s@),
{
    let v = crate::text::chars_of(s);
    let mut bytes: Vec<u8> = Vec::new();
    let mut i: usize = 0;
    while i < v.len() / 2
        invariant
            v@ == s@,
            spec_is_hex(s@),
            0 <= i <= v@.len() / 2,
            bytes@ == hex_bytes(s@).take(i as int),
        decreases v.len() / 2 - i,
    {
        let hi = hex_digit_exec(v[2 * i]).unwrap();
        let lo = hex_digit_exec(v[2 * i + 1]).unwrap();
        let b: u8 = hi * 16 + lo;
        bytes.push(b);
        assert(bytes@ =~= hex_bytes(s@).take(i + 1));
        i = i + 1;
    }
    assert(bytes@ =~= hex_bytes(s@));
    utf8_lossy(bytes.as_slice())
}

/// A hexadecimal string decoded, any other string kept as it is.
pub open spec fn spec_hex_to_string(s: Seq<char>) -> Seq<char> {
    if spec_is_hex(s) {
        spec_decode_hex(s)
    } else {
        s
    }
}

} // verus!
