use vstd::prelude::*;

verus! {

/// Width of the UTF-8 encoding that begins with `b`, or 0 when `b` cannot begin
/// one (a continuation byte, 0xC0, 0xC1 or 0xF5 and above).
pub open spec fn lead_width(b: u8) -> nat {
    if b <= 0x7F {
        1
    } else if 0xC2 <= b && b <= 0xDF {
        2
    } else if 0xE0 <= b && b <= 0xEF {
        3
    } else if 0xF0 <= b && b <= 0xF4 {
        4
    } else {
        0
    }
}

/// Relies on utf8_width::get_width, which maps a leading byte to the width of
/// its character by the ranges of RFC 3629 (0 for a byte that leads none).
#[verifier::external_body]
pub(crate) fn utf8_char_width(b: u8) -> (r: usize)
    ensures
        r == lead_width(b),
{
    utf8_width::get_width(b)
}

/// The single-byte whitespace set: code points 9 to 13 and 28 to 32.
pub open spec fn spec_ws1(c: u8) -> bool {
    (9 <= c && c <= 13) || (28 <= c && c <= 32)
}

/// The three-byte whitespace set: U+1680, U+180E, U+2000 to U+200A, U+2028,
/// U+2029, U+202F, U+205F and U+3000, as their UTF-8 bytes.
pub open spec fn spec_ws3(b1: u8, b2: u8, b3: u8) -> bool {
    ||| (b1 == 225 && b2 == 154 && b3 == 128)
    ||| (b1 == 225 && b2 == 160 && b3 == 142)
    ||| (b1 == 226 && b2 == 128 && ((128 <= b3 && b3 <= 138) || b3 == 168 || b3 == 169
        || b3 == 175))
    ||| (b1 == 226 && b2 == 129 && b3 == 159)
    ||| (b1 == 227 && b2 == 128 && b3 == 128)
}

/// Whether the byte `c` is a one-byte whitespace character.
pub fn is_whitespace_1(c: u8) -> (r: bool)
    ensures
        r == spec_ws1(c),
{
    (9 <= c && c <= 13) || (28 <= c && c <= 32)
}

/// Whether the three bytes encode one of the three-byte whitespace characters.
pub fn is_whitespace_3(b1: u8, b2: u8, b3: u8) -> (r: bool)
    ensures
        r == spec_ws3(b1, b2, b3),
{
    match b1 {
        225 => match b2 {
            154 => b3 == 128,
            160 => b3 == 142,
            _ => false,
        },
        226 => match b2 {
            128 => (128 <= b3 && b3 <= 138) || b3 == 168 || b3 == 169 || b3 == 175,
            129 => b3 == 159,
            _ => false,
        },
        227 => b2 == 128 && b3 == 128,
        _ => false,
    }
}

} // verus!
