//! Upper-case hexadecimal text of bytes.

use vstd::prelude::*;
use crate::text::push_char;

verus! {

/// The upper-case hexadecimal digit for `nibble`, a number below 16.
pub open spec fn hex_digit_upper(nibble: u8) -> char {
    if nibble < 10 {
        (nibble + 0x30) as u8 as char
    } else {
        (nibble + 0x37) as u8 as char
    }
}

/// `bytes` in upper-case hexadecimal: two digits for each byte, the high four
/// bits first.
pub open spec fn hex_upper(bytes: Seq<u8>) -> Seq<char> {
    Seq::new(
        2 * bytes.len(),
        |i: int|
            if i % 2 == 0 {
                hex_digit_upper(bytes[i / 2] >> 4)
            } else {
                hex_digit_upper(bytes[i / 2] & 0x0f)
            },
    )
}

/// The upper-case hexadecimal digit for `nibble`.
pub fn hex_digit(nibble: u8) -> (digit: char)
    requires
        nibble < 16,
    ensures
        digit == hex_digit_upper(nibble),
{
    if nibble < 10 {
        (nibble + 0x30) as char
    } else {
        (nibble + 0x37) as char
    }
}

/// `bytes` in upper-case hexadecimal.
pub fn to_hex_upper(bytes: &[u8]) -> (text: String)
    ensures
        text@ == hex_upper(bytes@),
{
    let mut text = String::new();
    let mut i: usize = 0;
    while i < bytes.len()
        invariant
            i <= bytes.len(),
            text@ == hex_upper(bytes@.take(i as int)),
        decreases bytes.len() - i,
    {
        let byte: u8 = bytes[i];
        let high: u8 = byte >> 4;
        let low: u8 = byte & 0x0f;
        assert(high < 16 && low < 16) by (bit_vector)
            requires
                high == byte >> 4,
                low == byte & 0x0f,
        ;
        push_char(&mut text, hex_digit(high));
        push_char(&mut text, hex_digit(low));
        i = i + 1;
        assert(text@ == hex_upper(bytes@.take(i as int)));
    }
    assert(bytes@.take(i as int) == bytes@);
    text
}

} // verus!
