//! Bytes in lower-case hexadecimal digits.
use vstd::prelude::*;
use crate::text::chars_of;

verus! {

/// A lower-case hexadecimal digit.
pub open spec fn is_lower_hex(c: char) -> bool {
    ('0' <= c && c <= '9') || ('a' <= c && c <= 'f')
}

/// A text of so many lower-case hexadecimal digits.
pub open spec fn lower_hex(text: Seq<char>, length: int) -> bool {
    text.len() == length && forall|i: int| 0 <= i < text.len() ==> is_lower_hex(#[trigger] text[i])
}

/// What a digit is worth.
pub open spec fn hex_digit(c: char) -> int {
    if '0' <= c && c <= '9' {
        c as int - '0' as int
    } else {
        c as int - 'a' as int + 10
    }
}

/// The digit for a number below sixteen.
pub open spec fn digit_of(n: int) -> char {
    if n < 10 {
        ('0' as int + n) as char
    } else {
        ('a' as int + n - 10) as char
    }
}

/// The bytes that pairs of digits spell.
pub open spec fn hex_bytes(text: Seq<char>) -> Seq<u8> {
    Seq::new(
        text.len() / 2,
        |i: int| (hex_digit(text[2 * i]) * 16 + hex_digit(text[2 * i + 1])) as u8,
    )
}

/// The digits of bytes, two for each.
pub open spec fn hex_text(bytes: Seq<u8>) -> Seq<char> {
    Seq::new(
        2 * bytes.len(),
        |i: int| if i % 2 == 0 {
            digit_of(bytes[i / 2] as int / 16)
        } else {
            digit_of(bytes[i / 2] as int % 16)
        },
    )
}

/// Whether a text is so many lower-case hexadecimal digits.
pub fn is_hex(text: &str, length: usize) -> (r: bool)
    ensures
        r == lower_hex(text@, length as int),
{
    let chars = chars_of(text);
    if chars.len() != length {
        return false;
    }
    let mut i: usize = 0;
    while i < chars.len()
        invariant
            i <= chars.len(),
            chars@ == text@,
            forall|k: int| 0 <= k < i ==> is_lower_hex(#[trigger] chars@[k]),
        decreases chars.len() - i,
    {
        let c = chars[i];
        if !(('0' <= c && c <= '9') || ('a' <= c && c <= 'f')) {
            assert(!is_lower_hex(text@[i as int]));
            return false;
        }
        i = i + 1;
    }
    true
}

/// What a digit is worth.
pub fn hex(c: char) -> (r: u8)
    requires
        is_lower_hex(c),
    ensures
        r == hex_digit(c),
        r < 16,
{
    if '0' <= c && c <= '9' {
        (c as u32 - '0' as u32) as u8
    } else {
        (c as u32 - 'a' as u32) as u8 + 10
    }
}

/// The bytes that pairs of digits spell.
pub fn parse_hex(text: &str) -> (r: Vec<u8>)
    requires
        lower_hex(text@, text@.len() as int),
    ensures
        r@ == hex_bytes(text@),
{
    let chars = chars_of(text);
    let mut bytes: Vec<u8> = Vec::new();
    let mut i: usize = 0;
    while i < chars.len() / 2
        invariant
            i <= chars.len() / 2,
            chars@ == text@,
            lower_hex(chars@, chars@.len() as int),
            bytes@ == hex_bytes(text@).take(i as int),
        decreases chars.len() / 2 - i,
    {
        assert(is_lower_hex(chars@[2 * i as int]));
        assert(is_lower_hex(chars@[2 * i as int + 1]));
        let byte: u8 = hex(chars[2 * i]) * 16 + hex(chars[2 * i + 1]);
        bytes.push(byte);
        assert(hex_bytes(text@).take(i as int + 1) =~= hex_bytes(text@).take(i as int).push(byte));
        i = i + 1;
    }
    assert(hex_bytes(text@).take(i as int) =~= hex_bytes(text@));
    bytes
}

fn digit_char_of(n: u8) -> (r: char)
    requires
        n < 16,
    ensures
        r == digit_of(n as int),
{
    match n {
        0 => '0',
        1 => '1',
        2 => '2',
        3 => '3',
        4 => '4',
        5 => '5',
        6 => '6',
        7 => '7',
        8 => '8',
        9 => '9',
        10 => 'a',
        11 => 'b',
        12 => 'c',
        13 => 'd',
        14 => 'e',
        _ => 'f',
    }
}

/// The digits of bytes.
pub fn write_hex(bytes: &Vec<u8>) -> (r: String)
    ensures
        r@ == hex_text(bytes@),
{
    let mut text = String::new();
    let mut i: usize = 0;
    while i < bytes.len()
        invariant
            i <= bytes.len(),
            text@ == hex_text(bytes@).take(2 * i as int),
        decreases bytes.len() - i,
    {
        let ghost before = text@;
        text.push(digit_char_of(bytes[i] / 16));
        text.push(digit_char_of(bytes[i] % 16));
        assert(text@ =~= hex_text(bytes@).take(2 * (i as int + 1)));
        i = i + 1;
    }
    assert(hex_text(bytes@).take(2 * i as int) =~= hex_text(bytes@));
    text
}

/// Bytes written in digits are read back.
pub proof fn law_hex_round_trip(bytes: Seq<u8>)
    ensures
        lower_hex(hex_text(bytes), 2 * bytes.len() as int),
        hex_bytes(hex_text(bytes)) == bytes,
{
    let text = hex_text(bytes);
    assert forall|i: int| 0 <= i < text.len() implies is_lower_hex(#[trigger] text[i]) by {
        let b = bytes[i / 2] as int;
        assert(0 <= b / 16 < 16 && 0 <= b % 16 < 16);
    }
    assert forall|i: int| 0 <= i < bytes.len() implies #[trigger] hex_bytes(text)[i] == bytes[i] by {
        let b = bytes[i] as int;
        assert((2 * i) / 2 == i && (2 * i) % 2 == 0);
        assert((2 * i + 1) / 2 == i && (2 * i + 1) % 2 == 1);
        assert(0 <= b / 16 < 16 && 0 <= b % 16 < 16);
        assert(hex_digit(text[2 * i]) == b / 16);
        assert(hex_digit(text[2 * i + 1]) == b % 16);
    }
    assert(hex_bytes(text) =~= bytes);
}

} // verus!
