use vstd::prelude::*;
use vstd::utf8::{encode_utf8, is_ascii_chars, is_ascii_chars_encode_utf8, valid_utf8};

use crate::bytes::text_bytes;
use crate::digest::utf8_text;

verus! {

/// The lowercase hexadecimal digit of a value below sixteen.
pub open spec fn hex_char(value: int) -> char {
    if value == 0 {
        '0'
    } else if value == 1 {
        '1'
    } else if value == 2 {
        '2'
    } else if value == 3 {
        '3'
    } else if value == 4 {
        '4'
    } else if value == 5 {
        '5'
    } else if value == 6 {
        '6'
    } else if value == 7 {
        '7'
    } else if value == 8 {
        '8'
    } else if value == 9 {
        '9'
    } else if value == 10 {
        'a'
    } else if value == 11 {
        'b'
    } else if value == 12 {
        'c'
    } else if value == 13 {
        'd'
    } else if value == 14 {
        'e'
    } else {
        'f'
    }
}

/// The ASCII code of that digit.
pub open spec fn hex_digit(value: int) -> u8 {
    if value < 10 {
        (48 + value) as u8
    } else {
        (87 + value) as u8
    }
}

/// Lowercase hexadecimal text of a byte string: two digits per byte, high nibble first.
pub open spec fn hex_text(bytes: Seq<u8>) -> Seq<char> {
    Seq::new(
        2 * bytes.len(),
        |i: int|
            if i % 2 == 0 {
                hex_char((bytes[i / 2] / 16) as int)
            } else {
                hex_char((bytes[i / 2] % 16) as int)
            },
    )
}

/// The same text as bytes.
pub open spec fn hex_bytes(bytes: Seq<u8>) -> Seq<u8> {
    Seq::new(
        2 * bytes.len(),
        |i: int|
            if i % 2 == 0 {
                hex_digit((bytes[i / 2] / 16) as int)
            } else {
                hex_digit((bytes[i / 2] % 16) as int)
            },
    )
}

/// The value of one lowercase hexadecimal digit.
pub open spec fn nibble_value(digit: u8) -> Option<u8> {
    if 48 <= digit <= 57 {
        Some((digit - 48) as u8)
    } else if 97 <= digit <= 102 {
        Some((digit - 87) as u8)
    } else {
        None
    }
}

/// An even number of lowercase hexadecimal digits.
pub open spec fn is_hex_text(text: Seq<u8>) -> bool {
    &&& text.len() % 2 == 0
    &&& forall|i: int| 0 <= i < text.len() ==> #[trigger] nibble_value(text[i]) is Some
}

/// The bytes that hexadecimal text spells.
pub open spec fn hex_value(text: Seq<u8>) -> Seq<u8> {
    Seq::new(
        text.len() / 2,
        |k: int| (nibble_value(text[2 * k])->0 * 16 + nibble_value(text[2 * k + 1])->0) as u8,
    )
}

proof fn lemma_hex_char_ascii(value: int)
    requires
        0 <= value < 16,
    ensures
        hex_char(value) as u8 == hex_digit(value),
        '\0' <= hex_char(value) <= '\u{7f}',
        nibble_value(hex_digit(value)) == Some(value as u8),
{
}

proof fn lemma_index_halves(i: int)
    requires
        0 <= i,
    ensures
        i % 2 == 0 ==> 2 * (i / 2) == i,
        i % 2 == 1 ==> 2 * (i / 2) + 1 == i,
        (2 * i) / 2 == i,
        (2 * i) % 2 == 0,
        (2 * i + 1) / 2 == i,
        (2 * i + 1) % 2 == 1,
{
}

/// The text form of hexadecimal digits is ASCII and its UTF-8 bytes are the digits' codes.
pub proof fn lemma_hex_text_bytes(bytes: Seq<u8>)
    ensures
        is_ascii_chars(hex_text(bytes)),
        text_bytes(hex_text(bytes)) == hex_bytes(bytes),
{
    let text = hex_text(bytes);
    assert forall|i: int| 0 <= i < text.len() implies '\0' <= #[trigger] text[i] <= '\u{7f}'
        && text[i] as u8 == hex_bytes(bytes)[i] by {
        lemma_index_halves(i);
        lemma_hex_char_ascii((bytes[i / 2] / 16) as int);
        lemma_hex_char_ascii((bytes[i / 2] % 16) as int);
    }
    is_ascii_chars_encode_utf8(text);
    assert(encode_utf8(text) =~= hex_bytes(bytes));
}

/// Hexadecimal decoding undoes hexadecimal encoding.
pub proof fn law_hex_round_trip(bytes: Seq<u8>)
    ensures
        is_hex_text(hex_bytes(bytes)),
        hex_value(hex_bytes(bytes)) == bytes,
{
    let text = hex_bytes(bytes);
    assert forall|i: int| 0 <= i < text.len() implies #[trigger] nibble_value(text[i]) is Some by {
        lemma_index_halves(i);
        lemma_hex_char_ascii((bytes[i / 2] / 16) as int);
        lemma_hex_char_ascii((bytes[i / 2] % 16) as int);
    }
    assert(text.len() % 2 == 0) by {
        lemma_index_halves(bytes.len() as int);
    }
    assert forall|k: int| 0 <= k < bytes.len() implies #[trigger] hex_value(text)[k] == bytes[k] by {
        lemma_index_halves(k);
        lemma_index_halves(bytes.len() as int);
        lemma_hex_char_ascii((bytes[k] / 16) as int);
        lemma_hex_char_ascii((bytes[k] % 16) as int);
    }
    assert(hex_value(text).len() == bytes.len()) by {
        lemma_index_halves(bytes.len() as int);
    }
    assert(hex_value(text) =~= bytes);
}

/// Text turned into hexadecimal and back is the same text.
pub proof fn law_hex_text_round_trip(text: Seq<char>)
    ensures
        is_hex_text(text_bytes(hex_text(text_bytes(text)))),
        hex_value(text_bytes(hex_text(text_bytes(text)))) == text_bytes(text),
        valid_utf8(text_bytes(text)),
{
    lemma_hex_text_bytes(text_bytes(text));
    law_hex_round_trip(text_bytes(text));
    vstd::utf8::encode_utf8_valid_utf8(text);
}

/// `String::push`: appends one character at the end of the text.
#[verifier::external_body]
fn push_char(text: &mut String, c: char)
    ensures
        final(text)@ == old(text)@.push(c),
{
    text.push(c);
}

fn hex_char_of(value: u8) -> (c: char)
    requires
        value < 16,
    ensures
        c == hex_char(value as int),
{
    match value {
        0 => '0',
        1 => '1',
        2 => '2',
        3 => '3',
        4 => '4',
        5 => '5',
        6 => '6',
        7 => '7',
        8 => '8',
        9 => '9',
        10 => 'a',
        11 => 'b',
        12 => 'c',
        13 => 'd',
        14 => 'e',
        _ => 'f',
    }
}

/// Lowercase hexadecimal text of the bytes, two digits per byte.
pub fn encode_hex(value: &[u8]) -> (text: String)
    requires
        2 * value@.len() <= usize::MAX,
    ensures
        text@ == hex_text(value@),
        text_bytes(text@) == hex_bytes(value@),
{
    let mut text = String::new();
    let mut i: usize = 0;
    while i < value.len()
        invariant
            i <= value@.len(),
            text@ == hex_text(value@.subrange(0, i as int)),
        decreases value.len() - i,
    {
        let byte = value[i];
        let ghost before = text@;
        push_char(&mut text, hex_char_of(byte / 16));
        push_char(&mut text, hex_char_of(byte % 16));
        proof {
            let next = value@.subrange(0, i + 1);
            assert forall|j: int| 0 <= j < 2 * next.len() implies #[trigger] text@[j] == hex_text(
                next,
            )[j] by {
                lemma_index_halves(j);
                lemma_index_halves(i as int);
                if j < 2 * i {
                    assert(text@[j] == before[j]);
                }
            }
            assert(text@ =~= hex_text(next));
        }
        i = i + 1;
    }
    assert(value@.subrange(0, value@.len() as int) =~= value@);
    proof {
        lemma_hex_text_bytes(value@);
    }
    text
}

/// The value of one lowercase hexadecimal digit, if it is one.
pub fn nibble(value: u8) -> (n: Option<u8>)
    ensures
        n == nibble_value(value),
{
    if 48 <= value && value <= 57 {
        Some(value - 48)
    } else if 97 <= value && value <= 102 {
        Some(value - 87)
    } else {
        None
    }
}

/// The bytes spelled by an even number of lowercase hexadecimal digits, or nothing.
pub fn decode_hex(text: &[u8]) -> (decoded: Option<Vec<u8>>)
    ensures
        decoded is Some <==> is_hex_text(text@),
        decoded matches Some(bytes) ==> bytes@ == hex_value(text@),
{
    if text.len() % 2 != 0 {
        return None;
    }
    let length: usize = text.len();
    let half = length / 2;
    let mut out: Vec<u8> = Vec::new();
    let mut k: usize = 0;
    while k < half
        invariant
            half == text@.len() / 2,
            text@.len() % 2 == 0,
            2 * half == text@.len(),
            length == text@.len(),
            k <= half,
            out@ == hex_value(text@).subrange(0, k as int),
            forall|i: int| 0 <= i < 2 * k ==> #[trigger] nibble_value(text@[i]) is Some,
        decreases half - k,
    {
        let high = nibble(text[2 * k]);
        let low = nibble(text[2 * k + 1]);
        match (high, low) {
            (Some(h), Some(l)) => {
                out.push(h * 16 + l);
                proof {
                    assert forall|i: int| 0 <= i < 2 * (k + 1) implies #[trigger] nibble_value(
                        text@[i],
                    ) is Some by {
                        if i >= 2 * k {
                            assert(i == 2 * k || i == 2 * k + 1);
                        }
                    }
                    assert(out@ =~= hex_value(text@).subrange(0, k + 1));
                }
                k = k + 1;
            },
            _ => {
                return None;
            },
        }
    }
    assert(out@ =~= hex_value(text@));
    Some(out)
}

/// The text that hexadecimal digits spell as UTF-8, or nothing when they are not digits or
/// not UTF-8.
pub fn decode_utf8_hex(value: &str) -> (text: Option<String>)
    ensures
        text is Some <==> is_hex_text(text_bytes(value@)) && valid_utf8(
            hex_value(text_bytes(value@)),
        ),
        text matches Some(t) ==> text_bytes(t@) == hex_value(text_bytes(value@)),
{
    match decode_hex(value.as_bytes()) {
        None => None,
        Some(bytes) => utf8_text(bytes.as_slice()),
    }
}

/// Bytes below 128 are valid UTF-8: they spell the ASCII characters of the same codes.
pub proof fn lemma_ascii_bytes_valid_utf8(bytes: Seq<u8>)
    requires
        forall|i: int| 0 <= i < bytes.len() ==> #[trigger] bytes[i] < 128,
    ensures
        valid_utf8(bytes),
        exists|chars: Seq<char>| is_ascii_chars(chars) && #[trigger] encode_utf8(chars) == bytes,
{
    let chars = Seq::new(bytes.len(), |i: int| bytes[i] as char);
    assert forall|i: int| 0 <= i < chars.len() implies '\0' <= #[trigger] chars[i] <= '\u{7f}' && (
    chars[i] as u8) == bytes[i] by {
        assert(bytes[i] < 128);
    }
    is_ascii_chars_encode_utf8(chars);
    assert(encode_utf8(chars) =~= bytes);
    vstd::utf8::encode_utf8_valid_utf8(chars);
}

} // verus!
