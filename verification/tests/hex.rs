use ficant_application::hex::{decode_hex, decode_utf8_hex, encode_hex, nibble};

#[test]
fn encoding_is_lowercase_two_digits_per_byte() {
    assert_eq!(encode_hex(&[0x00, 0x0f, 0xa5, 0xff]), "000fa5ff");
    assert_eq!(encode_hex(&[]), "");
}

#[test]
fn decoding_round_trips_text() {
    for text in ["", "book-01", "组合/一", "a:b:c"] {
        let encoded = encode_hex(text.as_bytes());
        assert_eq!(decode_utf8_hex(&encoded), Some(text.to_owned()));
    }
}

#[test]
fn decoding_rejects_malformed_digits() {
    assert_eq!(decode_utf8_hex("abc"), None);
    assert_eq!(decode_utf8_hex("0G"), None);
    assert_eq!(decode_utf8_hex("0A"), None);
    assert_eq!(decode_utf8_hex("ff"), None);
    assert_eq!(decode_hex(b"0a10"), Some(vec![10, 16]));
    assert_eq!(nibble(b'f'), Some(15));
    assert_eq!(nibble(b'F'), None);
}
