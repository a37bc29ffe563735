use bincode_embedded::utf8::{encode_utf8, utf8_char_width};

#[test]
fn width_of_each_first_byte() {
    for b in 0x00..=0x7Fu8 {
        assert_eq!(utf8_char_width(b), 1);
    }
    for b in 0x80..=0xC1u8 {
        assert_eq!(utf8_char_width(b), 0);
    }
    for b in 0xC2..=0xDFu8 {
        assert_eq!(utf8_char_width(b), 2);
    }
    for b in 0xE0..=0xEFu8 {
        assert_eq!(utf8_char_width(b), 3);
    }
    for b in 0xF0..=0xF4u8 {
        assert_eq!(utf8_char_width(b), 4);
    }
    for b in 0xF5..=0xFFu8 {
        assert_eq!(utf8_char_width(b), 0);
    }
}

#[test]
fn encoding_of_one_character_by_width() {
    assert_eq!(encode_utf8('A').as_slice(), &[0x41][..]);
    assert_eq!(encode_utf8('\u{e9}').as_slice(), &[0xC3, 0xA9][..]);
    assert_eq!(encode_utf8('\u{20ac}').as_slice(), &[0xE2, 0x82, 0xAC][..]);
    assert_eq!(encode_utf8('\u{1F600}').as_slice(), &[0xF0, 0x9F, 0x98, 0x80][..]);
}

#[test]
fn encoding_at_the_width_boundaries() {
    assert_eq!(encode_utf8('\u{0}').as_slice(), &[0x00][..]);
    assert_eq!(encode_utf8('\u{7f}').as_slice(), &[0x7F][..]);
    assert_eq!(encode_utf8('\u{80}').as_slice(), &[0xC2, 0x80][..]);
    assert_eq!(encode_utf8('\u{7ff}').as_slice(), &[0xDF, 0xBF][..]);
    assert_eq!(encode_utf8('\u{800}').as_slice(), &[0xE0, 0xA0, 0x80][..]);
    assert_eq!(encode_utf8('\u{ffff}').as_slice(), &[0xEF, 0xBF, 0xBF][..]);
    assert_eq!(encode_utf8('\u{10000}').as_slice(), &[0xF0, 0x90, 0x80, 0x80][..]);
    assert_eq!(encode_utf8('\u{10ffff}').as_slice(), &[0xF4, 0x8F, 0xBF, 0xBF][..]);
}

#[test]
fn encoding_agrees_with_std_on_every_character() {
    let mut buf = [0u8; 4];
    for code in 0..=0x10FFFFu32 {
        if let Some(c) = char::from_u32(code) {
            let expected = c.encode_utf8(&mut buf).as_bytes();
            let encoded = encode_utf8(c);
            assert_eq!(encoded.as_slice(), expected);
            assert_eq!(utf8_char_width(expected[0]), expected.len());
        }
    }
}
