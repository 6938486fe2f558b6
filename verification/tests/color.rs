use pixelflut::color::{parse_hex_digit, push_hex_channel, Color, WORD_LIMIT};

#[test]
fn color_packs_into_the_low_bits() {
    assert_eq!(Color(0xFF, 0x88, 0x00).to_word(), 0x00FF_8800);
    assert_eq!(Color(0x01, 0x02, 0x03).to_word(), 0x0001_0203);
    assert_eq!(Color(0, 0, 0).to_word(), 0);
    assert_eq!(Color(255, 255, 255).to_word(), WORD_LIMIT - 1);
}

#[test]
fn color_unpacks_and_ignores_the_upper_bits() {
    assert_eq!(Color::from_word(0x00FF_8800), Color(0xFF, 0x88, 0x00));
    assert_eq!(Color::from_word(0xAB01_0203), Color(1, 2, 3));
}

#[test]
fn color_word_round_trip() {
    for r in [0u8, 1, 127, 128, 255] {
        for g in [0u8, 15, 16, 255] {
            for b in [0u8, 99, 255] {
                let color = Color(r, g, b);
                assert_eq!(Color::from_word(color.to_word()), color);
            }
        }
    }
}

#[test]
fn default_color_is_black() {
    assert_eq!(Color::default(), Color(0, 0, 0));
}

#[test]
fn hex_digits_in_both_cases() {
    assert_eq!(parse_hex_digit(b'0'), Some(0));
    assert_eq!(parse_hex_digit(b'9'), Some(9));
    assert_eq!(parse_hex_digit(b'a'), Some(10));
    assert_eq!(parse_hex_digit(b'F'), Some(15));
    assert_eq!(parse_hex_digit(b'g'), None);
    assert_eq!(parse_hex_digit(b'G'), None);
    assert_eq!(parse_hex_digit(b' '), None);
    assert_eq!(parse_hex_digit(b'/'), None);
    assert_eq!(parse_hex_digit(b':'), None);
    assert_eq!(parse_hex_digit(b'@'), None);
    assert_eq!(parse_hex_digit(b'`'), None);
}

#[test]
fn color_text_is_six_upper_case_digits() {
    let mut out = b"PX ".to_vec();
    Color(0xFF, 0x88, 0x0a).push_hex(&mut out);
    assert_eq!(out, b"PX FF880A".to_vec());
    let mut channel = Vec::new();
    push_hex_channel(&mut channel, 0x9c);
    assert_eq!(channel, b"9C".to_vec());
}

#[test]
fn color_is_read_from_six_or_eight_digits() {
    assert_eq!(Color::parse_hex(b"ff8800"), Some(Color(0xFF, 0x88, 0x00)));
    assert_eq!(Color::parse_hex(b"FF8800"), Some(Color(0xFF, 0x88, 0x00)));
    assert_eq!(Color::parse_hex(b"Ff8800"), Some(Color(0xFF, 0x88, 0x00)));
    assert_eq!(Color::parse_hex(b"11223344"), Some(Color(0x11, 0x22, 0x33)));
    assert_eq!(Color::parse_hex(b""), None);
    assert_eq!(Color::parse_hex(b"fff"), None);
    assert_eq!(Color::parse_hex(b"1122334"), None);
    assert_eq!(Color::parse_hex(b"112233445"), None);
    assert_eq!(Color::parse_hex(b"11223g"), None);
    assert_eq!(Color::parse_hex(b"112233zz"), None);
    assert_eq!(Color::parse_hex(b"#12233"), None);
}

#[test]
fn color_text_round_trip() {
    for word in [0u32, 1, 0x0F0F0F, 0x123456, 0xABCDEF, 0xFFFFFF] {
        let color = Color::from_word(word);
        let mut text = Vec::new();
        color.push_hex(&mut text);
        assert_eq!(text.len(), 6);
        assert_eq!(Color::parse_hex(&text), Some(color));
    }
}
