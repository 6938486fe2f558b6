use base64::Engine;
use pixelflut::color::Color;
use pixelflut::sinks::{encode_frame, PixelFormat};
use pixelflut::state_encoding::{
    byte_to_sextet, decode_rgb64, encode_rgb64, sextet_to_byte, DecodeError,
};

#[test]
fn rgb64_of_known_pixels() {
    assert_eq!(encode_rgb64(&[]), Vec::<u8>::new());
    assert_eq!(encode_rgb64(&[Color(0, 0, 0)]), b"AAAA".to_vec());
    assert_eq!(encode_rgb64(&[Color(255, 255, 255)]), b"////".to_vec());
    assert_eq!(encode_rgb64(&[Color(1, 2, 3)]), b"AQID".to_vec());
    assert_eq!(encode_rgb64(&[Color(0xFB, 0xEF, 0xBE)]), b"++++".to_vec());
    assert_eq!(
        encode_rgb64(&[Color(b'M', b'a', b'n'), Color(b'f', b'l', b'u')]),
        b"TWFuZmx1".to_vec()
    );
}

#[test]
fn base64_alphabet() {
    let alphabet = b"ABCDEFGHIJKLMNOPQRSTUVWXYZabcdefghijklmnopqrstuvwxyz0123456789+/";
    for v in 0..64u8 {
        assert_eq!(sextet_to_byte(v), alphabet[v as usize]);
        assert_eq!(byte_to_sextet(alphabet[v as usize]), Some(v));
    }
    for b in [b'=', b' ', b'\n', b'-', b'_', b'@', b'[', b'`', b'{', b'.', b':', 0u8, 255u8] {
        assert_eq!(byte_to_sextet(b), None);
    }
}

#[test]
fn rgb64_is_base64_of_the_packed_pixels() {
    let pixels: Vec<Color> = (0..300u32)
        .map(|i| Color((i * 7) as u8, (i * 13 + 5) as u8, (i * 31 + 11) as u8))
        .collect();
    let packed = encode_frame(PixelFormat::Rgb24, &pixels);
    let expected = base64::engine::general_purpose::STANDARD.encode(&packed);
    assert_eq!(encode_rgb64(&pixels), expected.into_bytes());
}

#[test]
fn rgb64_round_trip() {
    let pixels: Vec<Color> = (0..=255u32)
        .map(|i| Color(i as u8, (255 - i) as u8, (i * 3) as u8))
        .collect();
    assert_eq!(decode_rgb64(&encode_rgb64(&pixels)), Ok(pixels));
    assert_eq!(decode_rgb64(b""), Ok(Vec::new()));
    assert_eq!(decode_rgb64(b"AQID////"), Ok(vec![Color(1, 2, 3), Color(255, 255, 255)]));
}

#[test]
fn rgb64_agrees_with_base64_decoding() {
    let text = b"VGhlIHF1aWNrIGJyb3duIGZveCBqdW1wcyBvdmVy";
    let bytes = base64::engine::general_purpose::STANDARD.decode(text).unwrap();
    let pixels = decode_rgb64(text).unwrap();
    assert_eq!(encode_frame(PixelFormat::Rgb24, &pixels), bytes);
}

#[test]
fn malformed_rgb64_is_refused() {
    assert_eq!(decode_rgb64(b"AQI"), Err(DecodeError::Malformed));
    assert_eq!(decode_rgb64(b"AQIDA"), Err(DecodeError::Malformed));
    assert_eq!(decode_rgb64(b"AQI="), Err(DecodeError::Malformed));
    assert_eq!(decode_rgb64(b"AQ=="), Err(DecodeError::Malformed));
    assert_eq!(decode_rgb64(b"AQI "), Err(DecodeError::Malformed));
    assert_eq!(decode_rgb64(b"AQID*QID"), Err(DecodeError::Malformed));
    assert_eq!(decode_rgb64(b"AQID\n"), Err(DecodeError::Malformed));
}

#[test]
fn frames_in_both_pixel_formats() {
    let cells = [Color(1, 2, 3), Color(0xAA, 0xBB, 0xCC)];
    assert_eq!(encode_frame(PixelFormat::Rgb24, &cells), vec![1, 2, 3, 0xAA, 0xBB, 0xCC]);
    assert_eq!(
        encode_frame(PixelFormat::Bgrx32, &cells),
        vec![3, 2, 1, 0, 0xCC, 0xBB, 0xAA, 0]
    );
    assert_eq!(encode_frame(PixelFormat::Rgb24, &[]), Vec::<u8>::new());
}
