//! Encodings of the whole canvas as one payload. `rgb64` is the base64 text of
//! the packed red, green and blue bytes of every pixel in row-major order:
//! three bytes make four characters, so a pixel is never split and the text
//! needs no padding.

use vstd::prelude::*;
use crate::color::Color;

verus! {

/// The base64 character of a six-bit value: `A`-`Z`, `a`-`z`, `0`-`9`, `+`, `/`.
pub open spec fn sextet_byte(v: u8) -> u8 {
    if v < 26 {
        (0x41 + v) as u8
    } else if v < 52 {
        (0x61 + v - 26) as u8
    } else if v < 62 {
        (0x30 + v - 52) as u8
    } else if v == 62 {
        0x2B
    } else {
        0x2F
    }
}

/// The six-bit value of a base64 character.
pub open spec fn sextet_of(b: u8) -> Option<u8> {
    if 0x41 <= b <= 0x5A {
        Some((b - 0x41) as u8)
    } else if 0x61 <= b <= 0x7A {
        Some((b - 0x61 + 26) as u8)
    } else if 0x30 <= b <= 0x39 {
        Some((b - 0x30 + 52) as u8)
    } else if b == 0x2B {
        Some(62)
    } else if b == 0x2F {
        Some(63)
    } else {
        None
    }
}

/// Whether a byte may stand in an encoded payload: a base64 character or the
/// padding sign `=`.
pub open spec fn is_payload_byte(b: u8) -> bool {
    sextet_of(b) is Some || b == 0x3D
}

/// Whether a byte string can be the payload of a state response.
pub open spec fn is_payload(s: Seq<u8>) -> bool {
    forall|i: int| 0 <= i < s.len() ==> is_payload_byte(#[trigger] s[i])
}

/// The four characters of one pixel.
pub open spec fn pixel_text(c: Color) -> Seq<u8> {
    seq![
        sextet_byte(c.0 / 4),
        sextet_byte(((c.0 % 4) * 16 + c.1 / 16) as u8),
        sextet_byte(((c.1 % 16) * 4 + c.2 / 64) as u8),
        sextet_byte(c.2 % 64),
    ]
}

/// The pixel that four six-bit values hold.
pub open spec fn pixel_of_sextets(a: u8, b: u8, c: u8, d: u8) -> Color {
    Color(
        (a * 4 + b / 16) as u8,
        ((b % 16) * 16 + c / 4) as u8,
        ((c % 4) * 64 + d) as u8,
    )
}

/// The `rgb64` text of a sequence of pixels.
pub open spec fn rgb64_text(pixels: Seq<Color>) -> Seq<u8> {
    Seq::new(4 * pixels.len(), |j: int| pixel_text(pixels[j / 4])[j % 4])
}

/// Whether a text is `rgb64`: base64 characters only, four for each pixel.
pub open spec fn is_rgb64(text: Seq<u8>) -> bool {
    text.len() % 4 == 0 && forall|j: int| 0 <= j < text.len() ==> sextet_of(#[trigger] text[j])
        is Some
}

/// The pixels that an `rgb64` text holds.
pub open spec fn rgb64_pixels(text: Seq<u8>) -> Option<Seq<Color>> {
    if is_rgb64(text) {
        Some(
            Seq::new(
                text.len() / 4,
                |i: int|
                    pixel_of_sextets(
                        sextet_of(text[4 * i]).unwrap(),
                        sextet_of(text[4 * i + 1]).unwrap(),
                        sextet_of(text[4 * i + 2]).unwrap(),
                        sextet_of(text[4 * i + 3]).unwrap(),
                    ),
            ),
        )
    } else {
        None
    }
}

/// Why a payload could not be decoded.
#[derive(Clone, Copy, Debug, PartialEq, Eq, Structural)]
pub enum DecodeError {
    /// The payload is not `rgb64` text.
    Malformed,
}

/// The base64 character of a six-bit value.
pub fn sextet_to_byte(v: u8) -> (b: u8)
    requires
        v < 64,
    ensures
        b == sextet_byte(v),
        sextet_of(b) == Some(v),
{
    if v < 26 {
        0x41 + v
    } else if v < 52 {
        0x61 + (v - 26)
    } else if v < 62 {
        0x30 + (v - 52)
    } else if v == 62 {
        0x2B
    } else {
        0x2F
    }
}

/// The six-bit value of a base64 character.
pub fn byte_to_sextet(b: u8) -> (r: Option<u8>)
    ensures
        r == sextet_of(b),
        r matches Some(v) ==> v < 64,
{
    if 0x41 <= b && b <= 0x5A {
        Some(b - 0x41)
    } else if 0x61 <= b && b <= 0x7A {
        Some(b - 0x61 + 26)
    } else if 0x30 <= b && b <= 0x39 {
        Some(b - 0x30 + 52)
    } else if b == 0x2B {
        Some(62)
    } else if b == 0x2F {
        Some(63)
    } else {
        None
    }
}

/// Encodes pixels as `rgb64` text.
pub fn encode_rgb64(pixels: &[Color]) -> (text: Vec<u8>)
    ensures
        text@ == rgb64_text(pixels@),
{
    let mut text: Vec<u8> = Vec::new();
    let mut i: usize = 0;
    while i < pixels.len()
        invariant
            i <= pixels@.len(),
            text@.len() == 4 * i,
            forall|j: int| 0 <= j < 4 * i ==> text@[j] == pixel_text(pixels@[j / 4])[j % 4],
        decreases pixels@.len() - i,
    {
        let c: Color = pixels[i];
        let ghost before = text@;
        text.push(sextet_to_byte(c.0 / 4));
        text.push(sextet_to_byte((c.0 % 4) * 16 + c.1 / 16));
        text.push(sextet_to_byte((c.1 % 16) * 4 + c.2 / 64));
        text.push(sextet_to_byte(c.2 % 64));
        proof {
            assert forall|j: int| 0 <= j < 4 * (i + 1) implies text@[j] == pixel_text(
                pixels@[j / 4],
            )[j % 4] by {
                if j < 4 * i {
                    assert(text@[j] == before[j]);
                } else {
                    assert(j / 4 == i);
                }
            }
        }
        i = i + 1;
    }
    assert(text@ =~= rgb64_text(pixels@));
    text
}

/// Decodes `rgb64` text into pixels.
pub fn decode_rgb64(text: &[u8]) -> (res: Result<Vec<Color>, DecodeError>)
    ensures
        match rgb64_pixels(text@) {
            Some(pixels) => res is Ok && res->Ok_0@ == pixels,
            None => res == Err::<Vec<Color>, DecodeError>(DecodeError::Malformed),
        },
{
    if text.len() % 4 != 0 {
        return Err(DecodeError::Malformed);
    }
    let count: usize = text.len() / 4;
    assert(4 * count == text@.len());
    let mut pixels: Vec<Color> = Vec::new();
    let mut i: usize = 0;
    while i < count
        invariant
            i <= count,
            4 * count == text@.len(),
            pixels@.len() == i,
            forall|j: int| 0 <= j < 4 * i ==> sextet_of(#[trigger] text@[j]) is Some,
            forall|k: int|
                0 <= k < i ==> #[trigger] pixels@[k] == pixel_of_sextets(
                    sextet_of(text@[4 * k]).unwrap(),
                    sextet_of(text@[4 * k + 1]).unwrap(),
                    sextet_of(text@[4 * k + 2]).unwrap(),
                    sextet_of(text@[4 * k + 3]).unwrap(),
                ),
        decreases count - i,
    {
        let a: Option<u8> = byte_to_sextet(text[4 * i]);
        let b: Option<u8> = byte_to_sextet(text[4 * i + 1]);
        let c: Option<u8> = byte_to_sextet(text[4 * i + 2]);
        let d: Option<u8> = byte_to_sextet(text[4 * i + 3]);
        match (a, b, c, d) {
            (Some(a), Some(b), Some(c), Some(d)) => {
                pixels.push(Color(a * 4 + b / 16, (b % 16) * 16 + c / 4, (c % 4) * 64 + d));
            },
            _ => {
                return Err(DecodeError::Malformed);
            },
        }
        i = i + 1;
    }
    proof {
        assert(text@.len() / 4 == count as int);
        assert(is_rgb64(text@));
        assert(pixels@ =~= rgb64_pixels(text@).unwrap());
    }
    Ok(pixels)
}

/// Every six-bit value is the value of its character.
pub proof fn lemma_sextet_round_trip(v: u8)
    requires
        v < 64,
    ensures
        sextet_of(sextet_byte(v)) == Some(v),
{
}

/// Three bytes cut into four six-bit values and put together again are the
/// same three bytes.
proof fn lemma_regroup(r: int, g: int, b: int)
    requires
        0 <= r < 256,
        0 <= g < 256,
        0 <= b < 256,
    ensures
        r / 4 < 64,
        (r % 4) * 16 + g / 16 < 64,
        (g % 16) * 4 + b / 64 < 64,
        b % 64 < 64,
        (r / 4) * 4 + ((r % 4) * 16 + g / 16) / 16 == r,
        (((r % 4) * 16 + g / 16) % 16) * 16 + ((g % 16) * 4 + b / 64) / 4 == g,
        (((g % 16) * 4 + b / 64) % 4) * 64 + b % 64 == b,
{
}

/// The pixel that the four characters of a pixel hold is that pixel.
pub proof fn lemma_pixel_text_round_trip(c: Color)
    ensures
        sextet_of(pixel_text(c)[0]) is Some,
        sextet_of(pixel_text(c)[1]) is Some,
        sextet_of(pixel_text(c)[2]) is Some,
        sextet_of(pixel_text(c)[3]) is Some,
        pixel_of_sextets(
            sextet_of(pixel_text(c)[0]).unwrap(),
            sextet_of(pixel_text(c)[1]).unwrap(),
            sextet_of(pixel_text(c)[2]).unwrap(),
            sextet_of(pixel_text(c)[3]).unwrap(),
        ) == c,
{
    lemma_regroup(c.0 as int, c.1 as int, c.2 as int);
    let v0: u8 = c.0 / 4;
    let v1: u8 = ((c.0 % 4) * 16 + c.1 / 16) as u8;
    let v2: u8 = ((c.1 % 16) * 4 + c.2 / 64) as u8;
    let v3: u8 = c.2 % 64;
    lemma_sextet_round_trip(v0);
    lemma_sextet_round_trip(v1);
    lemma_sextet_round_trip(v2);
    lemma_sextet_round_trip(v3);
    assert(pixel_of_sextets(v0, v1, v2, v3) == c);
}

/// Decoding the `rgb64` text of any pixels gives the pixels back, and the
/// text is a payload that a state response can carry.
pub proof fn law_rgb64_round_trip(pixels: Seq<Color>)
    ensures
        rgb64_text(pixels).len() == 4 * pixels.len(),
        is_payload(rgb64_text(pixels)),
        rgb64_pixels(rgb64_text(pixels)) == Some(pixels),
{
    let text = rgb64_text(pixels);
    assert forall|j: int| 0 <= j < text.len() implies sextet_of(#[trigger] text[j]) is Some by {
        lemma_pixel_text_round_trip(pixels[j / 4]);
    }
    assert(is_rgb64(text));
    let decoded = rgb64_pixels(text).unwrap();
    assert forall|i: int| 0 <= i < pixels.len() implies decoded[i] == pixels[i] by {
        lemma_pixel_text_round_trip(pixels[i]);
        assert((4 * i) / 4 == i && (4 * i) % 4 == 0);
        assert((4 * i + 1) / 4 == i && (4 * i + 1) % 4 == 1);
        assert((4 * i + 2) / 4 == i && (4 * i + 2) % 4 == 2);
        assert((4 * i + 3) / 4 == i && (4 * i + 3) % 4 == 3);
    }
    assert(decoded =~= pixels);
}

} // verus!
