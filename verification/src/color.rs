//! Colors and their two representations: a packed machine word for storage and
//! hexadecimal text on the wire.

use vstd::prelude::*;

verus! {

/// The number of distinct cell words: colors occupy the low 24 bits.
pub const WORD_LIMIT: u32 = 0x100_0000;

/// A color of three 8-bit channels: red, green and blue.
#[derive(Clone, Copy, Debug, PartialEq, Eq, Hash, Structural)]
pub struct Color(pub u8, pub u8, pub u8);

impl Color {
    /// The word that stores this color: red in bits 23-16, green in bits 15-8,
    /// blue in bits 7-0, the upper eight bits zero.
    pub open spec fn word(self) -> u32 {
        (self.0 as u32 * 0x1_0000 + self.1 as u32 * 0x100 + self.2 as u32) as u32
    }

    /// The color that a word stores. The upper eight bits are ignored.
    pub open spec fn of_word(word: u32) -> Color {
        Color(((word / 0x1_0000) % 0x100) as u8, ((word / 0x100) % 0x100) as u8, (word % 0x100) as u8)
    }

    /// Packs the channels into one word.
    pub fn to_word(self) -> (word: u32)
        ensures
            word == self.word(),
            word < WORD_LIMIT,
    {
        self.0 as u32 * 0x1_0000 + self.1 as u32 * 0x100 + self.2 as u32
    }

    /// Unpacks the channels from the low 24 bits of a word.
    pub fn from_word(word: u32) -> (color: Color)
        ensures
            color == Color::of_word(word),
    {
        Color(((word / 0x1_0000) % 0x100) as u8, ((word / 0x100) % 0x100) as u8, (word % 0x100) as u8)
    }
}

impl Default for Color {
    /// Black, the value of every cell of a fresh canvas.
    fn default() -> (color: Color)
        ensures
            color == Color(0, 0, 0),
    {
        Color(0, 0, 0)
    }
}

/// Unpacking a packed color gives the color back.
pub proof fn law_word_round_trip(color: Color)
    ensures
        Color::of_word(color.word()) == color,
        color.word() < WORD_LIMIT,
{
}

/// Packing an unpacked word gives its low 24 bits back.
pub proof fn law_color_of_word(word: u32)
    ensures
        Color::of_word(word).word() == word % WORD_LIMIT,
{
}

/// The value of a hexadecimal digit, upper or lower case.
pub open spec fn hex_value(b: u8) -> Option<u8> {
    if 0x30 <= b <= 0x39 {
        Some((b - 0x30) as u8)
    } else if 0x41 <= b <= 0x46 {
        Some((b - 0x41 + 10) as u8)
    } else if 0x61 <= b <= 0x66 {
        Some((b - 0x61 + 10) as u8)
    } else {
        None
    }
}

/// The upper-case hexadecimal digit of a value below sixteen.
pub open spec fn hex_digit(v: u8) -> u8 {
    if v < 10 {
        (0x30 + v) as u8
    } else {
        (0x41 + v - 10) as u8
    }
}

/// Whether every byte is a hexadecimal digit.
pub open spec fn is_hex(s: Seq<u8>) -> bool {
    forall|i: int| 0 <= i < s.len() ==> hex_value(#[trigger] s[i]) is Some
}

/// The channel that two hexadecimal digits denote.
pub open spec fn hex_pair(high: u8, low: u8) -> u8 {
    (hex_value(high).unwrap() * 16 + hex_value(low).unwrap()) as u8
}

/// The wire text of a color: six upper-case hexadecimal digits, two for each
/// of red, green and blue.
pub open spec fn color_text(c: Color) -> Seq<u8> {
    seq![
        hex_digit(c.0 / 16),
        hex_digit(c.0 % 16),
        hex_digit(c.1 / 16),
        hex_digit(c.1 % 16),
        hex_digit(c.2 / 16),
        hex_digit(c.2 % 16),
    ]
}

/// The color that a field denotes: six hexadecimal digits in either case, or
/// eight, of which the last two (an alpha channel) are ignored.
pub open spec fn color_of_text(s: Seq<u8>) -> Option<Color> {
    if (s.len() == 6 || s.len() == 8) && is_hex(s) {
        Some(Color(hex_pair(s[0], s[1]), hex_pair(s[2], s[3]), hex_pair(s[4], s[5])))
    } else {
        None
    }
}

/// Reads one hexadecimal digit.
pub fn parse_hex_digit(b: u8) -> (r: Option<u8>)
    ensures
        r == hex_value(b),
{
    if 0x30 <= b && b <= 0x39 {
        Some(b - 0x30)
    } else if 0x41 <= b && b <= 0x46 {
        Some(b - 0x41 + 10)
    } else if 0x61 <= b && b <= 0x66 {
        Some(b - 0x61 + 10)
    } else {
        None
    }
}

/// Appends the two upper-case hexadecimal digits of a channel.
pub fn push_hex_channel(out: &mut Vec<u8>, channel: u8)
    ensures
        final(out)@ == old(out)@ + seq![hex_digit(channel / 16), hex_digit(channel % 16)],
{
    let high: u8 = channel / 16;
    let low: u8 = channel % 16;
    out.push(if high < 10 { 0x30 + high } else { 0x41 + high - 10 });
    out.push(if low < 10 { 0x30 + low } else { 0x41 + low - 10 });
    assert(out@ =~= old(out)@ + seq![hex_digit(channel / 16), hex_digit(channel % 16)]);
}

impl Color {
    /// Reads a color from its wire text.
    pub fn parse_hex(field: &[u8]) -> (res: Option<Color>)
        ensures
            res == color_of_text(field@),
    {
        if field.len() != 6 && field.len() != 8 {
            return None;
        }
        let mut values: Vec<u8> = Vec::new();
        let mut i: usize = 0;
        while i < field.len()
            invariant
                i <= field@.len(),
                values@.len() == i,
                forall|j: int| 0 <= j < i ==> hex_value(#[trigger] field@[j]) == Some(values@[j]),
            decreases field@.len() - i,
        {
            match parse_hex_digit(field[i]) {
                None => {
                    return None;
                },
                Some(v) => {
                    values.push(v);
                },
            }
            i = i + 1;
        }
        Some(
            Color(
                values[0] * 16 + values[1],
                values[2] * 16 + values[3],
                values[4] * 16 + values[5],
            ),
        )
    }

    /// Appends the wire text of this color.
    pub fn push_hex(&self, out: &mut Vec<u8>)
        ensures
            final(out)@ == old(out)@ + color_text(*self),
    {
        push_hex_channel(out, self.0);
        push_hex_channel(out, self.1);
        push_hex_channel(out, self.2);
        assert(out@ =~= old(out)@ + color_text(*self));
    }
}

/// The wire text of a color is read back as that color, and it holds only
/// letters and digits.
pub proof fn law_color_text_round_trip(c: Color)
    ensures
        color_text(c).len() == 6,
        is_hex(color_text(c)),
        color_of_text(color_text(c)) == Some(c),
{
    let s = color_text(c);
    assert(hex_value(hex_digit(c.0 / 16)) == Some((c.0 / 16) as u8));
    assert(hex_value(hex_digit(c.0 % 16)) == Some((c.0 % 16) as u8));
    assert(hex_value(hex_digit(c.1 / 16)) == Some((c.1 / 16) as u8));
    assert(hex_value(hex_digit(c.1 % 16)) == Some((c.1 % 16) as u8));
    assert(hex_value(hex_digit(c.2 / 16)) == Some((c.2 / 16) as u8));
    assert(hex_value(hex_digit(c.2 % 16)) == Some((c.2 % 16) as u8));
    assert(is_hex(s));
}

/// An alpha suffix does not change the color read.
pub proof fn law_alpha_ignored(s: Seq<u8>, alpha: Seq<u8>)
    requires
        s.len() == 6,
        alpha.len() == 2,
        is_hex(s),
        is_hex(alpha),
    ensures
        color_of_text(s + alpha) == color_of_text(s),
{
    let t = s + alpha;
    assert forall|i: int| 0 <= i < t.len() implies hex_value(#[trigger] t[i]) is Some by {
        if i < 6 {
            assert(t[i] == s[i]);
        } else {
            assert(t[i] == alpha[i - 6]);
        }
    }
    assert(t[0] == s[0] && t[1] == s[1] && t[2] == s[2] && t[3] == s[3] && t[4] == s[4] && t[5]
        == s[5]);
}

} // verus!
