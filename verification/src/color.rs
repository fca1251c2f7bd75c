//! Colours as they are stored in an image: three bytes per pixel.

use vstd::prelude::*;
use crate::scalar::{is_greater_than_zero, is_nan, is_nearer, is_negative, is_positive, lemma_order_of_bits};
use vstd::string::StringSliceAdditionalSpecFns;

verus! {

/// A colour with eight bits per channel.
#[derive(Clone, Copy, Debug, PartialEq, Eq, Structural)]
pub struct Rgb8 {
    pub r: u8,
    pub g: u8,
    pub b: u8,
}

impl Rgb8 {
    /// The bytes of the colour in the order they are stored: red, green,
    /// blue.
    pub open spec fn bytes(self) -> Seq<u8> {
        seq![self.r, self.g, self.b]
    }

    /// Channel `k` of the colour: 0 is red, 1 is green, anything else blue.
    pub open spec fn channel(self, k: int) -> u8 {
        if k == 0 {
            self.r
        } else if k == 1 {
            self.g
        } else {
            self.b
        }
    }
}

/// The pattern of the number one: a channel at full strength.
pub const ONE: u64 = 0x3ff0_0000_0000_0000;

/// A channel clamped to the range from zero to one: zero for what is zero,
/// negative or no number, one for what is greater than one, and the channel
/// itself in between.
pub open spec fn clipped(channel: u64) -> u64 {
    if !is_positive(channel) {
        0
    } else if channel > ONE {
        ONE
    } else {
        channel
    }
}

/// Clamps a channel, given as the bit pattern of a double, to the range from
/// zero to one.
pub fn clip(x: u64) -> (channel: u64)
    ensures
        channel == clipped(x),
{
    if !is_greater_than_zero(x) {
        0
    } else if x > ONE {
        ONE
    } else {
        x
    }
}

/// A clamped channel is a number from zero to one, clamping it again changes
/// nothing, and a channel that is such a number already, other than a zero
/// with the sign bit set, is left as it is.
pub proof fn lemma_clipped_range(x: u64)
    ensures
        !is_negative(clipped(x)),
        !is_nan(clipped(x)),
        !is_nearer(ONE, clipped(x)),
        clipped(clipped(x)) == clipped(x),
        !is_negative(x) && !is_nan(x) && !is_nearer(ONE, x) ==> clipped(x) == x,
{
    lemma_order_of_bits(ONE, clipped(x));
    if !is_negative(x) && !is_nan(x) {
        lemma_order_of_bits(ONE, x);
    }
}

/// Why a text is not a hex colour code.
#[derive(Clone, Copy, Debug, PartialEq, Eq, Structural)]
pub enum HexError {
    /// The text does not start with `#`, or is not seven bytes long.
    Shape,
    /// One of the three groups after the `#` is not a hexadecimal number.
    Digit,
}

/// The value of an ASCII hexadecimal digit, in either case; `None` for any
/// other byte.
pub open spec fn hex_digit(c: u8) -> Option<u8> {
    if 0x30 <= c <= 0x39 {
        Some((c - 0x30) as u8)
    } else if 0x41 <= c <= 0x46 {
        Some((c - 0x41 + 10) as u8)
    } else if 0x61 <= c <= 0x66 {
        Some((c - 0x61 + 10) as u8)
    } else {
        None
    }
}

/// The number that a row of hexadecimal digits writes, most significant
/// digit first; `None` if a byte of it is no digit.
pub open spec fn hex_value(digits: Seq<u8>) -> Option<nat>
    decreases digits.len(),
{
    if digits.len() == 0 {
        Some(0)
    } else {
        match (hex_value(digits.drop_last()), hex_digit(digits.last())) {
            (Some(high), Some(low)) => Some(16 * high + low as nat),
            _ => None,
        }
    }
}

/// The byte that `text` writes in hexadecimal: an optional `+`, then one or
/// more digits whose value is at most 255.
pub open spec fn hex_byte_of(text: Seq<u8>) -> Option<u8> {
    let digits = if text.len() > 0 && text[0] == 0x2b {
        text.subrange(1, text.len() as int)
    } else {
        text
    };
    hex_number_of(digits)
}

/// The byte that a row of one or more hexadecimal digits writes, if their
/// value is at most 255.
pub open spec fn hex_number_of(digits: Seq<u8>) -> Option<u8> {
    if digits.len() == 0 {
        None
    } else {
        match hex_value(digits) {
            Some(value) => if value <= 255 {
                Some(value as u8)
            } else {
                None
            },
            None => None,
        }
    }
}

/// The colour that `text` writes: `#`, then three groups of two bytes, each
/// a hexadecimal byte, for red, green and blue.
pub open spec fn hex_color_of(text: Seq<u8>) -> Result<Rgb8, HexError> {
    if text.len() != 7 || text[0] != 0x23 {
        Err(HexError::Shape)
    } else {
        match (
            hex_byte_of(text.subrange(1, 3)),
            hex_byte_of(text.subrange(3, 5)),
            hex_byte_of(text.subrange(5, 7)),
        ) {
            (Some(r), Some(g), Some(b)) => Ok(Rgb8 { r, g, b }),
            _ => Err(HexError::Digit),
        }
    }
}

/// A row of digits is worth at least as much as any of its beginnings, and
/// is no number if one of its beginnings is none.
pub proof fn lemma_hex_value_grows(digits: Seq<u8>, n: int)
    requires
        0 <= n <= digits.len(),
    ensures
        hex_value(digits) matches Some(value) ==> hex_value(digits.take(n)) matches Some(begin)
            && begin <= value,
    decreases digits.len(),
{
    if n == digits.len() {
        assert(digits.take(n) =~= digits);
    } else {
        lemma_hex_value_grows(digits.drop_last(), n);
        assert(digits.drop_last().take(n) =~= digits.take(n));
    }
}

fn digit_value(c: u8) -> (value: Option<u8>)
    ensures
        value == hex_digit(c),
        value matches Some(d) ==> d < 16,
{
    if 0x30 <= c && c <= 0x39 {
        Some(c - 0x30)
    } else if 0x41 <= c && c <= 0x46 {
        Some(c - 0x41 + 10)
    } else if 0x61 <= c && c <= 0x66 {
        Some(c - 0x61 + 10)
    } else {
        None
    }
}

/// Reads the bytes of `text` from `start` up to `end` as a hexadecimal byte.
fn hex_byte_between(text: &[u8], start: usize, end: usize) -> (byte: Option<u8>)
    requires
        start <= end <= text@.len(),
    ensures
        byte == hex_byte_of(text@.subrange(start as int, end as int)),
{
    let ghost group = text@.subrange(start as int, end as int);
    let first: usize = if start < end && text[start] == 0x2b {
        start + 1
    } else {
        start
    };
    let ghost digits = text@.subrange(first as int, end as int);
    proof {
        if first == start {
            assert(digits =~= group);
        } else {
            assert(digits =~= group.subrange(1, group.len() as int));
        }
    }
    if first == end {
        return None;
    }
    let mut value: u16 = 0;
    let mut at: usize = first;
    while at < end
        invariant
            start <= first <= at <= end <= text@.len(),
            first < end,
            digits == text@.subrange(first as int, end as int),
            hex_byte_of(text@.subrange(start as int, end as int)) == hex_number_of(digits),
            hex_value(digits.take(at - first)) == Some(value as nat),
            value <= 255,
        decreases end - at,
    {
        let ghost begin = digits.take(at - first + 1);
        proof {
            assert(begin.drop_last() =~= digits.take(at - first));
            assert(begin.last() == text@[at as int]);
            lemma_hex_value_grows(digits, at - first + 1);
        }
        match digit_value(text[at]) {
            Some(d) => {
                value = 16 * value + d as u16;
                if value > 255 {
                    return None;
                }
            },
            None => {
                return None;
            },
        }
        at += 1;
    }
    proof {
        assert(digits.take(at - first) =~= digits);
    }
    Some(value as u8)
}

/// Reads `h` as a hexadecimal byte: an optional `+`, then one or more
/// hexadecimal digits in either case, worth at most 255.
pub fn hex_byte(h: &str) -> (byte: Option<u8>)
    ensures
        byte == hex_byte_of(h.spec_bytes()),
{
    let text = h.as_bytes();
    let byte = hex_byte_between(text, 0, text.len());
    proof {
        assert(text@.subrange(0, text@.len() as int) =~= text@);
    }
    byte
}

/// Reads a colour code such as `#FFFFFF`: a `#` and three hexadecimal bytes
/// of two characters each, for red, green and blue.
pub fn hex_to_rgb(hexcode: &str) -> (color: Result<Rgb8, HexError>)
    ensures
        color == hex_color_of(hexcode.spec_bytes()),
{
    let text = hexcode.as_bytes();
    if text.len() != 7 || text[0] != 0x23 {
        return Err(HexError::Shape);
    }
    match (hex_byte_between(text, 1, 3), hex_byte_between(text, 3, 5), hex_byte_between(text, 5, 7)) {
        (Some(r), Some(g), Some(b)) => Ok(Rgb8 { r, g, b }),
        _ => Err(HexError::Digit),
    }
}

/// Appends the three bytes of `color` to `buffer`.
pub fn push_color(buffer: &mut Vec<u8>, color: &Rgb8)
    ensures
        final(buffer)@ == old(buffer)@ + color.bytes(),
{
    buffer.push(color.r);
    buffer.push(color.g);
    buffer.push(color.b);
    proof {
        assert(buffer@ =~= old(buffer)@ + color.bytes());
    }
}

} // verus!
