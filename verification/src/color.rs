//! Colour byte formats: the six-character hexadecimal form that colours are
//! written in, and the 48-bit big-endian form that pixels are stored in.

use vstd::prelude::*;
use vstd::string::StringSliceAdditionalSpecFns;

verus! {

/// A colour as written: three 8-bit channels.
#[derive(Clone, Copy, Debug, PartialEq, Eq, Structural)]
pub struct Rgb8 {
    pub r: u8,
    pub g: u8,
    pub b: u8,
}

/// A colour as stored: three 16-bit channels.
#[derive(Clone, Copy, Debug, PartialEq, Eq, Structural)]
pub struct Rgb16 {
    pub r: u16,
    pub g: u16,
    pub b: u16,
}

/// The value of a hexadecimal digit, in either case.
pub open spec fn hex_value(c: u8) -> Option<u8> {
    if 0x30 <= c <= 0x39 {
        Some((c - 0x30) as u8)
    } else if 0x61 <= c <= 0x66 {
        Some((c - 0x61 + 10) as u8)
    } else if 0x41 <= c <= 0x46 {
        Some((c - 0x41 + 10) as u8)
    } else {
        None
    }
}

/// The value of one channel, written in two characters: two hexadecimal
/// digits, or a plus sign and one digit.
pub open spec fn channel_value(first: u8, second: u8) -> Option<u8> {
    match hex_value(second) {
        None => None,
        Some(low) => if first == 0x2b {
            Some(low)
        } else {
            match hex_value(first) {
                None => None,
                Some(high) => Some((16 * high + low) as u8),
            }
        },
    }
}

/// The colour that six bytes spell, red first; anything else spells none.
pub open spec fn parse_rgb(bytes: Seq<u8>) -> Option<Rgb8> {
    if bytes.len() != 6 {
        None
    } else {
        match (
            channel_value(bytes[0], bytes[1]),
            channel_value(bytes[2], bytes[3]),
            channel_value(bytes[4], bytes[5]),
        ) {
            (Some(r), Some(g), Some(b)) => Some(Rgb8 { r, g, b }),
            _ => None,
        }
    }
}

/// The two bytes of a 16-bit channel, high byte first.
pub open spec fn channel_bytes(v: u16) -> Seq<u8> {
    seq![(v / 256) as u8, (v % 256) as u8]
}

/// The six bytes of a stored colour: red, green, blue, each high byte first.
pub open spec fn pixel_bytes(c: Rgb16) -> Seq<u8> {
    channel_bytes(c.r) + channel_bytes(c.g) + channel_bytes(c.b)
}

/// The channel that two bytes hold, high byte first.
pub open spec fn channel_of(high: u8, low: u8) -> u16 {
    (256 * high + low) as u16
}

fn hex_digit(c: u8) -> (r: Option<u8>)
    ensures
        r == hex_value(c),
{
    if 0x30 <= c && c <= 0x39 {
        Some(c - 0x30)
    } else if 0x61 <= c && c <= 0x66 {
        Some(c - 0x61 + 10)
    } else if 0x41 <= c && c <= 0x46 {
        Some(c - 0x41 + 10)
    } else {
        None
    }
}

fn parse_channel(first: u8, second: u8) -> (r: Option<u8>)
    ensures
        r == channel_value(first, second),
{
    match hex_digit(second) {
        None => None,
        Some(low) => {
            if first == 0x2b {
                Some(low)
            } else {
                match hex_digit(first) {
                    None => None,
                    Some(high) => Some(16 * high + low),
                }
            }
        },
    }
}

impl Rgb8 {
    /// Reads a colour from the six bytes of its written form.
    pub fn from_bytes(bytes: &[u8]) -> (r: Option<Rgb8>)
        ensures
            r == parse_rgb(bytes@),
    {
        if bytes.len() != 6 {
            return None;
        }
        let r = parse_channel(bytes[0], bytes[1]);
        let g = parse_channel(bytes[2], bytes[3]);
        let b = parse_channel(bytes[4], bytes[5]);
        match (r, g, b) {
            (Some(r), Some(g), Some(b)) => Some(Rgb8 { r, g, b }),
            _ => None,
        }
    }

    /// Reads a colour from its written form, such as `"87ceeb"`.
    pub fn from_str(v: &str) -> (r: Option<Rgb8>)
        ensures
            r == parse_rgb(v.spec_bytes()),
    {
        Rgb8::from_bytes(v.as_bytes())
    }
}

impl Rgb16 {
    /// The stored form of the colour: six bytes, each channel high byte first.
    pub fn to_48_u8(&self) -> (out: [u8; 6])
        ensures
            out@ == pixel_bytes(*self),
    {
        let (r, g, b): (u16, u16, u16) = (self.r, self.g, self.b);
        assert(r >> 8 == r / 256 && (r & 0xff) == r % 256) by (bit_vector);
        assert(g >> 8 == g / 256 && (g & 0xff) == g % 256) by (bit_vector);
        assert(b >> 8 == b / 256 && (b & 0xff) == b % 256) by (bit_vector);
        let out: [u8; 6] = [
            (r >> 8) as u8,
            (r & 0xff) as u8,
            (g >> 8) as u8,
            (g & 0xff) as u8,
            (b >> 8) as u8,
            (b & 0xff) as u8,
        ];
        assert(out@ =~= pixel_bytes(*self));
        out
    }
}

/// Storing loses nothing: every channel is read back from its two bytes.
pub proof fn lemma_pixel_bytes_read_back(c: Rgb16)
    ensures
        pixel_bytes(c).len() == 6,
        channel_of(pixel_bytes(c)[0], pixel_bytes(c)[1]) == c.r,
        channel_of(pixel_bytes(c)[2], pixel_bytes(c)[3]) == c.g,
        channel_of(pixel_bytes(c)[4], pixel_bytes(c)[5]) == c.b,
{
}

} // verus!
