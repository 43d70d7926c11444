//! 18-bit RGB colour values.
//!
//! A [`Color`] holds three channels of six bits each, the pixel format the
//! panel is driven in. Colours are made from 8-bit channels or from a packed
//! `0xRRGGBB` word, and are immutable afterwards.

use vstd::prelude::*;
use vstd::string::StringExecFns;
use crate::text::{append_decimal, decimal};

verus! {

/// Largest value of a 6-bit channel.
pub const CHANNEL_MAX: u8 = 0x3F;

/// Largest packed 24-bit colour.
pub const PACKED_MAX: u32 = 0xFF_FF_FF;

/// The 6-bit channel for an 8-bit one: `ch * 63 / 255`, rounded to the
/// nearest integer. No value of `ch` falls on a tie, see
/// [`lemma_six_bit_is_nearest`].
pub open spec fn six_bit(ch: u8) -> u8 {
    ((126 * (ch as int) + 255) / 510) as u8
}

/// The red byte of a packed `0xRRGGBB` word.
pub open spec fn packed_red(color: u32) -> u8 {
    ((color as int / 0x1_00_00) % 0x1_00) as u8
}

/// The green byte of a packed `0xRRGGBB` word.
pub open spec fn packed_green(color: u32) -> u8 {
    ((color as int / 0x1_00) % 0x1_00) as u8
}

/// The blue byte of a packed `0xRRGGBB` word.
pub open spec fn packed_blue(color: u32) -> u8 {
    (color as int % 0x1_00) as u8
}

/// The three channels of the colour made from 8-bit `r`, `g`, `b`.
pub open spec fn six_bit_rgb(r: u8, g: u8, b: u8) -> (u8, u8, u8) {
    (six_bit(r), six_bit(g), six_bit(b))
}

/// An 18-bit RGB colour: three channels, each in `0..=63`.
///
/// Its view is the triple `(red, green, blue)`.
#[derive(Clone, Copy, Debug, PartialEq, Eq, Structural)]
pub struct Color {
    r: u8,
    g: u8,
    b: u8,
}

impl View for Color {
    type V = (u8, u8, u8);

    closed spec fn view(&self) -> (u8, u8, u8) {
        (self.r, self.g, self.b)
    }
}

impl Color {
    #[verifier::type_invariant]
    spec fn channels_fit(self) -> bool {
        self.r <= CHANNEL_MAX && self.g <= CHANNEL_MAX && self.b <= CHANNEL_MAX
    }

    /// Colours with equal views are equal.
    pub proof fn lemma_view_is_injective(self, other: Color)
        requires
            self@ == other@,
        ensures
            self == other,
    {
    }

    pub fn black() -> (c: Color)
        ensures
            c@ == (0x00u8, 0x00u8, 0x00u8),
    {
        Color { r: 0x00, g: 0x00, b: 0x00 }
    }

    pub fn white() -> (c: Color)
        ensures
            c@ == (0x3Fu8, 0x3Fu8, 0x3Fu8),
    {
        Color { r: 0x3F, g: 0x3F, b: 0x3F }
    }

    pub fn red_color() -> (c: Color)
        ensures
            c@ == (0x3Fu8, 0x00u8, 0x00u8),
    {
        Color { r: 0x3F, g: 0x00, b: 0x00 }
    }

    pub fn green_color() -> (c: Color)
        ensures
            c@ == (0x00u8, 0x3Fu8, 0x00u8),
    {
        Color { r: 0x00, g: 0x3F, b: 0x00 }
    }

    pub fn blue_color() -> (c: Color)
        ensures
            c@ == (0x00u8, 0x00u8, 0x3Fu8),
    {
        Color { r: 0x00, g: 0x00, b: 0x3F }
    }

    pub fn cyan() -> (c: Color)
        ensures
            c@ == (0x00u8, 0x3Fu8, 0x1Fu8),
    {
        Color { r: 0x00, g: 0x3F, b: 0x1F }
    }

    pub fn magenta() -> (c: Color)
        ensures
            c@ == (0x1Fu8, 0x00u8, 0x1Fu8),
    {
        Color { r: 0x1F, g: 0x00, b: 0x1F }
    }

    pub fn yellow() -> (c: Color)
        ensures
            c@ == (0x3Fu8, 0x3Eu8, 0x00u8),
    {
        Color { r: 0x3F, g: 0x3E, b: 0x00 }
    }

    pub fn tan() -> (c: Color)
        ensures
            c@ == (0x1Du8, 0x10u8, 0x11u8),
    {
        Color { r: 0x1D, g: 0x10, b: 0x11 }
    }

    pub fn grey() -> (c: Color)
        ensures
            c@ == (0x13u8, 0x26u8, 0x11u8),
    {
        Color { r: 0x13, g: 0x26, b: 0x11 }
    }

    pub fn brown() -> (c: Color)
        ensures
            c@ == (0x10u8, 0x10u8, 0x01u8),
    {
        Color { r: 0x10, g: 0x10, b: 0x01 }
    }

    /// The colour nearest to the 8-bit-per-channel colour `(r, g, b)`.
    pub fn from_eight_bit_rgb(r: u8, g: u8, b: u8) -> (c: Color)
        ensures
            c@ == six_bit_rgb(r, g, b),
    {
        Color {
            r: Self::eight_to_six_bit(r),
            g: Self::eight_to_six_bit(g),
            b: Self::eight_to_six_bit(b),
        }
    }

    /// The colour nearest to the 8-bit-per-channel colour `(r, g, b)`: the
    /// short name of [`Color::from_eight_bit_rgb`].
    pub fn from_eight_bit(r: u8, g: u8, b: u8) -> (c: Color)
        ensures
            c@ == six_bit_rgb(r, g, b),
    {
        Self::from_eight_bit_rgb(r, g, b)
    }

    /// Converts a packed 24-bit colour (white is `0xFFFFFF`) to a `Color`.
    ///
    /// Fails, with a short message, exactly when `color` is above
    /// `0xFFFFFF`.
    pub fn from_24_bit(color: u32) -> (res: Result<Color, &'static str>)
        ensures
            res is Err <==> color > PACKED_MAX,
            res matches Err(msg) ==> msg@ == "color input too large"@,
            res matches Ok(c) ==> c@ == six_bit_rgb(
                packed_red(color),
                packed_green(color),
                packed_blue(color),
            ),
    {
        if color > PACKED_MAX {
            return Err("color input too large");
        }
        let r: u8 = (color / 0x1_00_00) as u8;
        let g: u8 = ((color / 0x1_00) % 0x1_00) as u8;
        let b: u8 = (color % 0x1_00) as u8;
        Ok(Self::from_eight_bit_rgb(r, g, b))
    }

    /// The red channel, in `0..=63`.
    pub fn red(&self) -> (r: u8)
        ensures
            r == self@.0,
            r <= CHANNEL_MAX,
    {
        proof {
            use_type_invariant(self);
        }
        self.r
    }

    /// The green channel, in `0..=63`.
    pub fn green(&self) -> (g: u8)
        ensures
            g == self@.1,
            g <= CHANNEL_MAX,
    {
        proof {
            use_type_invariant(self);
        }
        self.g
    }

    /// The blue channel, in `0..=63`.
    pub fn blue(&self) -> (b: u8)
        ensures
            b == self@.2,
            b <= CHANNEL_MAX,
    {
        proof {
            use_type_invariant(self);
        }
        self.b
    }

    /// Scales an 8-bit channel to six bits, rounding to nearest.
    pub fn eight_to_six_bit(input: u8) -> (out: u8)
        ensures
            out == six_bit(input),
            out <= CHANNEL_MAX,
    {
        let scaled: u32 = (126 * (input as u32) + 255) / 510;
        scaled as u8
    }

    /// The colour in human-readable form: `"(r, g, b)"`, in decimal.
    pub fn to_string(&self) -> (s: String)
        ensures
            s@ == color_text(self@),
    {
        let mut s = String::from_str("(");
        proof {
            reveal_strlit("(");
            reveal_strlit(", ");
            reveal_strlit(")");
        }
        append_decimal(&mut s, self.r as u16);
        s.append(", ");
        append_decimal(&mut s, self.g as u16);
        s.append(", ");
        append_decimal(&mut s, self.b as u16);
        s.append(")");
        assert(s@ =~= color_text(self@));
        s
    }
}

/// The text of a colour with the channels `c`: `"(r, g, b)"`.
pub open spec fn color_text(c: (u8, u8, u8)) -> Seq<char> {
    seq!['('] + decimal(c.0 as nat) + seq![',', ' '] + decimal(c.1 as nat) + seq![',', ' ']
        + decimal(c.2 as nat) + seq![')']
}

/// Rounding is to the nearest: the 6-bit channel lies less than one half
/// from `ch * 63 / 255`, so no 8-bit value falls on a tie.
pub proof fn lemma_six_bit_is_nearest(ch: u8)
    ensures
        six_bit(ch) <= CHANNEL_MAX,
        -255 < 2 * (255 * six_bit(ch) - 63 * ch) < 255,
{
    let q = (126 * (ch as int) + 255) / 510;
    assert(0 <= q <= 63);
    assert(510 * q <= 126 * (ch as int) + 255 < 510 * q + 510);
    assert((126 * (ch as int) + 255) % 2 == 1);
}

/// The ends of the range map to the ends: black stays black and full
/// intensity stays full intensity.
pub proof fn lemma_six_bit_ends()
    ensures
        six_bit(0) == 0,
        six_bit(255) == CHANNEL_MAX,
{
}

/// A brighter 8-bit channel never gives a darker 6-bit one.
pub proof fn lemma_six_bit_is_monotonic(a: u8, b: u8)
    requires
        a <= b,
    ensures
        six_bit(a) <= six_bit(b),
{
}

/// The packed `0xRRGGBB` word of the bytes `r`, `g` and `b`.
pub open spec fn packed(r: u8, g: u8, b: u8) -> u32 {
    (r as int * 0x1_00_00 + g as int * 0x1_00 + b as int) as u32
}

/// Colour round trip. The word packed from three bytes is accepted, and
/// converting it gives, channel for channel, what converting the three
/// bytes gives.
pub proof fn lemma_packed_round_trip(r: u8, g: u8, b: u8)
    ensures
        packed(r, g, b) <= PACKED_MAX,
        packed_red(packed(r, g, b)) == r,
        packed_green(packed(r, g, b)) == g,
        packed_blue(packed(r, g, b)) == b,
        six_bit_rgb(
            packed_red(packed(r, g, b)),
            packed_green(packed(r, g, b)),
            packed_blue(packed(r, g, b)),
        ) == six_bit_rgb(r, g, b),
{
}

/// Every word that is accepted is the packed word of its three bytes.
pub proof fn lemma_packed_is_onto(color: u32)
    requires
        color <= PACKED_MAX,
    ensures
        packed(packed_red(color), packed_green(color), packed_blue(color)) == color,
{
}

} // verus!
