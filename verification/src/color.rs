//! Colours as three bytes, with their packed 24-bit and fixed-point forms.
use vstd::prelude::*;
use crate::fixed::UNIT;
use crate::fixed::clamp_spec;
use crate::fixed::clamp_i32;

verus! {

/// An opaque RGB colour.
#[derive(Clone, Copy, Debug, PartialEq, Eq, Structural)]
pub struct Color {
    pub r: u8,
    pub g: u8,
    pub b: u8,
}

/// The packed form `0xRRGGBB` of three channel values.
pub open spec fn pack_rgb(r: int, g: int, b: int) -> int {
    r * 65536 + g * 256 + b
}

/// The red channel of a packed colour; bits above the low 24 are ignored.
pub open spec fn red_of(hex: int) -> int {
    (hex / 65536) % 256
}

/// The green channel of a packed colour.
pub open spec fn green_of(hex: int) -> int {
    (hex / 256) % 256
}

/// The blue channel of a packed colour.
pub open spec fn blue_of(hex: int) -> int {
    hex % 256
}

/// The byte that stands for a fixed-point intensity: the intensity is limited
/// to `[0, UNIT]`, scaled to `[0, 255]` and rounded down.
pub open spec fn channel_of_unit(c: int) -> int {
    clamp_spec(c, 0, UNIT as int) * 255 / (UNIT as int)
}

impl Color {
    /// The colour as a packed integer.
    pub open spec fn hex(self) -> int {
        pack_rgb(self.r as int, self.g as int, self.b as int)
    }

    /// The colour of three bytes.
    pub fn new(r: u8, g: u8, b: u8) -> (c: Color)
        ensures
            c == (Color { r, g, b }),
    {
        Color { r, g, b }
    }

    /// Black.
    pub fn black() -> (c: Color)
        ensures
            c == (Color { r: 0, g: 0, b: 0 }),
    {
        Color { r: 0, g: 0, b: 0 }
    }

    /// Unpacks `0xRRGGBB`.
    pub fn from_hex(hex: u32) -> (c: Color)
        ensures
            c.r == red_of(hex as int),
            c.g == green_of(hex as int),
            c.b == blue_of(hex as int),
    {
        let r: u32 = (hex >> 16) & 0xFF;
        let g: u32 = (hex >> 8) & 0xFF;
        let b: u32 = hex & 0xFF;
        assert(((hex >> 16) & 0xFF) == (hex / 65536) % 256) by (bit_vector);
        assert(((hex >> 8) & 0xFF) == (hex / 256) % 256) by (bit_vector);
        assert((hex & 0xFF) == hex % 256) by (bit_vector);
        Color { r: r as u8, g: g as u8, b: b as u8 }
    }

    /// Packs the colour as `0xRRGGBB`.
    pub fn to_hex(&self) -> (hex: u32)
        ensures
            hex == self.hex(),
            hex < 0x100_0000,
    {
        let r: u32 = self.r as u32;
        let g: u32 = self.g as u32;
        let b: u32 = self.b as u32;
        assert(((r << 16) | (g << 8) | b) == r * 65536 + g * 256 + b) by (bit_vector)
            requires
                r < 256,
                g < 256,
                b < 256,
        ;
        (r << 16) | (g << 8) | b
    }

    /// The colour of three fixed-point intensities, each limited to `[0, 1]`.
    pub fn from_unit(r: i32, g: i32, b: i32) -> (c: Color)
        ensures
            c.r == channel_of_unit(r as int),
            c.g == channel_of_unit(g as int),
            c.b == channel_of_unit(b as int),
    {
        let r8: i32 = clamp_i32(r, 0, UNIT) * 255 / UNIT;
        let g8: i32 = clamp_i32(g, 0, UNIT) * 255 / UNIT;
        let b8: i32 = clamp_i32(b, 0, UNIT) * 255 / UNIT;
        Color { r: r8 as u8, g: g8 as u8, b: b8 as u8 }
    }
}

/// Packing a colour and unpacking the result gives the colour back.
pub proof fn lemma_hex_round_trip(c: Color)
    ensures
        red_of(c.hex()) == c.r,
        green_of(c.hex()) == c.g,
        blue_of(c.hex()) == c.b,
{
}

/// Unpacking a packed colour and packing the channels again keeps the low 24
/// bits.
pub proof fn lemma_channels_repack(hex: u32)
    ensures
        pack_rgb(red_of(hex as int), green_of(hex as int), blue_of(hex as int)) == hex % 0x100_0000,
{
    assert(((hex / 65536) % 256) * 65536 + ((hex / 256) % 256) * 256 + hex % 256 == hex
        % 0x100_0000) by (bit_vector);
}

} // verus!
