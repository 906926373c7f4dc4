use vstd::prelude::*;

verus! {

/// A colour with 8-bit red, green, blue and alpha channels; 0 is none of a
/// channel and 255 all of it.
#[derive(Clone, Copy, Debug, PartialEq, Eq, Structural)]
pub struct Color {
    pub r: u8,
    pub g: u8,
    pub b: u8,
    pub a: u8,
}

/// A channel value, limited to 255.
pub open spec fn clamp_channel(v: int) -> int {
    if v > 255 {
        255
    } else {
        v
    }
}

fn clamp_channel_exec(v: u32) -> (r: u8)
    ensures
        r == clamp_channel(v as int),
{
    if v > 255 {
        255
    } else {
        v as u8
    }
}

impl Color {
    /// Returns a colour with the given channels.
    pub fn new(r: u8, g: u8, b: u8, a: u8) -> (c: Color)
        ensures
            c.r == r && c.g == g && c.b == b && c.a == a,
    {
        Color { r, g, b, a }
    }

    /// Reads a colour written `0xRRGGBBAA`.
    pub fn from_hex(rgba: u32) -> (c: Color)
        ensures
            c.r == rgba / 0x100_0000,
            c.g == (rgba / 0x1_0000) % 0x100,
            c.b == (rgba / 0x100) % 0x100,
            c.a == rgba % 0x100,
    {
        let r = (rgba >> 24u32) as u8;
        let g = ((rgba >> 16u32) & 0xff) as u8;
        let b = ((rgba >> 8u32) & 0xff) as u8;
        let a = (rgba & 0xff) as u8;
        assert((rgba >> 24u32) == rgba / 0x100_0000) by (bit_vector);
        assert(((rgba >> 16u32) & 0xff) == (rgba / 0x1_0000) % 0x100) by (bit_vector);
        assert(((rgba >> 8u32) & 0xff) == (rgba / 0x100) % 0x100) by (bit_vector);
        assert((rgba & 0xff) == rgba % 0x100) by (bit_vector);
        Color { r, g, b, a }
    }

    /// An opaque colour from channel values; values above 255 count as 255.
    pub fn from_rgb(r: u32, g: u32, b: u32) -> (c: Color)
        ensures
            c.r == clamp_channel(r as int),
            c.g == clamp_channel(g as int),
            c.b == clamp_channel(b as int),
            c.a == 255,
    {
        Color { r: clamp_channel_exec(r), g: clamp_channel_exec(g), b: clamp_channel_exec(b), a: 255 }
    }

    /// A colour from channel values; values above 255 count as 255.
    pub fn from_rgba(r: u32, g: u32, b: u32, a: u32) -> (c: Color)
        ensures
            c.r == clamp_channel(r as int),
            c.g == clamp_channel(g as int),
            c.b == clamp_channel(b as int),
            c.a == clamp_channel(a as int),
    {
        Color {
            r: clamp_channel_exec(r),
            g: clamp_channel_exec(g),
            b: clamp_channel_exec(b),
            a: clamp_channel_exec(a),
        }
    }
}

/// Named colours, written `0xRRGGBBAA` for `Color::from_hex`.
pub const WHITE: u32 = 0xFFFF_FFFF;
pub const LIGHT_GRAY: u32 = 0xBFBF_BFFF;
pub const GRAY: u32 = 0x8080_80FF;
pub const DARK_GRAY: u32 = 0x4040_40FF;
pub const BLACK: u32 = 0x0000_00FF;
pub const CLEAR: u32 = 0x0000_0000;
pub const BLUE: u32 = 0x0000_FFFF;
pub const NAVY: u32 = 0x0000_80FF;
pub const ROYAL: u32 = 0x4169_E1FF;
pub const SLATE: u32 = 0x7080_90FF;
pub const SKY: u32 = 0x87CE_EBFF;
pub const CYAN: u32 = 0x00FF_FFFF;
pub const TEAL: u32 = 0x0080_80FF;
pub const GREEN: u32 = 0x00FF_00FF;
pub const CHARTREUSE: u32 = 0x7FFF_00FF;
pub const LIME: u32 = 0x32CD_32FF;
pub const FOREST: u32 = 0x228B_22FF;
pub const OLIVE: u32 = 0x6B8E_23FF;
pub const YELLOW: u32 = 0xFFFF_00FF;
pub const GOLD: u32 = 0xFFD7_00FF;
pub const GOLDENROD: u32 = 0xDAA5_20FF;
pub const ORANGE: u32 = 0xFFA5_00FF;
pub const BROWN: u32 = 0x8B45_13FF;
pub const TAN: u32 = 0xD2B4_8CFF;
pub const FIREBRICK: u32 = 0xB222_22FF;
pub const RED: u32 = 0xFF00_00FF;
pub const SCARLET: u32 = 0xFF34_1CFF;
pub const CORAL: u32 = 0xFF7F_50FF;
pub const SALMON: u32 = 0xFA80_72FF;
pub const PINK: u32 = 0xF69B_04FF;
pub const MAGENTA: u32 = 0xFF00_FFFF;
pub const PURPLE: u32 = 0xA020_F0FF;
pub const VIOLET: u32 = 0xEE82_EEFF;
pub const MAROON: u32 = 0xB030_60FF;

} // verus!
