//! Pixel encodings: the packed 5/6/5 code that the sensor emits and the
//! eight-bit-per-channel triple that the display consumes.

use vstd::prelude::*;

verus! {

/// One display pixel, eight bits for each channel.
#[derive(Clone, Copy, Debug, PartialEq, Eq, Structural)]
pub struct Rgb888 {
    pub red: u8,
    pub green: u8,
    pub blue: u8,
}

/// The five red bits of a packed pixel code, as a number below 32.
pub open spec fn red_field(pixel: u16) -> int {
    pixel as int / 2048
}

/// The six green bits of a packed pixel code, as a number below 64.
pub open spec fn green_field(pixel: u16) -> int {
    (pixel as int / 32) % 64
}

/// The five blue bits of a packed pixel code, as a number below 32.
pub open spec fn blue_field(pixel: u16) -> int {
    pixel as int % 32
}

/// The display triple of a packed pixel code: every field moves to the top
/// of its channel and the bits below it are zero.
pub open spec fn widen(pixel: u16) -> Rgb888 {
    Rgb888 {
        red: (red_field(pixel) * 8) as u8,
        green: (green_field(pixel) * 4) as u8,
        blue: (blue_field(pixel) * 8) as u8,
    }
}

/// The triple of a `0xRRGGBB` colour; the top eight bits are ignored.
pub open spec fn channels(color: u32) -> Rgb888 {
    Rgb888 {
        red: ((color as int / 65536) % 256) as u8,
        green: ((color as int / 256) % 256) as u8,
        blue: (color as int % 256) as u8,
    }
}

/// The 16-bit value whose most significant byte is `high`.
pub open spec fn join_bytes(high: u8, low: u8) -> u16 {
    (high as int * 256 + low as int) as u16
}

/// The two bytes of a 16-bit value, most significant first.
pub open spec fn split_bytes(value: u16) -> (u8, u8) {
    ((value as int / 256) as u8, (value as int % 256) as u8)
}

/// Converts one packed 5/6/5 pixel code to the display's triple.
pub fn rgb565_to_rgb888(pixel: u16) -> (rgb: Rgb888)
    ensures
        rgb == widen(pixel),
{
    let red: u16 = ((pixel >> 11) & 0x1F) << 3;
    let green: u16 = ((pixel >> 5) & 0x3F) << 2;
    let blue: u16 = (pixel & 0x1F) << 3;
    assert(red == (pixel / 2048) * 8 && red < 256) by (bit_vector)
        requires
            red == ((pixel >> 11) & 0x1F) << 3,
    ;
    assert(green == ((pixel / 32) % 64) * 4 && green < 256) by (bit_vector)
        requires
            green == ((pixel >> 5) & 0x3F) << 2,
    ;
    assert(blue == (pixel % 32) * 8 && blue < 256) by (bit_vector)
        requires
            blue == (pixel & 0x1F) << 3,
    ;
    Rgb888 { red: red as u8, green: green as u8, blue: blue as u8 }
}

/// Splits a `0xRRGGBB` colour into its three channels.
pub fn color_channels(color: u32) -> (rgb: Rgb888)
    ensures
        rgb == channels(color),
{
    let red: u32 = (color >> 16) & 0xFF;
    let green: u32 = (color >> 8) & 0xFF;
    let blue: u32 = color & 0xFF;
    assert(red == (color / 65536) % 256 && red < 256) by (bit_vector)
        requires
            red == (color >> 16) & 0xFF,
    ;
    assert(green == (color / 256) % 256 && green < 256) by (bit_vector)
        requires
            green == (color >> 8) & 0xFF,
    ;
    assert(blue == color % 256 && blue < 256) by (bit_vector)
        requires
            blue == color & 0xFF,
    ;
    Rgb888 { red: red as u8, green: green as u8, blue: blue as u8 }
}

/// Joins two bytes sampled one after the other, most significant first.
pub fn combine_bytes(high: u8, low: u8) -> (value: u16)
    ensures
        value == join_bytes(high, low),
{
    let value: u16 = ((high as u16) << 8) | (low as u16);
    assert(value == high * 256 + low) by (bit_vector)
        requires
            value == ((high as u16) << 8) | (low as u16),
    ;
    value
}

/// Splits a 16-bit value into the two bytes that go on the wire, most
/// significant first.
pub fn big_endian(value: u16) -> (bytes: (u8, u8))
    ensures
        bytes == split_bytes(value),
{
    let high: u16 = value >> 8;
    let low: u16 = value & 0xFF;
    assert(high == value / 256 && low == value % 256 && high < 256 && low < 256) by (bit_vector)
        requires
            high == value >> 8,
            low == value & 0xFF,
    ;
    (high as u8, low as u8)
}

/// Widening fills the low bits of every channel with zeros and keeps the
/// field above them, so no two pixel codes share a triple.
pub proof fn lemma_widen_zero_fills(pixel: u16)
    ensures
        widen(pixel).red as int == red_field(pixel) * 8,
        widen(pixel).green as int == green_field(pixel) * 4,
        widen(pixel).blue as int == blue_field(pixel) * 8,
        widen(pixel).red % 8 == 0,
        widen(pixel).green % 4 == 0,
        widen(pixel).blue % 8 == 0,
        pixel as int == (widen(pixel).red / 8) * 2048 + (widen(pixel).green / 4) * 32 + widen(
            pixel,
        ).blue / 8,
{
}

/// Joining and splitting are inverse to each other.
pub proof fn lemma_join_split(high: u8, low: u8, value: u16)
    ensures
        split_bytes(join_bytes(high, low)) == (high, low),
        join_bytes(split_bytes(value).0, split_bytes(value).1) == value,
{
}

} // verus!
