//! Colour packing used by the artwork colour extraction: a 15-bit
//! quantisation key and an opaque ARGB word.

use vstd::prelude::*;

verus! {

/// Number of bits kept per channel when quantising.
pub const QUANTIZE_BITS: u32 = 5;

/// The quantisation key of a colour: the top five bits of red, green and
/// blue, in that order from the most significant end.
pub fn quantize_color(r: u8, g: u8, b: u8) -> (k: u32)
    ensures
        k == (r as u32 / 8) * 1024 + (g as u32 / 8) * 32 + (b as u32 / 8),
        k < 32768,
{
    let rr = ((r as u32) >> (8 - QUANTIZE_BITS)) << (QUANTIZE_BITS * 2);
    let gg = ((g as u32) >> (8 - QUANTIZE_BITS)) << QUANTIZE_BITS;
    let bb = (b as u32) >> (8 - QUANTIZE_BITS);
    let (r32, g32, b32) = (r as u32, g as u32, b as u32);
    assert(rr == (r32 / 8) * 1024 && gg == (g32 / 8) * 32 && bb == b32 / 8 && (rr | gg | bb) == rr + gg + bb)
        by (bit_vector)
        requires
            r32 < 256,
            g32 < 256,
            b32 < 256,
            rr == (r32 >> 3u32) << 10u32,
            gg == (g32 >> 3u32) << 5u32,
            bb == b32 >> 3u32,
    ;
    rr | gg | bb
}

/// An opaque ARGB word of a colour.
pub fn rgb_to_argb(r: u8, g: u8, b: u8) -> (c: u32)
    ensures
        c == 0xFF00_0000u32 + (r as u32) * 65536 + (g as u32) * 256 + (b as u32),
{
    let (r32, g32, b32) = (r as u32, g as u32, b as u32);
    let c = 0xFF00_0000u32 | (r32 << 16u32) | (g32 << 8u32) | b32;
    assert(c == 0xFF00_0000u32 + r32 * 65536 + g32 * 256 + b32) by (bit_vector)
        requires
            r32 < 256,
            g32 < 256,
            b32 < 256,
            c == 0xFF00_0000u32 | (r32 << 16u32) | (g32 << 8u32) | b32,
    ;
    c
}

} // verus!
