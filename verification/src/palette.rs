//! The quantizer: from a noise sample to one glyph of a small brightness palette.
//!
//! A sample is a fixed-point number with sixteen fractional bits, so `NOISE_ONE`
//! stands for 1.0 and the noise field ranges over `-NOISE_ONE ..= NOISE_ONE`. The
//! palette runs from the emptiest glyph, at index 0, to the fullest.

use vstd::prelude::*;
use crate::geometry::clamp;

verus! {

/// Number of glyphs in the palette.
pub const PALETTE_LEN: usize = 4;

/// The fixed-point sample that stands for the noise value 1.0.
pub const NOISE_ONE: i32 = 65536;

/// The palette, emptiest glyph first: space, `.`, `o`, `#`.
pub open spec fn palette() -> Seq<u8> {
    seq![32u8, 46u8, 111u8, 35u8]
}

/// The palette index of a sample: the sample is moved from `-1 ..= 1` to `0 ..= 1`,
/// scaled by the palette's length and rounded down; what falls outside the palette,
/// as the sample 1.0 itself does, is brought to the nearest end.
pub open spec fn quantize_index(value: int) -> int {
    clamp(
        ((value + NOISE_ONE) * PALETTE_LEN) / (2 * NOISE_ONE),
        0,
        PALETTE_LEN - 1,
    )
}

/// The glyph of a sample.
pub open spec fn quantize_glyph(value: int) -> u8 {
    palette()[quantize_index(value)]
}

/// A larger sample never gets an emptier glyph, every sample gets an index inside
/// the palette, and the two ends of the noise range get the two ends of the palette.
pub proof fn lemma_quantize_monotone(a: int, b: int)
    requires
        a <= b,
    ensures
        quantize_index(a) <= quantize_index(b),
        0 <= quantize_index(a) <= PALETTE_LEN - 1,
        a <= -NOISE_ONE ==> quantize_index(a) == 0,
        a >= NOISE_ONE ==> quantize_index(a) == PALETTE_LEN - 1,
{
    assert(PALETTE_LEN == 4 && NOISE_ONE == 65536);
    assert(((a + NOISE_ONE) * PALETTE_LEN) / (2 * NOISE_ONE) == (4 * a + 262144) / 131072);
    assert(((b + NOISE_ONE) * PALETTE_LEN) / (2 * NOISE_ONE) == (4 * b + 262144) / 131072);
}

/// Looks up the glyph at a palette index.
pub fn glyph_at_index(index: usize) -> (glyph: u8)
    requires
        index < PALETTE_LEN,
    ensures
        glyph == palette()[index as int],
{
    if index == 0 {
        32
    } else if index == 1 {
        46
    } else if index == 2 {
        111
    } else {
        35
    }
}

/// Computes the palette index of a sample.
pub fn quantize_level(value: i32) -> (index: usize)
    ensures
        index == quantize_index(value as int),
        index < PALETTE_LEN,
{
    let moved: i64 = value as i64 + NOISE_ONE as i64;
    let len: i64 = PALETTE_LEN as i64;
    let span: i64 = 2 * NOISE_ONE as i64;
    assert(moved * len == 4 * moved && span == 131072) by {
        assert(len == 4 && NOISE_ONE == 65536);
    }
    let shifted: i64 = moved * len;
    if shifted < 0 {
        0
    } else {
        let level: i64 = shifted / span;
        if level > PALETTE_LEN as i64 - 1 {
            PALETTE_LEN - 1
        } else {
            level as usize
        }
    }
}

/// Maps a sample to its glyph.
pub fn quantize(value: i32) -> (glyph: u8)
    ensures
        glyph == quantize_glyph(value as int),
{
    glyph_at_index(quantize_level(value))
}

} // verus!
