//! Integer parts of the globe renderer.
use vstd::prelude::*;

verus! {

/// Brightness of the background star at pixel `(col, prow)`: a hash of the
/// position; about one pixel in nineteen is a star of brightness 120–247.
pub open spec fn star_brightness(col: u32, prow: u32) -> u8 {
    let h = col.wrapping_mul(0x9E37_79B9) ^ prow.wrapping_mul(0x6C62_272E);
    if h > 0xF200_0000 { (120 + (h & 0x7F)) as u8 } else { 0 }
}

/// Star-field luminance of a background pixel (0 = no star).
pub fn star_luminance(col: u32, prow: u32) -> (l: u8)
    ensures
        l == star_brightness(col, prow),
{
    let h = col.wrapping_mul(0x9E37_79B9) ^ prow.wrapping_mul(0x6C62_272E);
    if h > 0xF200_0000 {
        assert((h & 0x7F) <= 0x7F) by (bit_vector);
        (120 + (h & 0x7F)) as u8
    } else {
        0
    }
}

} // verus!
