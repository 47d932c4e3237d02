//! What a window shows of a frame: its BGRA bytes as `0x00RRGGBB` pixels.

use vstd::prelude::*;

verus! {

/// The `0x00RRGGBB` value of the pixel whose bytes are blue, green, red.
pub open spec fn rgb_of(b: u8, g: u8, r: u8) -> u32 {
    ((r as u32) << 16) | ((g as u32) << 8) | (b as u32)
}

/// The pixels of BGRA bytes, four bytes each (alpha ignored); bytes past
/// the last whole pixel are left out.
pub open spec fn bgra_pixels(data: Seq<u8>) -> Seq<u32> {
    Seq::new(data.len() / 4, |i: int| rgb_of(data[4 * i], data[4 * i + 1], data[4 * i + 2]))
}

/// Converts BGRA bytes to `0x00RRGGBB` pixels.
pub fn bgra_to_rgb(data: &[u8]) -> (pixels: Vec<u32>)
    ensures
        pixels@ == bgra_pixels(data@),
{
    let total = data.len();
    let n = total / 4;
    let mut pixels: Vec<u32> = Vec::new();
    let mut i: usize = 0;
    while i < n
        invariant
            i <= n,
            total == data@.len(),
            n == total / 4,
            pixels@ == bgra_pixels(data@).subrange(0, i as int),
        decreases n - i,
    {
        assert(4 * i + 3 < total);
        let b = data[4 * i];
        let g = data[4 * i + 1];
        let r = data[4 * i + 2];
        pixels.push(((r as u32) << 16) | ((g as u32) << 8) | (b as u32));
        proof {
            assert(bgra_pixels(data@).subrange(0, i + 1) =~= bgra_pixels(data@).subrange(0, i as int).push(
                rgb_of(b, g, r),
            ));
        }
        i = i + 1;
    }
    proof {
        assert(bgra_pixels(data@).subrange(0, n as int) =~= bgra_pixels(data@));
    }
    pixels
}

} // verus!
