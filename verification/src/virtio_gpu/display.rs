//! Scanouts: the outputs a guest can attach a resource to.

use vstd::prelude::*;

verus! {

/// One display output and the resource shown on it.
#[derive(Debug, Clone, Copy, Default, PartialEq, Eq, Structural)]
pub struct Scanout {
    pub enabled: bool,
    pub resource_id: u32,
    pub width: u32,
    pub height: u32,
}

impl Scanout {
    /// A disabled scanout showing nothing.
    pub open spec fn disabled() -> Scanout {
        Scanout { enabled: false, resource_id: 0, width: 0, height: 0 }
    }

    pub fn off() -> (s: Scanout)
        ensures
            s == Self::disabled(),
    {
        Scanout { enabled: false, resource_id: 0, width: 0, height: 0 }
    }
}

/// The physical size, in centimetres, announced for `pixels` pixels at 96
/// pixels per centimetre: rounded to the nearest, halves up, at least 1 and
/// at most 255.
pub open spec fn edid_size_cm(pixels: u32) -> u8 {
    if pixels < 96 {
        1
    } else if (pixels + 48) / 96 > 255 {
        255
    } else {
        ((pixels + 48) / 96) as u8
    }
}

/// `pixels`, at most 4095.
pub open spec fn edid_active(pixels: u32) -> int {
    if pixels < 4095 {
        pixels as int
    } else {
        4095
    }
}

/// The first 127 bytes of the EDID block for a `width` x `height` display:
/// header, manufacturer and product, version 1.4, digital input, physical
/// size, gamma and features, and the active size in the first detailed timing.
pub open spec fn edid_body(width: u32, height: u32) -> Seq<u8> {
    Seq::new(
        127,
        |i: int|
            if 1 <= i <= 6 {
                0xffu8
            } else if i == 8 {
                0x4fu8
            } else if i == 9 {
                0x41u8
            } else if i == 10 {
                0x01u8
            } else if 16 <= i <= 18 {
                0x01u8
            } else if i == 19 {
                0x04u8
            } else if i == 21 {
                edid_size_cm(width)
            } else if i == 22 {
                edid_size_cm(height)
            } else if i == 23 {
                0x78u8
            } else if i == 24 {
                0x0au8
            } else if i == 25 {
                0xcfu8
            } else if i == 26 {
                0x74u8
            } else if i == 27 {
                0xa3u8
            } else if i == 56 {
                (edid_active(width) % 256) as u8
            } else if i == 57 {
                (edid_active(width) / 256) as u8
            } else if i == 58 {
                (edid_active(height) % 256) as u8
            } else if i == 59 {
                (edid_active(height) / 256) as u8
            } else {
                0u8
            },
    )
}

/// The sum of the bytes.
pub open spec fn byte_sum(s: Seq<u8>) -> nat
    decreases s.len(),
{
    if s.len() == 0 {
        0
    } else {
        byte_sum(s.drop_last()) + s.last() as nat
    }
}

/// The byte that makes the sum of `body` and itself a multiple of 256.
pub open spec fn checksum_byte(body: Seq<u8>) -> u8 {
    ((256 - byte_sum(body) % 256) % 256) as u8
}

/// The 128-byte EDID block: the body and its checksum.
pub open spec fn spec_edid_block(width: u32, height: u32) -> Seq<u8> {
    edid_body(width, height).push(checksum_byte(edid_body(width, height)))
}

/// The physical size in centimetres for `pixels` pixels.
fn size_cm(pixels: u32) -> (c: u8)
    ensures
        c == edid_size_cm(pixels),
{
    if pixels < 96 {
        1
    } else {
        let q = (pixels as u64 + 48) / 96;
        if q > 255 {
            255
        } else {
            q as u8
        }
    }
}

/// The EDID block describing a `width` x `height` display.
pub fn edid_block(width: u32, height: u32) -> (e: [u8; 128])
    ensures
        e@ == spec_edid_block(width, height),
{
    let mut e = [0u8; 128];
    let mut i: usize = 1;
    while i <= 6
        invariant
            1 <= i <= 7,
            forall|j: int| 0 <= j < 128 ==> e@[j] == (if 1 <= j < i { 0xffu8 } else { 0u8 }),
        decreases 7 - i,
    {
        e[i] = 0xff;
        i = i + 1;
    }
    e[8] = 0x4f;
    e[9] = 0x41;
    e[10] = 0x01;
    e[16] = 1;
    e[17] = 1;
    e[18] = 1;
    e[19] = 4;
    e[21] = size_cm(width);
    e[22] = size_cm(height);
    e[23] = 0x78;
    e[24] = 0x0a;
    e[25] = 0xcf;
    e[26] = 0x74;
    e[27] = 0xa3;
    let h: u32 = if width < 4095 { width } else { 4095 };
    let v: u32 = if height < 4095 { height } else { 4095 };
    e[56] = (h % 256) as u8;
    e[57] = (h / 256) as u8;
    e[58] = (v % 256) as u8;
    e[59] = (v / 256) as u8;
    assert(e@.subrange(0, 127) =~= edid_body(width, height));
    let mut acc: u32 = 0;
    let mut k: usize = 0;
    while k < 127
        invariant
            k <= 127,
            acc < 256,
            e@.subrange(0, 127) == edid_body(width, height),
            acc == byte_sum(e@.subrange(0, k as int)) % 256,
        decreases 127 - k,
    {
        proof {
            assert(e@.subrange(0, (k + 1) as int).drop_last() =~= e@.subrange(0, k as int));
        }
        acc = (acc + e[k] as u32) % 256;
        k = k + 1;
    }
    e[127] = ((256 - acc) % 256) as u8;
    assert(e@ =~= spec_edid_block(width, height));
    e
}

/// The bytes of an EDID block add up to a multiple of 256.
pub proof fn lemma_edid_checksum(width: u32, height: u32)
    ensures
        spec_edid_block(width, height).len() == 128,
        byte_sum(spec_edid_block(width, height)) % 256 == 0,
{
    let body = edid_body(width, height);
    let block = spec_edid_block(width, height);
    assert(block.drop_last() =~= body);
    let s = byte_sum(body);
    let t = s % 256;
    assert(s == 256 * (s / 256) + t) by {
        vstd::arithmetic::div_mod::lemma_fundamental_div_mod(s as int, 256);
    }
    if t == 0 {
        assert(checksum_byte(body) == 0);
    } else {
        assert(checksum_byte(body) == 256 - t);
        assert(byte_sum(block) == 256 * (s / 256 + 1));
        vstd::arithmetic::div_mod::lemma_mod_multiples_basic((s / 256 + 1) as int, 256);
    }
}

} // verus!
