//! Response structures and the rectangle shared by several requests.

use super::commands::{RESP_OK_DISPLAY_INFO, RESP_OK_MAP_INFO, RESP_OK_NODATA, RESP_OK_RESOURCE_UUID};
use super::header::CtrlHeader;
use super::wire::{
    get_u32, lemma_u32s_at_words_end, lemma_words, put_bytes, put_words, to_array, u32s_at, words,
};
use vstd::prelude::*;

verus! {

/// Number of scanouts a device can expose.
pub const MAX_SCANOUTS: usize = 16;

/// `virtio_gpu_rect`: 16 bytes on the wire.
#[derive(Clone, Copy, Debug, PartialEq, Eq, Default)]
pub struct Rect {
    pub x: u32,
    pub y: u32,
    pub width: u32,
    pub height: u32,
}

impl Rect {
    pub const SIZE: usize = 16;

    pub open spec fn spec_words(self) -> Seq<u32> {
        seq![self.x, self.y, self.width, self.height]
    }

    pub open spec fn spec_encode(self) -> Seq<u8> {
        words(self.spec_words())
    }

    /// The rectangle whose four words start at `off`.
    pub open spec fn spec_from_words(w: Seq<u32>) -> Rect {
        Rect { x: w[0], y: w[1], width: w[2], height: w[3] }
    }

    pub fn encode_le(self) -> (out: [u8; 16])
        ensures
            out@ == self.spec_encode(),
    {
        let mut v: Vec<u8> = Vec::new();
        let w = [self.x, self.y, self.width, self.height];
        put_words(&mut v, w.as_slice());
        proof {
            assert(w@ =~= self.spec_words());
            lemma_words(self.spec_words());
            assert(v@ =~= self.spec_encode());
        }
        to_array::<16>(&v)
    }

    /// Reads a rectangle from the first 16 bytes; `None` when fewer are given.
    pub fn decode_le(bytes: &[u8]) -> (r: Option<Self>)
        ensures
            r == (if bytes@.len() < 16 {
                None::<Rect>
            } else {
                Some(Self::spec_from_words(u32s_at(bytes@, 0, 4)))
            }),
    {
        if bytes.len() < 16 {
            return None;
        }
        Some(
            Rect {
                x: get_u32(bytes, 0),
                y: get_u32(bytes, 4),
                width: get_u32(bytes, 8),
                height: get_u32(bytes, 12),
            },
        )
    }

    /// Decoding the encoding of a rectangle gives it back.
    pub proof fn lemma_round_trip(self)
        ensures
            self.spec_encode().len() == 16,
            Self::spec_from_words(u32s_at(self.spec_encode(), 0, 4)) == self,
    {
        lemma_u32s_at_words_end(Seq::<u8>::empty(), self.spec_words());
        assert(Seq::<u8>::empty() + self.spec_encode() =~= self.spec_encode());
    }
}

/// `virtio_gpu_resp_ok_nodata`-style response: a bare header.
#[derive(Clone, Copy, Debug, PartialEq, Eq)]
pub struct RespOkNoData {
    pub header: CtrlHeader,
}

impl RespOkNoData {
    pub const SIZE: usize = 24;

    pub fn new() -> (r: Self)
        ensures
            r.header == CtrlHeader::spec_new(RESP_OK_NODATA),
    {
        RespOkNoData { header: CtrlHeader::new(RESP_OK_NODATA) }
    }

    pub fn encode_le(self) -> (out: Vec<u8>)
        ensures
            out@ == self.header.spec_encode(),
    {
        let a = self.header.encode_le();
        let mut v: Vec<u8> = Vec::new();
        put_bytes(&mut v, a.as_slice());
        v
    }
}

/// `virtio_gpu_resp_map_info`: header, map info and padding.
#[derive(Clone, Copy, Debug, PartialEq, Eq)]
pub struct RespMapInfo {
    pub header: CtrlHeader,
    pub map_info: u32,
    pub padding: u32,
}

impl RespMapInfo {
    pub const SIZE: usize = 32;

    pub open spec fn spec_encode(self) -> Seq<u8> {
        self.header.spec_encode() + words(seq![self.map_info, self.padding])
    }

    pub fn encode_le(self) -> (out: Vec<u8>)
        ensures
            out@ == self.spec_encode(),
    {
        let a = self.header.encode_le();
        let mut v: Vec<u8> = Vec::new();
        put_bytes(&mut v, a.as_slice());
        let w = [self.map_info, self.padding];
        put_words(&mut v, w.as_slice());
        assert(w@ =~= seq![self.map_info, self.padding]);
        v
    }
}

/// `virtio_gpu_resp_resource_uuid`: header and 16 UUID bytes.
#[derive(Clone, Copy, Debug, PartialEq, Eq)]
pub struct RespResourceUuid {
    pub header: CtrlHeader,
    pub uuid: [u8; 16],
}

impl RespResourceUuid {
    pub const SIZE: usize = 40;

    pub open spec fn spec_encode(self) -> Seq<u8> {
        self.header.spec_encode() + self.uuid@
    }

    pub fn encode_le(self) -> (out: Vec<u8>)
        ensures
            out@ == self.spec_encode(),
    {
        let a = self.header.encode_le();
        let mut v: Vec<u8> = Vec::new();
        put_bytes(&mut v, a.as_slice());
        put_bytes(&mut v, self.uuid.as_slice());
        v
    }
}

/// `virtio_gpu_display_one`: the mode of one scanout, 24 bytes on the wire.
#[derive(Clone, Copy, Debug, PartialEq, Eq, Default)]
pub struct DisplayOne {
    pub rect: Rect,
    pub enabled: u32,
    pub flags: u32,
}

impl DisplayOne {
    pub const SIZE: usize = 24;

    /// Word `k` of the six words of this mode.
    pub open spec fn spec_word(self, k: int) -> u32 {
        if k == 0 {
            self.rect.x
        } else if k == 1 {
            self.rect.y
        } else if k == 2 {
            self.rect.width
        } else if k == 3 {
            self.rect.height
        } else if k == 4 {
            self.enabled
        } else {
            self.flags
        }
    }

    /// The mode stored in six words from `w[off]`.
    pub open spec fn spec_from_words(w: Seq<u32>, off: int) -> DisplayOne {
        DisplayOne {
            rect: Rect { x: w[off], y: w[off + 1], width: w[off + 2], height: w[off + 3] },
            enabled: w[off + 4],
            flags: w[off + 5],
        }
    }
}

/// `virtio_gpu_resp_display_info`: header and one mode per scanout.
#[derive(Clone, Copy, Debug, PartialEq, Eq)]
pub struct RespDisplayInfo {
    pub header: CtrlHeader,
    pub pmodes: [DisplayOne; 16],
}

impl RespDisplayInfo {
    pub const SIZE: usize = 408;

    /// The 96 words of the sixteen modes.
    pub open spec fn spec_words(self) -> Seq<u32> {
        Seq::new(96, |i: int| self.pmodes@[i / 6].spec_word(i % 6))
    }

    pub open spec fn spec_encode(self) -> Seq<u8> {
        self.header.spec_encode() + words(self.spec_words())
    }

    pub fn encode_le(self) -> (out: Vec<u8>)
        ensures
            out@ == self.spec_encode(),
            out@.len() == 408,
    {
        let mut w: Vec<u32> = Vec::new();
        let mut i: usize = 0;
        while i < 16
            invariant
                i <= 16,
                w@ == self.spec_words().subrange(0, 6 * i as int),
            decreases 16 - i,
        {
            let d = self.pmodes[i];
            w.push(d.rect.x);
            w.push(d.rect.y);
            w.push(d.rect.width);
            w.push(d.rect.height);
            w.push(d.enabled);
            w.push(d.flags);
            proof {
                assert(w@ =~= self.spec_words().subrange(0, 6 * (i + 1) as int));
            }
            i = i + 1;
        }
        let a = self.header.encode_le();
        let mut v: Vec<u8> = Vec::new();
        put_bytes(&mut v, a.as_slice());
        put_words(&mut v, w.as_slice());
        proof {
            assert(w@ =~= self.spec_words());
            lemma_words(self.spec_words());
            self.header.lemma_round_trip();
        }
        v
    }

    /// Reads a display-info response; `None` when fewer than 408 bytes are given.
    pub fn decode_le(bytes: &[u8]) -> (r: Option<Self>)
        ensures
            bytes@.len() < 408 ==> r is None,
            bytes@.len() >= 408 ==> (r matches Some(d) && d.header == CtrlHeader::spec_parse(bytes@)
                && forall|k: int|
                0 <= k < 16 ==> #[trigger] d.pmodes@[k] == DisplayOne::spec_from_words(
                    u32s_at(bytes@, 24, 96),
                    6 * k,
                )),
    {
        if bytes.len() < 408 {
            return None;
        }
        let header = CtrlHeader::decode_le(bytes).unwrap();
        let zero = DisplayOne { rect: Rect { x: 0, y: 0, width: 0, height: 0 }, enabled: 0, flags: 0 };
        let mut pmodes = [zero; 16];
        let mut i: usize = 0;
        while i < 16
            invariant
                i <= 16,
                bytes@.len() >= 408,
                forall|k: int|
                    0 <= k < i ==> #[trigger] pmodes@[k] == DisplayOne::spec_from_words(
                        u32s_at(bytes@, 24, 96),
                        6 * k,
                    ),
            decreases 16 - i,
        {
            let off = 24 + 24 * i;
            let d = DisplayOne {
                rect: Rect {
                    x: get_u32(bytes, off),
                    y: get_u32(bytes, off + 4),
                    width: get_u32(bytes, off + 8),
                    height: get_u32(bytes, off + 12),
                },
                enabled: get_u32(bytes, off + 16),
                flags: get_u32(bytes, off + 20),
            };
            pmodes[i] = d;
            i = i + 1;
        }
        Some(RespDisplayInfo { header, pmodes })
    }
}

/// Bytes of EDID data a response carries.
pub const EDID_SIZE: usize = 1024;

/// `virtio_gpu_resp_edid`: header, EDID size, padding and the EDID bytes.
pub struct RespEdid {
    pub header: CtrlHeader,
    pub size: u32,
    pub padding: u32,
    pub edid: [u8; 1024],
}

impl RespEdid {
    pub const SIZE: usize = 1056;
}

} // verus!
