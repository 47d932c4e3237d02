//! Fixed-size requests of the 2D, 3D and cursor command sets.

use crate::virtio_gpu::protocol::commands::{
    CMD_GET_EDID, CMD_MOVE_CURSOR, CMD_RESOURCE_ASSIGN_UUID, CMD_RESOURCE_CREATE_3D,
    CMD_RESOURCE_DETACH_BACKING, CMD_RESOURCE_UNREF, CMD_SET_SCANOUT_BLOB, CMD_UPDATE_CURSOR,
};
use crate::virtio_gpu::protocol::header::{encode_header_words, lemma_header_words, CtrlHeader};
use crate::virtio_gpu::protocol::responses::Rect;
use crate::virtio_gpu::protocol::wire::{
    get_u32, get_u64, lemma_le_codec, lemma_prefix_subrange, lemma_u32s_at_words,
    lemma_u32s_at_words_end, lemma_u64_field, lemma_words, le64, put_bytes, put_u64, put_words,
    to_array, u32s_at, u64_at, words,
};
use vstd::prelude::*;

verus! {

/// `VIRTIO_GPU_CMD_RESOURCE_UNREF` request.
#[derive(Clone, Copy, Debug, PartialEq, Eq)]
pub struct ResourceUnref {
    pub header: CtrlHeader,
    pub resource_id: u32,
    pub padding: u32,
}

impl ResourceUnref {
    pub const SIZE: usize = 32;

    pub open spec fn spec_encode(self) -> Seq<u8> {
        self.header.spec_encode() + words(seq![self.resource_id, self.padding])
    }

    pub open spec fn spec_decode(s: Seq<u8>) -> Option<Self> {
        if s.len() < 32 || CtrlHeader::spec_parse(s).typ != CMD_RESOURCE_UNREF {
            None
        } else {
            let w = u32s_at(s, 24, 2);
            Some(ResourceUnref { header: CtrlHeader::spec_parse(s), resource_id: w[0], padding: w[1] })
        }
    }

    pub fn new(resource_id: u32) -> (r: Self)
        ensures
            r == (ResourceUnref { header: CtrlHeader::spec_new(CMD_RESOURCE_UNREF), resource_id, padding: 0 }),
    {
        ResourceUnref { header: CtrlHeader::new(CMD_RESOURCE_UNREF), resource_id, padding: 0 }
    }

    pub fn encode_le(self) -> (out: [u8; 32])
        ensures
            out@ == self.spec_encode(),
    {
        let w = [self.resource_id, self.padding];
        assert(w@ =~= seq![self.resource_id, self.padding]);
        let v = encode_header_words(self.header, w.as_slice());
        to_array::<32>(&v)
    }

    pub fn decode_le(bytes: &[u8]) -> (r: Option<Self>)
        ensures
            r == Self::spec_decode(bytes@),
    {
        if bytes.len() < 32 {
            return None;
        }
        let header = CtrlHeader::decode_le(bytes).unwrap();
        if header.typ != CMD_RESOURCE_UNREF {
            return None;
        }
        Some(ResourceUnref { header, resource_id: get_u32(bytes, 24), padding: get_u32(bytes, 28) })
    }

    /// Decoding the encoding of a request of this type gives it back.
    pub proof fn lemma_round_trip(self)
        requires
            self.header.typ == CMD_RESOURCE_UNREF,
        ensures
            Self::spec_decode(self.spec_encode()) == Some(self),
    {
        lemma_header_words(self.header, seq![self.resource_id, self.padding]);
    }
}

/// `VIRTIO_GPU_CMD_RESOURCE_DETACH_BACKING` request.
#[derive(Clone, Copy, Debug, PartialEq, Eq)]
pub struct ResourceDetachBacking {
    pub header: CtrlHeader,
    pub resource_id: u32,
    pub padding: u32,
}

impl ResourceDetachBacking {
    pub const SIZE: usize = 32;

    pub open spec fn spec_encode(self) -> Seq<u8> {
        self.header.spec_encode() + words(seq![self.resource_id, self.padding])
    }

    pub open spec fn spec_decode(s: Seq<u8>) -> Option<Self> {
        if s.len() < 32 || CtrlHeader::spec_parse(s).typ != CMD_RESOURCE_DETACH_BACKING {
            None
        } else {
            let w = u32s_at(s, 24, 2);
            Some(ResourceDetachBacking { header: CtrlHeader::spec_parse(s), resource_id: w[0], padding: w[1] })
        }
    }

    pub fn new(resource_id: u32) -> (r: Self)
        ensures
            r == (ResourceDetachBacking { header: CtrlHeader::spec_new(CMD_RESOURCE_DETACH_BACKING), resource_id, padding: 0 }),
    {
        ResourceDetachBacking { header: CtrlHeader::new(CMD_RESOURCE_DETACH_BACKING), resource_id, padding: 0 }
    }

    pub fn encode_le(self) -> (out: [u8; 32])
        ensures
            out@ == self.spec_encode(),
    {
        let w = [self.resource_id, self.padding];
        assert(w@ =~= seq![self.resource_id, self.padding]);
        let v = encode_header_words(self.header, w.as_slice());
        to_array::<32>(&v)
    }

    pub fn decode_le(bytes: &[u8]) -> (r: Option<Self>)
        ensures
            r == Self::spec_decode(bytes@),
    {
        if bytes.len() < 32 {
            return None;
        }
        let header = CtrlHeader::decode_le(bytes).unwrap();
        if header.typ != CMD_RESOURCE_DETACH_BACKING {
            return None;
        }
        Some(ResourceDetachBacking { header, resource_id: get_u32(bytes, 24), padding: get_u32(bytes, 28) })
    }

    /// Decoding the encoding of a request of this type gives it back.
    pub proof fn lemma_round_trip(self)
        requires
            self.header.typ == CMD_RESOURCE_DETACH_BACKING,
        ensures
            Self::spec_decode(self.spec_encode()) == Some(self),
    {
        lemma_header_words(self.header, seq![self.resource_id, self.padding]);
    }
}

/// `VIRTIO_GPU_CMD_GET_EDID` request.
#[derive(Clone, Copy, Debug, PartialEq, Eq)]
pub struct GetEdid {
    pub header: CtrlHeader,
    pub scanout: u32,
    pub padding: u32,
}

impl GetEdid {
    pub const SIZE: usize = 32;

    pub open spec fn spec_encode(self) -> Seq<u8> {
        self.header.spec_encode() + words(seq![self.scanout, self.padding])
    }

    pub open spec fn spec_decode(s: Seq<u8>) -> Option<Self> {
        if s.len() < 32 || CtrlHeader::spec_parse(s).typ != CMD_GET_EDID {
            None
        } else {
            let w = u32s_at(s, 24, 2);
            Some(GetEdid { header: CtrlHeader::spec_parse(s), scanout: w[0], padding: w[1] })
        }
    }

    pub fn new(scanout: u32) -> (r: Self)
        ensures
            r == (GetEdid { header: CtrlHeader::spec_new(CMD_GET_EDID), scanout, padding: 0 }),
    {
        GetEdid { header: CtrlHeader::new(CMD_GET_EDID), scanout, padding: 0 }
    }

    pub fn encode_le(self) -> (out: [u8; 32])
        ensures
            out@ == self.spec_encode(),
    {
        let w = [self.scanout, self.padding];
        assert(w@ =~= seq![self.scanout, self.padding]);
        let v = encode_header_words(self.header, w.as_slice());
        to_array::<32>(&v)
    }

    pub fn decode_le(bytes: &[u8]) -> (r: Option<Self>)
        ensures
            r == Self::spec_decode(bytes@),
    {
        if bytes.len() < 32 {
            return None;
        }
        let header = CtrlHeader::decode_le(bytes).unwrap();
        if header.typ != CMD_GET_EDID {
            return None;
        }
        Some(GetEdid { header, scanout: get_u32(bytes, 24), padding: get_u32(bytes, 28) })
    }

    /// Decoding the encoding of a request of this type gives it back.
    pub proof fn lemma_round_trip(self)
        requires
            self.header.typ == CMD_GET_EDID,
        ensures
            Self::spec_decode(self.spec_encode()) == Some(self),
    {
        lemma_header_words(self.header, seq![self.scanout, self.padding]);
    }
}

/// `VIRTIO_GPU_CMD_RESOURCE_ASSIGN_UUID` request.
#[derive(Clone, Copy, Debug, PartialEq, Eq)]
pub struct ResourceAssignUuid {
    pub header: CtrlHeader,
    pub resource_id: u32,
    pub padding: u32,
}

impl ResourceAssignUuid {
    pub const SIZE: usize = 32;

    pub open spec fn spec_encode(self) -> Seq<u8> {
        self.header.spec_encode() + words(seq![self.resource_id, self.padding])
    }

    pub open spec fn spec_decode(s: Seq<u8>) -> Option<Self> {
        if s.len() < 32 || CtrlHeader::spec_parse(s).typ != CMD_RESOURCE_ASSIGN_UUID {
            None
        } else {
            let w = u32s_at(s, 24, 2);
            Some(ResourceAssignUuid { header: CtrlHeader::spec_parse(s), resource_id: w[0], padding: w[1] })
        }
    }

    pub fn new(resource_id: u32) -> (r: Self)
        ensures
            r == (ResourceAssignUuid { header: CtrlHeader::spec_new(CMD_RESOURCE_ASSIGN_UUID), resource_id, padding: 0 }),
    {
        ResourceAssignUuid { header: CtrlHeader::new(CMD_RESOURCE_ASSIGN_UUID), resource_id, padding: 0 }
    }

    pub fn encode_le(self) -> (out: [u8; 32])
        ensures
            out@ == self.spec_encode(),
    {
        let w = [self.resource_id, self.padding];
        assert(w@ =~= seq![self.resource_id, self.padding]);
        let v = encode_header_words(self.header, w.as_slice());
        to_array::<32>(&v)
    }

    pub fn decode_le(bytes: &[u8]) -> (r: Option<Self>)
        ensures
            r == Self::spec_decode(bytes@),
    {
        if bytes.len() < 32 {
            return None;
        }
        let header = CtrlHeader::decode_le(bytes).unwrap();
        if header.typ != CMD_RESOURCE_ASSIGN_UUID {
            return None;
        }
        Some(ResourceAssignUuid { header, resource_id: get_u32(bytes, 24), padding: get_u32(bytes, 28) })
    }

    /// Decoding the encoding of a request of this type gives it back.
    pub proof fn lemma_round_trip(self)
        requires
            self.header.typ == CMD_RESOURCE_ASSIGN_UUID,
        ensures
            Self::spec_decode(self.spec_encode()) == Some(self),
    {
        lemma_header_words(self.header, seq![self.resource_id, self.padding]);
    }
}

/// `VIRTIO_GPU_CMD_SET_SCANOUT_BLOB` request: 96 bytes on the wire.
#[derive(Clone, Copy, Debug, PartialEq, Eq)]
pub struct SetScanoutBlob {
    pub header: CtrlHeader,
    pub rect: Rect,
    pub scanout_id: u32,
    pub resource_id: u32,
    pub width: u32,
    pub height: u32,
    pub format: u32,
    pub padding: u32,
    pub strides: [u32; 4],
    pub offsets: [u32; 4],
}

impl SetScanoutBlob {
    pub const SIZE: usize = 96;

    /// The eighteen words that follow the header.
    pub open spec fn spec_words(self) -> Seq<u32> {
        self.rect.spec_words() + seq![
            self.scanout_id,
            self.resource_id,
            self.width,
            self.height,
            self.format,
            self.padding,
        ] + self.strides@ + self.offsets@
    }

    pub open spec fn spec_encode(self) -> Seq<u8> {
        self.header.spec_encode() + words(self.spec_words())
    }

    pub open spec fn spec_decode(s: Seq<u8>) -> Option<Self> {
        if s.len() < 96 || CtrlHeader::spec_parse(s).typ != CMD_SET_SCANOUT_BLOB {
            None
        } else {
            let w = u32s_at(s, 24, 18);
            Some(
                SetScanoutBlob {
                    header: CtrlHeader::spec_parse(s),
                    rect: Rect::spec_from_words(w),
                    scanout_id: w[4],
                    resource_id: w[5],
                    width: w[6],
                    height: w[7],
                    format: w[8],
                    padding: w[9],
                    strides: [w[10], w[11], w[12], w[13]],
                    offsets: [w[14], w[15], w[16], w[17]],
                },
            )
        }
    }

    pub fn new(
        scanout_id: u32,
        resource_id: u32,
        rect: Rect,
        width: u32,
        height: u32,
        format: u32,
        strides: [u32; 4],
        offsets: [u32; 4],
    ) -> (r: Self)
        ensures
            r == (SetScanoutBlob {
                header: CtrlHeader::spec_new(CMD_SET_SCANOUT_BLOB),
                rect,
                scanout_id,
                resource_id,
                width,
                height,
                format,
                padding: 0,
                strides,
                offsets,
            }),
    {
        SetScanoutBlob {
            header: CtrlHeader::new(CMD_SET_SCANOUT_BLOB),
            rect,
            scanout_id,
            resource_id,
            width,
            height,
            format,
            padding: 0,
            strides,
            offsets,
        }
    }

    pub fn encode_le(self) -> (out: [u8; 96])
        ensures
            out@ == self.spec_encode(),
    {
        let w = [
            self.rect.x,
            self.rect.y,
            self.rect.width,
            self.rect.height,
            self.scanout_id,
            self.resource_id,
            self.width,
            self.height,
            self.format,
            self.padding,
            self.strides[0],
            self.strides[1],
            self.strides[2],
            self.strides[3],
            self.offsets[0],
            self.offsets[1],
            self.offsets[2],
            self.offsets[3],
        ];
        assert(w@ =~= self.spec_words());
        let v = encode_header_words(self.header, w.as_slice());
        to_array::<96>(&v)
    }

    pub fn decode_le(bytes: &[u8]) -> (r: Option<Self>)
        ensures
            r == Self::spec_decode(bytes@),
    {
        if bytes.len() < 96 {
            return None;
        }
        let header = CtrlHeader::decode_le(bytes).unwrap();
        if header.typ != CMD_SET_SCANOUT_BLOB {
            return None;
        }
        let r = SetScanoutBlob {
            header,
            rect: Rect {
                x: get_u32(bytes, 24),
                y: get_u32(bytes, 28),
                width: get_u32(bytes, 32),
                height: get_u32(bytes, 36),
            },
            scanout_id: get_u32(bytes, 40),
            resource_id: get_u32(bytes, 44),
            width: get_u32(bytes, 48),
            height: get_u32(bytes, 52),
            format: get_u32(bytes, 56),
            padding: get_u32(bytes, 60),
            strides: [get_u32(bytes, 64), get_u32(bytes, 68), get_u32(bytes, 72), get_u32(bytes, 76)],
            offsets: [get_u32(bytes, 80), get_u32(bytes, 84), get_u32(bytes, 88), get_u32(bytes, 92)],
        };
        proof {
            let e = Self::spec_decode(bytes@)->0;
            assert(r.strides =~= e.strides);
            assert(r.offsets =~= e.offsets);
        }
        Some(r)
    }

    /// Decoding the encoding of a request of this type gives it back.
    pub proof fn lemma_round_trip(self)
        requires
            self.header.typ == CMD_SET_SCANOUT_BLOB,
        ensures
            Self::spec_decode(self.spec_encode()) == Some(self),
    {
        lemma_header_words(self.header, self.spec_words());
        let e = Self::spec_decode(self.spec_encode())->0;
        assert(e.strides =~= self.strides);
        assert(e.offsets =~= self.offsets);
    }
}


/// `VIRTIO_GPU_CMD_RESOURCE_CREATE_3D` request: 72 bytes on the wire.
#[derive(Clone, Copy, Debug, PartialEq, Eq)]
pub struct ResourceCreate3D {
    pub header: CtrlHeader,
    pub resource_id: u32,
    pub target: u32,
    pub format: u32,
    pub bind: u32,
    pub width: u32,
    pub height: u32,
    pub depth: u32,
    pub array_size: u32,
    pub last_level: u32,
    pub nr_samples: u32,
    pub flags: u32,
    pub padding: u32,
}

impl ResourceCreate3D {
    pub const SIZE: usize = 72;

    /// The twelve words that follow the header.
    pub open spec fn spec_words(self) -> Seq<u32> {
        seq![
            self.resource_id,
            self.target,
            self.format,
            self.bind,
            self.width,
            self.height,
            self.depth,
            self.array_size,
            self.last_level,
            self.nr_samples,
            self.flags,
            self.padding,
        ]
    }

    pub open spec fn spec_encode(self) -> Seq<u8> {
        self.header.spec_encode() + words(self.spec_words())
    }

    pub open spec fn spec_decode(s: Seq<u8>) -> Option<Self> {
        if s.len() < 72 || CtrlHeader::spec_parse(s).typ != CMD_RESOURCE_CREATE_3D {
            None
        } else {
            let w = u32s_at(s, 24, 12);
            Some(
                ResourceCreate3D {
                    header: CtrlHeader::spec_parse(s),
                    resource_id: w[0],
                    target: w[1],
                    format: w[2],
                    bind: w[3],
                    width: w[4],
                    height: w[5],
                    depth: w[6],
                    array_size: w[7],
                    last_level: w[8],
                    nr_samples: w[9],
                    flags: w[10],
                    padding: w[11],
                },
            )
        }
    }

    pub fn encode_le(self) -> (out: [u8; 72])
        ensures
            out@ == self.spec_encode(),
    {
        let w = [
            self.resource_id,
            self.target,
            self.format,
            self.bind,
            self.width,
            self.height,
            self.depth,
            self.array_size,
            self.last_level,
            self.nr_samples,
            self.flags,
            self.padding,
        ];
        assert(w@ =~= self.spec_words());
        let v = encode_header_words(self.header, w.as_slice());
        to_array::<72>(&v)
    }

    pub fn decode_le(bytes: &[u8]) -> (r: Option<Self>)
        ensures
            r == Self::spec_decode(bytes@),
    {
        if bytes.len() < 72 {
            return None;
        }
        let header = CtrlHeader::decode_le(bytes).unwrap();
        if header.typ != CMD_RESOURCE_CREATE_3D {
            return None;
        }
        Some(
            ResourceCreate3D {
                header,
                resource_id: get_u32(bytes, 24),
                target: get_u32(bytes, 28),
                format: get_u32(bytes, 32),
                bind: get_u32(bytes, 36),
                width: get_u32(bytes, 40),
                height: get_u32(bytes, 44),
                depth: get_u32(bytes, 48),
                array_size: get_u32(bytes, 52),
                last_level: get_u32(bytes, 56),
                nr_samples: get_u32(bytes, 60),
                flags: get_u32(bytes, 64),
                padding: get_u32(bytes, 68),
            },
        )
    }

    /// Decoding the encoding of a request of this type gives it back.
    pub proof fn lemma_round_trip(self)
        requires
            self.header.typ == CMD_RESOURCE_CREATE_3D,
        ensures
            Self::spec_decode(self.spec_encode()) == Some(self),
    {
        lemma_header_words(self.header, self.spec_words());
    }
}

/// Resource flag: row zero is the top of the image.
pub const RESOURCE_FLAG_Y_0_TOP: u32 = 1;

/// `virtio_gpu_box`: 24 bytes on the wire.
#[derive(Clone, Copy, Debug, PartialEq, Eq, Default)]
pub struct Box3D {
    pub x: u32,
    pub y: u32,
    pub z: u32,
    pub w: u32,
    pub h: u32,
    pub d: u32,
}

impl Box3D {
    pub const SIZE: usize = 24;

    pub open spec fn spec_words(self) -> Seq<u32> {
        seq![self.x, self.y, self.z, self.w, self.h, self.d]
    }

    pub open spec fn spec_encode(self) -> Seq<u8> {
        words(self.spec_words())
    }

    pub open spec fn spec_from_words(w: Seq<u32>) -> Box3D {
        Box3D { x: w[0], y: w[1], z: w[2], w: w[3], h: w[4], d: w[5] }
    }

    pub fn encode_le(self) -> (out: [u8; 24])
        ensures
            out@ == self.spec_encode(),
    {
        let w = [self.x, self.y, self.z, self.w, self.h, self.d];
        let mut v: Vec<u8> = Vec::new();
        put_words(&mut v, w.as_slice());
        proof {
            assert(w@ =~= self.spec_words());
            lemma_words(self.spec_words());
            assert(v@ =~= self.spec_encode());
        }
        to_array::<24>(&v)
    }

    pub fn decode_le(bytes: &[u8]) -> (r: Option<Self>)
        ensures
            r == (if bytes@.len() < 24 {
                None::<Box3D>
            } else {
                Some(Self::spec_from_words(u32s_at(bytes@, 0, 6)))
            }),
    {
        if bytes.len() < 24 {
            return None;
        }
        Some(
            Box3D {
                x: get_u32(bytes, 0),
                y: get_u32(bytes, 4),
                z: get_u32(bytes, 8),
                w: get_u32(bytes, 12),
                h: get_u32(bytes, 16),
                d: get_u32(bytes, 20),
            },
        )
    }

    /// Decoding the encoding of a box gives it back.
    pub proof fn lemma_round_trip(self)
        ensures
            self.spec_encode().len() == 24,
            Self::spec_from_words(u32s_at(self.spec_encode(), 0, 6)) == self,
    {
        lemma_u32s_at_words_end(Seq::<u8>::empty(), self.spec_words());
        assert(Seq::<u8>::empty() + self.spec_encode() =~= self.spec_encode());
    }
}

/// `VIRTIO_GPU_CMD_TRANSFER_{TO,FROM}_HOST_3D` request: 72 bytes on the wire.
#[derive(Clone, Copy, Debug, PartialEq, Eq)]
pub struct TransferHost3D {
    pub header: CtrlHeader,
    pub box_: Box3D,
    pub offset: u64,
    pub resource_id: u32,
    pub level: u32,
    pub stride: u32,
    pub layer_stride: u32,
}

impl TransferHost3D {
    pub const SIZE: usize = 72;

    pub open spec fn spec_tail(self) -> Seq<u32> {
        seq![self.resource_id, self.level, self.stride, self.layer_stride]
    }

    pub open spec fn spec_encode(self) -> Seq<u8> {
        self.header.spec_encode() + words(self.box_.spec_words()) + le64(self.offset) + words(
            self.spec_tail(),
        )
    }

    pub open spec fn spec_decode(s: Seq<u8>, expected_type: u32) -> Option<Self> {
        if s.len() < 72 || CtrlHeader::spec_parse(s).typ != expected_type {
            None
        } else {
            let t = u32s_at(s, 56, 4);
            Some(
                TransferHost3D {
                    header: CtrlHeader::spec_parse(s),
                    box_: Box3D::spec_from_words(u32s_at(s, 24, 6)),
                    offset: u64_at(s, 48),
                    resource_id: t[0],
                    level: t[1],
                    stride: t[2],
                    layer_stride: t[3],
                },
            )
        }
    }

    pub fn encode_le(self) -> (out: [u8; 72])
        ensures
            out@ == self.spec_encode(),
    {
        let b = [self.box_.x, self.box_.y, self.box_.z, self.box_.w, self.box_.h, self.box_.d];
        assert(b@ =~= self.box_.spec_words());
        let mut v = encode_header_words(self.header, b.as_slice());
        put_u64(&mut v, self.offset);
        let t = [self.resource_id, self.level, self.stride, self.layer_stride];
        assert(t@ =~= self.spec_tail());
        put_words(&mut v, t.as_slice());
        proof {
            lemma_le_codec();
            lemma_words(self.spec_tail());
        }
        to_array::<72>(&v)
    }

    /// Reads a transfer whose header carries `expected_type`.
    pub fn decode_le(bytes: &[u8], expected_type: u32) -> (r: Option<Self>)
        ensures
            r == Self::spec_decode(bytes@, expected_type),
    {
        if bytes.len() < 72 {
            return None;
        }
        let header = CtrlHeader::decode_le(bytes).unwrap();
        if header.typ != expected_type {
            return None;
        }
        let b = Box3D::decode_le(&bytes[24..48]).unwrap();
        proof {
            assert(u32s_at(bytes@.subrange(24, 48), 0, 6) =~= u32s_at(bytes@, 24, 6)) by {
                assert forall|i: int| 0 <= i < 6 implies u32s_at(bytes@.subrange(24, 48), 0, 6)[i]
                    == u32s_at(bytes@, 24, 6)[i] by {
                    assert(bytes@.subrange(24, 48).subrange(4 * i, 4 * i + 4) =~= bytes@.subrange(
                        24 + 4 * i,
                        24 + 4 * i + 4,
                    ));
                }
            }
        }
        Some(
            TransferHost3D {
                header,
                box_: b,
                offset: get_u64(bytes, 48),
                resource_id: get_u32(bytes, 56),
                level: get_u32(bytes, 60),
                stride: get_u32(bytes, 64),
                layer_stride: get_u32(bytes, 68),
            },
        )
    }

    /// Decoding the encoding of a transfer with the expected type gives it back.
    pub proof fn lemma_round_trip(self, expected_type: u32)
        requires
            self.header.typ == expected_type,
        ensures
            Self::spec_decode(self.spec_encode(), expected_type) == Some(self),
    {
        lemma_le_codec();
        let h = self.header.spec_encode();
        let wb = words(self.box_.spec_words());
        let l = le64(self.offset);
        let wt = words(self.spec_tail());
        let s = self.spec_encode();
        lemma_words(self.box_.spec_words());
        lemma_words(self.spec_tail());
        self.header.lemma_round_trip();
        assert(s =~= h + (wb + l + wt));
        self.header.lemma_parse_encoded(wb + l + wt);
        assert(s =~= h + wb + (l + wt));
        lemma_u32s_at_words(h, self.box_.spec_words(), l + wt);
        assert(s.subrange(48, 56) =~= l);
        lemma_u64_field(s, 48, self.offset);
        lemma_u32s_at_words_end(h + wb + l, self.spec_tail());
    }
}

/// `virtio_gpu_cursor_pos`: 16 bytes on the wire.
#[derive(Clone, Copy, Debug, PartialEq, Eq, Default)]
pub struct CursorPos {
    pub scanout_id: u32,
    pub x: u32,
    pub y: u32,
    pub padding: u32,
}

impl CursorPos {
    pub const SIZE: usize = 16;

    pub open spec fn spec_words(self) -> Seq<u32> {
        seq![self.scanout_id, self.x, self.y, self.padding]
    }

    pub open spec fn spec_encode(self) -> Seq<u8> {
        words(self.spec_words())
    }

    pub fn encode_le(self) -> (out: [u8; 16])
        ensures
            out@ == self.spec_encode(),
    {
        let w = [self.scanout_id, self.x, self.y, self.padding];
        let mut v: Vec<u8> = Vec::new();
        put_words(&mut v, w.as_slice());
        proof {
            assert(w@ =~= self.spec_words());
            lemma_words(self.spec_words());
            assert(v@ =~= self.spec_encode());
        }
        to_array::<16>(&v)
    }
}

/// `VIRTIO_GPU_CMD_UPDATE_CURSOR` request: 56 bytes on the wire.
#[derive(Clone, Copy, Debug, PartialEq, Eq)]
pub struct UpdateCursor {
    pub header: CtrlHeader,
    pub pos: CursorPos,
    pub resource_id: u32,
    pub hot_x: u32,
    pub hot_y: u32,
    pub padding: u32,
}

impl UpdateCursor {
    pub const SIZE: usize = 56;

    pub open spec fn spec_words(self) -> Seq<u32> {
        self.pos.spec_words() + seq![self.resource_id, self.hot_x, self.hot_y, self.padding]
    }

    pub open spec fn spec_encode(self) -> Seq<u8> {
        self.header.spec_encode() + words(self.spec_words())
    }

    pub fn new(resource_id: u32, pos: CursorPos, hot_x: u32, hot_y: u32) -> (r: Self)
        ensures
            r == (UpdateCursor {
                header: CtrlHeader::spec_new(CMD_UPDATE_CURSOR),
                pos,
                resource_id,
                hot_x,
                hot_y,
                padding: 0,
            }),
    {
        UpdateCursor {
            header: CtrlHeader::new(CMD_UPDATE_CURSOR),
            pos,
            resource_id,
            hot_x,
            hot_y,
            padding: 0,
        }
    }

    pub fn encode_le(self) -> (out: [u8; 56])
        ensures
            out@ == self.spec_encode(),
    {
        let w = [
            self.pos.scanout_id,
            self.pos.x,
            self.pos.y,
            self.pos.padding,
            self.resource_id,
            self.hot_x,
            self.hot_y,
            self.padding,
        ];
        assert(w@ =~= self.spec_words());
        let v = encode_header_words(self.header, w.as_slice());
        to_array::<56>(&v)
    }
}

/// `VIRTIO_GPU_CMD_MOVE_CURSOR` request: 40 bytes on the wire.
#[derive(Clone, Copy, Debug, PartialEq, Eq)]
pub struct MoveCursor {
    pub header: CtrlHeader,
    pub pos: CursorPos,
}

impl MoveCursor {
    pub const SIZE: usize = 40;

    pub open spec fn spec_encode(self) -> Seq<u8> {
        self.header.spec_encode() + words(self.pos.spec_words())
    }

    pub fn new(pos: CursorPos) -> (r: Self)
        ensures
            r == (MoveCursor { header: CtrlHeader::spec_new(CMD_MOVE_CURSOR), pos }),
    {
        MoveCursor { header: CtrlHeader::new(CMD_MOVE_CURSOR), pos }
    }

    pub fn encode_le(self) -> (out: [u8; 40])
        ensures
            out@ == self.spec_encode(),
    {
        let w = [self.pos.scanout_id, self.pos.x, self.pos.y, self.pos.padding];
        assert(w@ =~= self.pos.spec_words());
        let v = encode_header_words(self.header, w.as_slice());
        to_array::<40>(&v)
    }
}

} // verus!
