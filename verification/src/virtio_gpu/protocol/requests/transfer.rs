//! `VIRTIO_GPU_CMD_TRANSFER_TO_HOST_2D`.

use crate::virtio_gpu::protocol::commands::CMD_TRANSFER_TO_HOST_2D;
use crate::virtio_gpu::protocol::header::{encode_header_words, CtrlHeader};
use crate::virtio_gpu::protocol::responses::Rect;
use crate::virtio_gpu::protocol::wire::{
    get_u32, get_u64, lemma_le_codec, lemma_u32s_at_words, lemma_u32s_at_words_end,
    lemma_u64_field, lemma_words, le64, put_u64, put_words, to_array, u32s_at, u64_at, words,
};
use vstd::prelude::*;

verus! {

/// `VIRTIO_GPU_CMD_TRANSFER_TO_HOST_2D` request.
///
/// The wire layout is:
/// `ctrl_hdr(24) + rect(16) + offset(8) + resource_id(4) + padding(4)`.
#[derive(Clone, Copy, Debug, PartialEq, Eq)]
pub struct ResourceTransferToHost2D {
    pub header: CtrlHeader,
    pub rect: Rect,
    pub offset: u64,
    pub resource_id: u32,
    pub padding: u32,
}

impl ResourceTransferToHost2D {
    pub const SIZE: usize = 56;

    pub open spec fn spec_encode(self) -> Seq<u8> {
        self.header.spec_encode() + words(self.rect.spec_words()) + le64(self.offset) + words(
            seq![self.resource_id, self.padding],
        )
    }

    pub open spec fn spec_decode(s: Seq<u8>) -> Option<Self> {
        if s.len() < 56 || CtrlHeader::spec_parse(s).typ != CMD_TRANSFER_TO_HOST_2D {
            None
        } else {
            let t = u32s_at(s, 48, 2);
            Some(
                ResourceTransferToHost2D {
                    header: CtrlHeader::spec_parse(s),
                    rect: Rect::spec_from_words(u32s_at(s, 24, 4)),
                    offset: u64_at(s, 40),
                    resource_id: t[0],
                    padding: t[1],
                },
            )
        }
    }

    pub fn new(resource_id: u32, rect: Rect, offset: u64) -> (r: Self)
        ensures
            r == (ResourceTransferToHost2D {
                header: CtrlHeader::spec_new(CMD_TRANSFER_TO_HOST_2D),
                rect,
                offset,
                resource_id,
                padding: 0,
            }),
    {
        ResourceTransferToHost2D {
            header: CtrlHeader::new(CMD_TRANSFER_TO_HOST_2D),
            rect,
            offset,
            resource_id,
            padding: 0,
        }
    }

    pub fn encode_le(self) -> (out: [u8; 56])
        ensures
            out@ == self.spec_encode(),
    {
        let r = [self.rect.x, self.rect.y, self.rect.width, self.rect.height];
        assert(r@ =~= self.rect.spec_words());
        let mut v = encode_header_words(self.header, r.as_slice());
        put_u64(&mut v, self.offset);
        let t = [self.resource_id, self.padding];
        assert(t@ =~= seq![self.resource_id, self.padding]);
        put_words(&mut v, t.as_slice());
        proof {
            lemma_le_codec();
            lemma_words(seq![self.resource_id, self.padding]);
        }
        to_array::<56>(&v)
    }

    /// Reads a transfer request; `None` for a short buffer or another command type.
    pub fn decode(data: &[u8]) -> (r: Option<Self>)
        ensures
            r == Self::spec_decode(data@),
    {
        if data.len() < 56 {
            return None;
        }
        let header = CtrlHeader::decode_le(data).unwrap();
        if header.typ != CMD_TRANSFER_TO_HOST_2D {
            return None;
        }
        Some(
            ResourceTransferToHost2D {
                header,
                rect: Rect {
                    x: get_u32(data, 24),
                    y: get_u32(data, 28),
                    width: get_u32(data, 32),
                    height: get_u32(data, 36),
                },
                offset: get_u64(data, 40),
                resource_id: get_u32(data, 48),
                padding: get_u32(data, 52),
            },
        )
    }

    /// Decoding the encoding of a transfer request gives it back.
    pub proof fn lemma_round_trip(self)
        requires
            self.header.typ == CMD_TRANSFER_TO_HOST_2D,
        ensures
            Self::spec_decode(self.spec_encode()) == Some(self),
    {
        lemma_le_codec();
        let h = self.header.spec_encode();
        let wr = words(self.rect.spec_words());
        let l = le64(self.offset);
        let wt = words(seq![self.resource_id, self.padding]);
        let s = self.spec_encode();
        lemma_words(self.rect.spec_words());
        lemma_words(seq![self.resource_id, self.padding]);
        self.header.lemma_round_trip();
        assert(s =~= h + (wr + l + wt));
        self.header.lemma_parse_encoded(wr + l + wt);
        assert(s =~= h + wr + (l + wt));
        lemma_u32s_at_words(h, self.rect.spec_words(), l + wt);
        assert(s.subrange(40, 48) =~= l);
        lemma_u64_field(s, 40, self.offset);
        lemma_u32s_at_words_end(h + wr + l, seq![self.resource_id, self.padding]);
    }
}

} // verus!
