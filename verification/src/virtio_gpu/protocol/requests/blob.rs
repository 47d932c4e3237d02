//! Blob resource requests and guest memory entries.

use crate::virtio_gpu::protocol::commands::{
    CMD_RESOURCE_CREATE_BLOB, CMD_RESOURCE_MAP_BLOB, CMD_RESOURCE_UNMAP_BLOB,
};
use crate::virtio_gpu::protocol::header::{encode_header_words, lemma_header_words, CtrlHeader};
use crate::virtio_gpu::protocol::wire::{
    get_u32, get_u64, le64, put_u64, to_array, u32_at, u32s_at, u64_at, words,
};
use vstd::prelude::*;

verus! {

/// `virtio_gpu_mem_entry`: a guest address range; 16 bytes on the wire.
#[derive(Clone, Copy, Debug, PartialEq, Eq)]
pub struct MemEntry {
    pub addr: u64,
    pub length: u32,
    pub padding: u32,
}

impl MemEntry {
    pub const SIZE: usize = 16;

    pub open spec fn spec_encode(self) -> Seq<u8> {
        le64(self.addr) + words(seq![self.length, self.padding])
    }

    /// The entry stored in the first 16 bytes of `s`.
    pub open spec fn spec_parse(s: Seq<u8>) -> MemEntry {
        MemEntry { addr: u64_at(s, 0), length: u32_at(s, 8), padding: u32_at(s, 12) }
    }

    pub fn encode_le(self) -> (out: [u8; 16])
        ensures
            out@ == self.spec_encode(),
    {
        let mut v: Vec<u8> = Vec::new();
        put_u64(&mut v, self.addr);
        let w = [self.length, self.padding];
        assert(w@ =~= seq![self.length, self.padding]);
        crate::virtio_gpu::protocol::wire::put_words(&mut v, w.as_slice());
        proof {
            crate::virtio_gpu::protocol::wire::lemma_le_codec();
            crate::virtio_gpu::protocol::wire::lemma_words(seq![self.length, self.padding]);
        }
        to_array::<16>(&v)
    }

    pub fn decode_le(bytes: &[u8]) -> (r: Option<Self>)
        ensures
            r == (if bytes@.len() < 16 {
                None::<MemEntry>
            } else {
                Some(Self::spec_parse(bytes@))
            }),
    {
        if bytes.len() < 16 {
            return None;
        }
        Some(MemEntry { addr: get_u64(bytes, 0), length: get_u32(bytes, 8), padding: get_u32(bytes, 12) })
    }
}

/// `VIRTIO_GPU_CMD_RESOURCE_CREATE_BLOB` request: 56 bytes on the wire, followed
/// by `nr_entries` memory entries.
#[derive(Clone, Copy, Debug, PartialEq, Eq)]
pub struct ResourceCreateBlob {
    pub header: CtrlHeader,
    pub resource_id: u32,
    pub blob_mem: u32,
    pub blob_flags: u32,
    pub nr_entries: u32,
    pub blob_id: u64,
    pub size: u64,
}

impl ResourceCreateBlob {
    pub const SIZE: usize = 56;

    pub open spec fn spec_encode(self) -> Seq<u8> {
        self.header.spec_encode() + words(
            seq![self.resource_id, self.blob_mem, self.blob_flags, self.nr_entries],
        ) + le64(self.blob_id) + le64(self.size)
    }

    pub open spec fn spec_decode(s: Seq<u8>) -> Option<Self> {
        if s.len() < 56 || CtrlHeader::spec_parse(s).typ != CMD_RESOURCE_CREATE_BLOB {
            None
        } else {
            let w = u32s_at(s, 24, 4);
            Some(
                ResourceCreateBlob {
                    header: CtrlHeader::spec_parse(s),
                    resource_id: w[0],
                    blob_mem: w[1],
                    blob_flags: w[2],
                    nr_entries: w[3],
                    blob_id: u64_at(s, 40),
                    size: u64_at(s, 48),
                },
            )
        }
    }

    pub fn new(
        resource_id: u32,
        blob_mem: u32,
        blob_flags: u32,
        nr_entries: u32,
        blob_id: u64,
        size: u64,
    ) -> (r: Self)
        ensures
            r == (ResourceCreateBlob {
                header: CtrlHeader::spec_new(CMD_RESOURCE_CREATE_BLOB),
                resource_id,
                blob_mem,
                blob_flags,
                nr_entries,
                blob_id,
                size,
            }),
    {
        ResourceCreateBlob {
            header: CtrlHeader::new(CMD_RESOURCE_CREATE_BLOB),
            resource_id,
            blob_mem,
            blob_flags,
            nr_entries,
            blob_id,
            size,
        }
    }

    pub fn encode_le(self) -> (out: [u8; 56])
        ensures
            out@ == self.spec_encode(),
    {
        let w = [self.resource_id, self.blob_mem, self.blob_flags, self.nr_entries];
        assert(w@ =~= seq![self.resource_id, self.blob_mem, self.blob_flags, self.nr_entries]);
        let mut v = encode_header_words(self.header, w.as_slice());
        put_u64(&mut v, self.blob_id);
        put_u64(&mut v, self.size);
        proof {
            crate::virtio_gpu::protocol::wire::lemma_le_codec();
        }
        to_array::<56>(&v)
    }

    pub fn decode_le(bytes: &[u8]) -> (r: Option<Self>)
        ensures
            r == Self::spec_decode(bytes@),
    {
        if bytes.len() < 56 {
            return None;
        }
        let header = CtrlHeader::decode_le(bytes).unwrap();
        if header.typ != CMD_RESOURCE_CREATE_BLOB {
            return None;
        }
        Some(
            ResourceCreateBlob {
                header,
                resource_id: get_u32(bytes, 24),
                blob_mem: get_u32(bytes, 28),
                blob_flags: get_u32(bytes, 32),
                nr_entries: get_u32(bytes, 36),
                blob_id: get_u64(bytes, 40),
                size: get_u64(bytes, 48),
            },
        )
    }
}

/// `VIRTIO_GPU_CMD_RESOURCE_MAP_BLOB` request: 40 bytes on the wire.
#[derive(Clone, Copy, Debug, PartialEq, Eq)]
pub struct ResourceMapBlob {
    pub header: CtrlHeader,
    pub resource_id: u32,
    pub padding: u32,
    pub offset: u64,
}

impl ResourceMapBlob {
    pub const SIZE: usize = 40;

    pub open spec fn spec_encode(self) -> Seq<u8> {
        self.header.spec_encode() + words(seq![self.resource_id, self.padding]) + le64(self.offset)
    }

    pub open spec fn spec_decode(s: Seq<u8>) -> Option<Self> {
        if s.len() < 40 || CtrlHeader::spec_parse(s).typ != CMD_RESOURCE_MAP_BLOB {
            None
        } else {
            let w = u32s_at(s, 24, 2);
            Some(
                ResourceMapBlob {
                    header: CtrlHeader::spec_parse(s),
                    resource_id: w[0],
                    padding: w[1],
                    offset: u64_at(s, 32),
                },
            )
        }
    }

    pub fn new(resource_id: u32, offset: u64) -> (r: Self)
        ensures
            r == (ResourceMapBlob {
                header: CtrlHeader::spec_new(CMD_RESOURCE_MAP_BLOB),
                resource_id,
                padding: 0,
                offset,
            }),
    {
        ResourceMapBlob { header: CtrlHeader::new(CMD_RESOURCE_MAP_BLOB), resource_id, padding: 0, offset }
    }

    pub fn encode_le(self) -> (out: [u8; 40])
        ensures
            out@ == self.spec_encode(),
    {
        let w = [self.resource_id, self.padding];
        assert(w@ =~= seq![self.resource_id, self.padding]);
        let mut v = encode_header_words(self.header, w.as_slice());
        put_u64(&mut v, self.offset);
        proof {
            crate::virtio_gpu::protocol::wire::lemma_le_codec();
        }
        to_array::<40>(&v)
    }

    pub fn decode_le(bytes: &[u8]) -> (r: Option<Self>)
        ensures
            r == Self::spec_decode(bytes@),
    {
        if bytes.len() < 40 {
            return None;
        }
        let header = CtrlHeader::decode_le(bytes).unwrap();
        if header.typ != CMD_RESOURCE_MAP_BLOB {
            return None;
        }
        Some(
            ResourceMapBlob {
                header,
                resource_id: get_u32(bytes, 24),
                padding: get_u32(bytes, 28),
                offset: get_u64(bytes, 32),
            },
        )
    }
}

/// `VIRTIO_GPU_CMD_RESOURCE_UNMAP_BLOB` request.
#[derive(Clone, Copy, Debug, PartialEq, Eq)]
pub struct ResourceUnmapBlob {
    pub header: CtrlHeader,
    pub resource_id: u32,
    pub padding: u32,
}

impl ResourceUnmapBlob {
    pub const SIZE: usize = 32;

    pub open spec fn spec_encode(self) -> Seq<u8> {
        self.header.spec_encode() + words(seq![self.resource_id, self.padding])
    }

    pub open spec fn spec_decode(s: Seq<u8>) -> Option<Self> {
        if s.len() < 32 || CtrlHeader::spec_parse(s).typ != CMD_RESOURCE_UNMAP_BLOB {
            None
        } else {
            let w = u32s_at(s, 24, 2);
            Some(ResourceUnmapBlob { header: CtrlHeader::spec_parse(s), resource_id: w[0], padding: w[1] })
        }
    }

    pub fn new(resource_id: u32) -> (r: Self)
        ensures
            r == (ResourceUnmapBlob { header: CtrlHeader::spec_new(CMD_RESOURCE_UNMAP_BLOB), resource_id: resource_id, padding: 0 }),
    {
        ResourceUnmapBlob { header: CtrlHeader::new(CMD_RESOURCE_UNMAP_BLOB), resource_id: resource_id, padding: 0 }
    }

    pub fn encode_le(self) -> (out: [u8; 32])
        ensures
            out@ == self.spec_encode(),
    {
        let w = [self.resource_id, self.padding];
        assert(w@ =~= seq![self.resource_id, self.padding]);
        let v = encode_header_words(self.header, w.as_slice());
        to_array::<32>(&v)
    }

    pub fn decode_le(bytes: &[u8]) -> (r: Option<Self>)
        ensures
            r == Self::spec_decode(bytes@),
    {
        if bytes.len() < 32 {
            return None;
        }
        let header = CtrlHeader::decode_le(bytes).unwrap();
        if header.typ != CMD_RESOURCE_UNMAP_BLOB {
            return None;
        }
        Some(ResourceUnmapBlob { header, resource_id: get_u32(bytes, 24), padding: get_u32(bytes, 28) })
    }

    /// Decoding the encoding of a request of this type gives it back.
    pub proof fn lemma_round_trip(self)
        requires
            self.header.typ == CMD_RESOURCE_UNMAP_BLOB,
        ensures
            Self::spec_decode(self.spec_encode()) == Some(self),
    {
        lemma_header_words(self.header, seq![self.resource_id, self.padding]);
    }
}

} // verus!
