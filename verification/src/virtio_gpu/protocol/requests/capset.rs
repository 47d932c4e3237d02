//! Capability-set queries.

use crate::virtio_gpu::protocol::commands::{CAPSET_VENUS, CMD_GET_CAPSET, CMD_GET_CAPSET_INFO};
use crate::virtio_gpu::protocol::header::{encode_header_words, lemma_header_words, CtrlHeader};
use crate::virtio_gpu::protocol::wire::{get_u32, to_array, u32s_at, words};
use vstd::prelude::*;

verus! {

/// `VIRTIO_GPU_CMD_GET_CAPSET_INFO` request.
#[derive(Clone, Copy, Debug, PartialEq, Eq)]
pub struct GetCapsetInfo {
    pub header: CtrlHeader,
    pub capset_index: u32,
    pub padding: u32,
}

impl GetCapsetInfo {
    pub const SIZE: usize = 32;

    pub open spec fn spec_encode(self) -> Seq<u8> {
        self.header.spec_encode() + words(seq![self.capset_index, self.padding])
    }

    pub open spec fn spec_decode(s: Seq<u8>) -> Option<Self> {
        if s.len() < 32 || CtrlHeader::spec_parse(s).typ != CMD_GET_CAPSET_INFO {
            None
        } else {
            let w = u32s_at(s, 24, 2);
            Some(GetCapsetInfo { header: CtrlHeader::spec_parse(s), capset_index: w[0], padding: w[1] })
        }
    }

    pub fn new(capset_index: u32) -> (r: Self)
        ensures
            r == (GetCapsetInfo { header: CtrlHeader::spec_new(CMD_GET_CAPSET_INFO), capset_index: capset_index, padding: 0 }),
    {
        GetCapsetInfo { header: CtrlHeader::new(CMD_GET_CAPSET_INFO), capset_index: capset_index, padding: 0 }
    }

    pub fn encode_le(self) -> (out: [u8; 32])
        ensures
            out@ == self.spec_encode(),
    {
        let w = [self.capset_index, self.padding];
        assert(w@ =~= seq![self.capset_index, self.padding]);
        let v = encode_header_words(self.header, w.as_slice());
        to_array::<32>(&v)
    }

    pub fn decode_le(bytes: &[u8]) -> (r: Option<Self>)
        ensures
            r == Self::spec_decode(bytes@),
    {
        if bytes.len() < 32 {
            return None;
        }
        let header = CtrlHeader::decode_le(bytes).unwrap();
        if header.typ != CMD_GET_CAPSET_INFO {
            return None;
        }
        Some(GetCapsetInfo { header, capset_index: get_u32(bytes, 24), padding: get_u32(bytes, 28) })
    }

    /// Decoding the encoding of a request of this type gives it back.
    pub proof fn lemma_round_trip(self)
        requires
            self.header.typ == CMD_GET_CAPSET_INFO,
        ensures
            Self::spec_decode(self.spec_encode()) == Some(self),
    {
        lemma_header_words(self.header, seq![self.capset_index, self.padding]);
    }
}

/// `VIRTIO_GPU_CMD_GET_CAPSET` request.
#[derive(Clone, Copy, Debug, PartialEq, Eq)]
pub struct GetCapset {
    pub header: CtrlHeader,
    pub capset_id: u32,
    pub capset_version: u32,
}

impl GetCapset {
    pub const SIZE: usize = 32;

    pub open spec fn spec_encode(self) -> Seq<u8> {
        self.header.spec_encode() + words(seq![self.capset_id, self.capset_version])
    }

    pub open spec fn spec_decode(s: Seq<u8>) -> Option<Self> {
        if s.len() < 32 || CtrlHeader::spec_parse(s).typ != CMD_GET_CAPSET {
            None
        } else {
            let w = u32s_at(s, 24, 2);
            Some(GetCapset { header: CtrlHeader::spec_parse(s), capset_id: w[0], capset_version: w[1] })
        }
    }

    pub fn venus(capset_version: u32) -> (r: Self)
        ensures
            r == (GetCapset { header: CtrlHeader::spec_new(CMD_GET_CAPSET), capset_id: CAPSET_VENUS, capset_version: capset_version }),
    {
        GetCapset { header: CtrlHeader::new(CMD_GET_CAPSET), capset_id: CAPSET_VENUS, capset_version: capset_version }
    }

    pub fn encode_le(self) -> (out: [u8; 32])
        ensures
            out@ == self.spec_encode(),
    {
        let w = [self.capset_id, self.capset_version];
        assert(w@ =~= seq![self.capset_id, self.capset_version]);
        let v = encode_header_words(self.header, w.as_slice());
        to_array::<32>(&v)
    }

    pub fn decode_le(bytes: &[u8]) -> (r: Option<Self>)
        ensures
            r == Self::spec_decode(bytes@),
    {
        if bytes.len() < 32 {
            return None;
        }
        let header = CtrlHeader::decode_le(bytes).unwrap();
        if header.typ != CMD_GET_CAPSET {
            return None;
        }
        Some(GetCapset { header, capset_id: get_u32(bytes, 24), capset_version: get_u32(bytes, 28) })
    }

    /// Decoding the encoding of a request of this type gives it back.
    pub proof fn lemma_round_trip(self)
        requires
            self.header.typ == CMD_GET_CAPSET,
        ensures
            Self::spec_decode(self.spec_encode()) == Some(self),
    {
        lemma_header_words(self.header, seq![self.capset_id, self.capset_version]);
    }
}

} // verus!
