//! Context lifecycle and resource attachment requests.

use crate::virtio_gpu::protocol::commands::{
    CMD_CTX_ATTACH_RESOURCE, CMD_CTX_CREATE, CMD_CTX_DESTROY, CMD_CTX_DETACH_RESOURCE,
    CONTEXT_INIT_CAPSET_ID_MASK, CAPSET_VENUS,
};
use crate::virtio_gpu::protocol::wire::{lemma_le_codec, put_bytes, put_words, le32};
use crate::virtio_gpu::protocol::header::{encode_header_words, lemma_header_words, CtrlHeader};
use crate::virtio_gpu::protocol::wire::{get_u32, to_array, u32s_at, words};
use vstd::prelude::*;

verus! {

/// `VIRTIO_GPU_CMD_CTX_CREATE` request: header, name length, context init and a
/// 64-byte debug name; 96 bytes on the wire.
#[derive(Clone, Copy, Debug, PartialEq, Eq)]
pub struct ContextCreate {
    pub header: CtrlHeader,
    pub nlen: u32,
    pub context_init: u32,
    pub debug_name: [u8; 64],
}

impl ContextCreate {
    pub const SIZE: usize = 96;

    pub open spec fn spec_encode(self) -> Seq<u8> {
        self.header.spec_encode() + words(seq![self.nlen, self.context_init]) + self.debug_name@
    }

    pub open spec fn spec_decode(s: Seq<u8>) -> Option<Self> {
        if s.len() < 96 || CtrlHeader::spec_parse(s).typ != CMD_CTX_CREATE {
            None
        } else {
            let w = u32s_at(s, 24, 2);
            Some(
                ContextCreate {
                    header: CtrlHeader::spec_parse(s),
                    nlen: w[0],
                    context_init: w[1],
                    debug_name: spec_name_array(s.subrange(32, 96)),
                },
            )
        }
    }

    /// The capability set selected by the low bits of `context_init`.
    pub open spec fn spec_capset_id(self) -> u32 {
        self.context_init & CONTEXT_INIT_CAPSET_ID_MASK
    }

    /// A creation request for context `ctx_id`; the name keeps at most 64 bytes.
    pub fn new(ctx_id: u32, context_init: u32, name: &[u8]) -> (r: Self)
        ensures
            r.header == (CtrlHeader { ctx_id, ..CtrlHeader::spec_new(CMD_CTX_CREATE) }),
            r.context_init == context_init,
            r.nlen == (if name@.len() < 64 { name@.len() } else { 64 }),
            r.debug_name@.subrange(0, r.nlen as int) == name@.subrange(0, r.nlen as int),
            forall|i: int| r.nlen <= i < 64 ==> r.debug_name@[i] == 0,
    {
        let mut debug_name = [0u8; 64];
        let n: usize = if name.len() < 64 { name.len() } else { 64 };
        let mut i: usize = 0;
        while i < n
            invariant
                i <= n <= 64,
                n <= name@.len(),
                debug_name@.len() == 64,
                forall|j: int| 0 <= j < i ==> debug_name@[j] == name@[j],
                forall|j: int| i <= j < 64 ==> debug_name@[j] == 0,
            decreases n - i,
        {
            debug_name[i] = name[i];
            i = i + 1;
        }
        assert(debug_name@.subrange(0, n as int) =~= name@.subrange(0, n as int));
        ContextCreate {
            header: CtrlHeader::new(CMD_CTX_CREATE).with_context(ctx_id),
            nlen: n as u32,
            context_init,
            debug_name,
        }
    }

    pub fn capset_id(&self) -> (id: u32)
        ensures
            id == self.spec_capset_id(),
    {
        self.context_init & CONTEXT_INIT_CAPSET_ID_MASK
    }

    pub fn is_venus(&self) -> (b: bool)
        ensures
            b == (self.spec_capset_id() == CAPSET_VENUS),
    {
        self.capset_id() == CAPSET_VENUS
    }

    pub fn encode_le(self) -> (out: [u8; 96])
        ensures
            out@ == self.spec_encode(),
    {
        let w = [self.nlen, self.context_init];
        assert(w@ =~= seq![self.nlen, self.context_init]);
        let mut v = encode_header_words(self.header, w.as_slice());
        put_bytes(&mut v, self.debug_name.as_slice());
        to_array::<96>(&v)
    }

    pub fn decode_le(bytes: &[u8]) -> (r: Option<Self>)
        ensures
            r == Self::spec_decode(bytes@),
    {
        if bytes.len() < 96 {
            return None;
        }
        let header = CtrlHeader::decode_le(bytes).unwrap();
        if header.typ != CMD_CTX_CREATE {
            return None;
        }
        let mut debug_name = [0u8; 64];
        let mut i: usize = 0;
        while i < 64
            invariant
                i <= 64,
                bytes@.len() >= 96,
                debug_name@.len() == 64,
                forall|j: int| 0 <= j < i ==> debug_name@[j] == bytes@[32 + j],
            decreases 64 - i,
        {
            debug_name[i] = bytes[32 + i];
            i = i + 1;
        }
        proof {
            let t = bytes@.subrange(32, 96);
            assert(debug_name@ =~= t);
            assert(exists|a: [u8; 64]| a@ == t);
            let e = spec_name_array(t);
            assert(e@ == t);
            assert forall|j: int| 0 <= j < 64 implies debug_name[j] == e[j] by {
                assert(debug_name@[j] == e@[j]);
            }
            assert(debug_name =~= e);
        }
        Some(
            ContextCreate {
                header,
                nlen: get_u32(bytes, 24),
                context_init: get_u32(bytes, 28),
                debug_name,
            },
        )
    }
}

/// The 64-byte name array whose bytes are `s`.
pub open spec fn spec_name_array(s: Seq<u8>) -> [u8; 64] {
    choose|a: [u8; 64]| a@ == s
}

/// `VIRTIO_GPU_CMD_CTX_DESTROY` request: a bare header.
#[derive(Clone, Copy, Debug, PartialEq, Eq)]
pub struct ContextDestroy {
    pub header: CtrlHeader,
}

impl ContextDestroy {
    pub const SIZE: usize = 24;

    pub open spec fn spec_decode(s: Seq<u8>) -> Option<Self> {
        if s.len() < 24 || CtrlHeader::spec_parse(s).typ != CMD_CTX_DESTROY {
            None
        } else {
            Some(ContextDestroy { header: CtrlHeader::spec_parse(s) })
        }
    }

    pub fn new(ctx_id: u32) -> (r: Self)
        ensures
            r.header == (CtrlHeader { ctx_id, ..CtrlHeader::spec_new(CMD_CTX_DESTROY) }),
    {
        ContextDestroy { header: CtrlHeader::new(CMD_CTX_DESTROY).with_context(ctx_id) }
    }

    pub fn encode_le(self) -> (out: [u8; 24])
        ensures
            out@ == self.header.spec_encode(),
    {
        self.header.encode_le()
    }

    pub fn decode_le(bytes: &[u8]) -> (r: Option<Self>)
        ensures
            r == Self::spec_decode(bytes@),
    {
        if bytes.len() < 24 {
            return None;
        }
        let header = CtrlHeader::decode_le(bytes).unwrap();
        if header.typ != CMD_CTX_DESTROY {
            return None;
        }
        Some(ContextDestroy { header })
    }
}

/// `VIRTIO_GPU_CMD_CTX_ATTACH_RESOURCE` request.
#[derive(Clone, Copy, Debug, PartialEq, Eq)]
pub struct ContextAttachResource {
    pub header: CtrlHeader,
    pub resource_id: u32,
    pub padding: u32,
}

impl ContextAttachResource {
    pub const SIZE: usize = 32;

    pub open spec fn spec_encode(self) -> Seq<u8> {
        self.header.spec_encode() + words(seq![self.resource_id, self.padding])
    }

    pub open spec fn spec_decode(s: Seq<u8>) -> Option<Self> {
        if s.len() < 32 || CtrlHeader::spec_parse(s).typ != CMD_CTX_ATTACH_RESOURCE {
            None
        } else {
            let w = u32s_at(s, 24, 2);
            Some(ContextAttachResource { header: CtrlHeader::spec_parse(s), resource_id: w[0], padding: w[1] })
        }
    }

    pub fn new(ctx_id: u32, resource_id: u32) -> (r: Self)
        ensures
            r == (ContextAttachResource { header: CtrlHeader { ctx_id, ..CtrlHeader::spec_new(CMD_CTX_ATTACH_RESOURCE) }, resource_id: resource_id, padding: 0 }),
    {
        ContextAttachResource { header: CtrlHeader::new(CMD_CTX_ATTACH_RESOURCE).with_context(ctx_id), resource_id: resource_id, padding: 0 }
    }

    pub fn encode_le(self) -> (out: [u8; 32])
        ensures
            out@ == self.spec_encode(),
    {
        let w = [self.resource_id, self.padding];
        assert(w@ =~= seq![self.resource_id, self.padding]);
        let v = encode_header_words(self.header, w.as_slice());
        to_array::<32>(&v)
    }

    pub fn decode_le(bytes: &[u8]) -> (r: Option<Self>)
        ensures
            r == Self::spec_decode(bytes@),
    {
        if bytes.len() < 32 {
            return None;
        }
        let header = CtrlHeader::decode_le(bytes).unwrap();
        if header.typ != CMD_CTX_ATTACH_RESOURCE {
            return None;
        }
        Some(ContextAttachResource { header, resource_id: get_u32(bytes, 24), padding: get_u32(bytes, 28) })
    }

    /// Decoding the encoding of a request of this type gives it back.
    pub proof fn lemma_round_trip(self)
        requires
            self.header.typ == CMD_CTX_ATTACH_RESOURCE,
        ensures
            Self::spec_decode(self.spec_encode()) == Some(self),
    {
        lemma_header_words(self.header, seq![self.resource_id, self.padding]);
    }
}

/// `VIRTIO_GPU_CMD_CTX_DETACH_RESOURCE` request.
#[derive(Clone, Copy, Debug, PartialEq, Eq)]
pub struct ContextDetachResource {
    pub header: CtrlHeader,
    pub resource_id: u32,
    pub padding: u32,
}

impl ContextDetachResource {
    pub const SIZE: usize = 32;

    pub open spec fn spec_encode(self) -> Seq<u8> {
        self.header.spec_encode() + words(seq![self.resource_id, self.padding])
    }

    pub open spec fn spec_decode(s: Seq<u8>) -> Option<Self> {
        if s.len() < 32 || CtrlHeader::spec_parse(s).typ != CMD_CTX_DETACH_RESOURCE {
            None
        } else {
            let w = u32s_at(s, 24, 2);
            Some(ContextDetachResource { header: CtrlHeader::spec_parse(s), resource_id: w[0], padding: w[1] })
        }
    }

    pub fn new(ctx_id: u32, resource_id: u32) -> (r: Self)
        ensures
            r == (ContextDetachResource { header: CtrlHeader { ctx_id, ..CtrlHeader::spec_new(CMD_CTX_DETACH_RESOURCE) }, resource_id: resource_id, padding: 0 }),
    {
        ContextDetachResource { header: CtrlHeader::new(CMD_CTX_DETACH_RESOURCE).with_context(ctx_id), resource_id: resource_id, padding: 0 }
    }

    pub fn encode_le(self) -> (out: [u8; 32])
        ensures
            out@ == self.spec_encode(),
    {
        let w = [self.resource_id, self.padding];
        assert(w@ =~= seq![self.resource_id, self.padding]);
        let v = encode_header_words(self.header, w.as_slice());
        to_array::<32>(&v)
    }

    pub fn decode_le(bytes: &[u8]) -> (r: Option<Self>)
        ensures
            r == Self::spec_decode(bytes@),
    {
        if bytes.len() < 32 {
            return None;
        }
        let header = CtrlHeader::decode_le(bytes).unwrap();
        if header.typ != CMD_CTX_DETACH_RESOURCE {
            return None;
        }
        Some(ContextDetachResource { header, resource_id: get_u32(bytes, 24), padding: get_u32(bytes, 28) })
    }

    /// Decoding the encoding of a request of this type gives it back.
    pub proof fn lemma_round_trip(self)
        requires
            self.header.typ == CMD_CTX_DETACH_RESOURCE,
        ensures
            Self::spec_decode(self.spec_encode()) == Some(self),
    {
        lemma_header_words(self.header, seq![self.resource_id, self.padding]);
    }
}

} // verus!
