//! The control header that starts every request and response.

use super::wire::{
    get_u32, get_u64, lemma_le_codec, lemma_u32_field, lemma_prefix_subrange, lemma_u32s_at_words_end, lemma_u64_field, lemma_words, le32, le64,
    put_bytes, put_u32, put_u64, put_words, to_array, u32_at, u32s_at, u64_at, words,
};
use vstd::prelude::*;

verus! {

/// `virtio_gpu_ctrl_hdr`: 24 bytes on the wire.
#[derive(Clone, Copy, Debug, PartialEq, Eq, Default)]
pub struct CtrlHeader {
    pub typ: u32,
    pub flags: u32,
    pub fence_id: u64,
    pub ctx_id: u32,
    pub ring_idx: u8,
    pub padding: [u8; 3],
}

impl CtrlHeader {
    pub const SIZE: usize = 24;

    /// The wire bytes of this header.
    pub open spec fn spec_encode(self) -> Seq<u8> {
        le32(self.typ) + le32(self.flags) + le64(self.fence_id) + le32(self.ctx_id) + seq![
            self.ring_idx,
        ] + self.padding@
    }

    /// The header stored in the first 24 bytes of `s`.
    pub open spec fn spec_parse(s: Seq<u8>) -> CtrlHeader {
        CtrlHeader {
            typ: u32_at(s, 0),
            flags: u32_at(s, 4),
            fence_id: u64_at(s, 8),
            ctx_id: u32_at(s, 16),
            ring_idx: s[20],
            padding: [s[21], s[22], s[23]],
        }
    }

    /// A header of the given command type with all other fields zero.
    pub open spec fn spec_new(typ: u32) -> CtrlHeader {
        CtrlHeader { typ, flags: 0, fence_id: 0, ctx_id: 0, ring_idx: 0, padding: [0u8, 0u8, 0u8] }
    }

    pub fn new(typ: u32) -> (h: Self)
        ensures
            h == Self::spec_new(typ),
    {
        CtrlHeader { typ, flags: 0, fence_id: 0, ctx_id: 0, ring_idx: 0, padding: [0u8, 0u8, 0u8] }
    }

    /// The same header addressed to context `ctx_id`.
    pub fn with_context(self, ctx_id: u32) -> (h: Self)
        ensures
            h == (CtrlHeader { ctx_id, ..self }),
    {
        CtrlHeader { ctx_id, ..self }
    }

    /// The same header with the fence flag set and fence `fence_id`.
    pub fn with_fence(self, fence_id: u64) -> (h: Self)
        ensures
            h == (CtrlHeader { flags: self.flags | super::commands::FLAG_FENCE, fence_id, ..self }),
    {
        CtrlHeader { flags: self.flags | super::commands::FLAG_FENCE, fence_id, ..self }
    }

    pub fn encode_le(self) -> (out: [u8; 24])
        ensures
            out@ == self.spec_encode(),
    {
        let mut v: Vec<u8> = Vec::new();
        put_u32(&mut v, self.typ);
        put_u32(&mut v, self.flags);
        put_u64(&mut v, self.fence_id);
        put_u32(&mut v, self.ctx_id);
        v.push(self.ring_idx);
        put_bytes(&mut v, self.padding.as_slice());
        proof {
            lemma_le_codec();
        }
        to_array::<24>(&v)
    }

    /// Reads the header from the first 24 bytes; `None` when fewer are given.
    pub fn decode_le(bytes: &[u8]) -> (r: Option<Self>)
        ensures
            r == (if bytes@.len() < 24 {
                None::<CtrlHeader>
            } else {
                Some(Self::spec_parse(bytes@))
            }),
    {
        if bytes.len() < 24 {
            return None;
        }
        Some(
            CtrlHeader {
                typ: get_u32(bytes, 0),
                flags: get_u32(bytes, 4),
                fence_id: get_u64(bytes, 8),
                ctx_id: get_u32(bytes, 16),
                ring_idx: bytes[20],
                padding: [bytes[21], bytes[22], bytes[23]],
            },
        )
    }


    /// The parsed header depends only on the first 24 bytes.
    pub proof fn lemma_parse_prefix(s: Seq<u8>, t: Seq<u8>)
        requires
            s.len() >= 24,
        ensures
            Self::spec_parse(s + t) == Self::spec_parse(s),
    {
        lemma_prefix_subrange(s, t, 0, 4);
        lemma_prefix_subrange(s, t, 4, 8);
        lemma_prefix_subrange(s, t, 8, 16);
        lemma_prefix_subrange(s, t, 16, 20);
        let a = Self::spec_parse(s + t);
        let b = Self::spec_parse(s);
        assert(a.padding =~= b.padding);
    }

    /// Parsing an encoded header followed by anything gives the header back.
    pub proof fn lemma_parse_encoded(self, t: Seq<u8>)
        ensures
            Self::spec_parse(self.spec_encode() + t) == self,
            (self.spec_encode() + t).len() == 24 + t.len(),
    {
        self.lemma_round_trip();
        Self::lemma_parse_prefix(self.spec_encode(), t);
    }

    /// Parsing the encoding of a header gives the header back.
    pub proof fn lemma_round_trip(self)
        ensures
            self.spec_encode().len() == 24,
            Self::spec_parse(self.spec_encode()) == self,
    {
        lemma_le_codec();
        let s = self.spec_encode();
        assert(le32(self.typ).len() == 4 && le32(self.flags).len() == 4);
        assert(le64(self.fence_id).len() == 8 && le32(self.ctx_id).len() == 4);
        assert(s.subrange(0, 4) =~= le32(self.typ));
        lemma_u32_field(s, 0, self.typ);
        assert(s.subrange(4, 8) =~= le32(self.flags));
        lemma_u32_field(s, 4, self.flags);
        assert(s.subrange(8, 16) =~= le64(self.fence_id));
        lemma_u64_field(s, 8, self.fence_id);
        assert(s.subrange(16, 20) =~= le32(self.ctx_id));
        lemma_u32_field(s, 16, self.ctx_id);
        let p = Self::spec_parse(s);
        assert(p.padding =~= self.padding);
    }
}


/// The encoding of a header followed by 32-bit words.
pub fn encode_header_words(h: CtrlHeader, w: &[u32]) -> (out: Vec<u8>)
    ensures
        out@ == h.spec_encode() + words(w@),
        out@.len() == 24 + 4 * w@.len(),
{
    let a = h.encode_le();
    let mut v: Vec<u8> = Vec::new();
    put_bytes(&mut v, a.as_slice());
    put_words(&mut v, w);
    proof {
        lemma_words(w@);
        h.lemma_round_trip();
    }
    v
}

/// A header followed by words parses back into the header and the words.
pub proof fn lemma_header_words(h: CtrlHeader, v: Seq<u32>)
    ensures
        (h.spec_encode() + words(v)).len() == 24 + 4 * v.len(),
        CtrlHeader::spec_parse(h.spec_encode() + words(v)) == h,
        u32s_at(h.spec_encode() + words(v), 24, v.len()) == v,
{
    h.lemma_parse_encoded(words(v));
    h.lemma_round_trip();
    lemma_u32s_at_words_end(h.spec_encode(), v);
}

} // verus!
