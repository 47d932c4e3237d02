//! `VIRTIO_GPU_CMD_SUBMIT_3D`.

use crate::virtio_gpu::protocol::commands::CMD_SUBMIT_3D;
use crate::virtio_gpu::protocol::header::{encode_header_words, lemma_header_words, CtrlHeader};
use crate::virtio_gpu::protocol::wire::{
    get_u32, le64, put_bytes, put_u64, to_array, u32s_at, words,
};
use vstd::prelude::*;

verus! {

/// The encoding of each fence id in turn.
pub open spec fn fences_bytes(f: Seq<u64>) -> Seq<u8>
    decreases f.len(),
{
    if f.len() == 0 {
        Seq::<u8>::empty()
    } else {
        fences_bytes(f.drop_last()) + le64(f.last())
    }
}

/// `VIRTIO_GPU_CMD_SUBMIT_3D` fixed request header.
///
/// The header is followed by `num_in_fences` little-endian u64 fence IDs,
/// then by `size` bytes of four-byte-aligned command data.
#[derive(Clone, Copy, Debug, PartialEq, Eq)]
pub struct Submit3D {
    pub header: CtrlHeader,
    pub size: u32,
    pub num_in_fences: u32,
}

impl Submit3D {
    pub const SIZE: usize = 32;

    pub open spec fn spec_encode(self) -> Seq<u8> {
        self.header.spec_encode() + words(seq![self.size, self.num_in_fences])
    }

    pub open spec fn spec_decode(s: Seq<u8>) -> Option<Self> {
        if s.len() < 32 || CtrlHeader::spec_parse(s).typ != CMD_SUBMIT_3D {
            None
        } else {
            let w = u32s_at(s, 24, 2);
            Some(Submit3D { header: CtrlHeader::spec_parse(s), size: w[0], num_in_fences: w[1] })
        }
    }

    /// The request header of a submission to context `ctx_id`.
    pub open spec fn spec_with_in_fences(ctx_id: u32, size: u32, num_in_fences: u32) -> Submit3D {
        Submit3D {
            header: CtrlHeader { ctx_id, ..CtrlHeader::spec_new(CMD_SUBMIT_3D) },
            size,
            num_in_fences,
        }
    }

    pub fn new(ctx_id: u32, size: u32) -> (r: Self)
        ensures
            r == Self::spec_with_in_fences(ctx_id, size, 0),
    {
        Self::with_in_fences(ctx_id, size, 0)
    }

    pub fn with_in_fences(ctx_id: u32, size: u32, num_in_fences: u32) -> (r: Self)
        ensures
            r == Self::spec_with_in_fences(ctx_id, size, num_in_fences),
    {
        Submit3D {
            header: CtrlHeader::new(CMD_SUBMIT_3D).with_context(ctx_id),
            size,
            num_in_fences,
        }
    }

    pub fn encode_le(self) -> (out: [u8; 32])
        ensures
            out@ == self.spec_encode(),
    {
        let w = [self.size, self.num_in_fences];
        assert(w@ =~= seq![self.size, self.num_in_fences]);
        let v = encode_header_words(self.header, w.as_slice());
        to_array::<32>(&v)
    }

    pub fn decode_le(bytes: &[u8]) -> (r: Option<Self>)
        ensures
            r == Self::spec_decode(bytes@),
    {
        if bytes.len() < 32 {
            return None;
        }
        let header = CtrlHeader::decode_le(bytes).unwrap();
        if header.typ != CMD_SUBMIT_3D {
            return None;
        }
        Some(Submit3D { header, size: get_u32(bytes, 24), num_in_fences: get_u32(bytes, 28) })
    }

    /// Decoding the encoding of a submission header gives it back.
    pub proof fn lemma_round_trip(self)
        requires
            self.header.typ == CMD_SUBMIT_3D,
        ensures
            Self::spec_decode(self.spec_encode()) == Some(self),
    {
        lemma_header_words(self.header, seq![self.size, self.num_in_fences]);
    }
}

/// A transport-independent SUBMIT_3D request including optional in-fence IDs.
#[derive(Clone, Debug, PartialEq, Eq)]
pub struct Submit3DCommand {
    pub request: Submit3D,
    pub in_fences: Vec<u64>,
    pub command_stream: Vec<u8>,
}

impl Submit3DCommand {
    /// The full wire request: header, in-fence ids, then the command stream.
    pub open spec fn spec_encode(&self) -> Seq<u8> {
        self.request.spec_encode() + fences_bytes(self.in_fences@) + self.command_stream@
    }

    pub fn new(ctx_id: u32, command_stream: Vec<u8>) -> (r: Self)
        requires
            command_stream@.len() <= u32::MAX,
            command_stream@.len() % 4 == 0,
        ensures
            r.request == Submit3D::spec_with_in_fences(ctx_id, command_stream@.len() as u32, 0),
            r.in_fences@ == Seq::<u64>::empty(),
            r.command_stream@ == command_stream@,
    {
        Self::with_in_fences(ctx_id, Vec::new(), command_stream)
    }

    /// A submission of `command_stream` that waits on `in_fences`.
    pub fn with_in_fences(ctx_id: u32, in_fences: Vec<u64>, command_stream: Vec<u8>) -> (r: Self)
        requires
            command_stream@.len() <= u32::MAX,
            in_fences@.len() <= u32::MAX,
            command_stream@.len() % 4 == 0,
        ensures
            r.request == Submit3D::spec_with_in_fences(
                ctx_id,
                command_stream@.len() as u32,
                in_fences@.len() as u32,
            ),
            r.in_fences@ == in_fences@,
            r.command_stream@ == command_stream@,
    {
        let request = Submit3D::with_in_fences(
            ctx_id,
            command_stream.len() as u32,
            in_fences.len() as u32,
        );
        Submit3DCommand { request, in_fences, command_stream }
    }

    pub fn encode(&self) -> (out: Vec<u8>)
        ensures
            out@ == self.spec_encode(),
    {
        let a = self.request.encode_le();
        let mut out: Vec<u8> = Vec::new();
        put_bytes(&mut out, a.as_slice());
        let n = self.in_fences.len();
        let mut i: usize = 0;
        proof {
            assert(self.in_fences@.subrange(0, 0) =~= Seq::<u64>::empty());
            assert(out@ + fences_bytes(Seq::<u64>::empty()) =~= out@);
        }
        while i < n
            invariant
                i <= n,
                n == self.in_fences@.len(),
                out@ == self.request.spec_encode() + fences_bytes(
                    self.in_fences@.subrange(0, i as int),
                ),
            decreases n - i,
        {
            let f = self.in_fences[i];
            put_u64(&mut out, f);
            proof {
                let w = self.in_fences@.subrange(0, i as int + 1);
                assert(w.drop_last() =~= self.in_fences@.subrange(0, i as int));
                assert(self.request.spec_encode() + fences_bytes(
                    self.in_fences@.subrange(0, i as int),
                ) + le64(f) =~= self.request.spec_encode() + fences_bytes(w));
            }
            i = i + 1;
        }
        assert(self.in_fences@.subrange(0, n as int) =~= self.in_fences@);
        put_bytes(&mut out, self.command_stream.as_slice());
        out
    }

    pub fn command_stream_size(&self) -> (n: usize)
        ensures
            n == self.command_stream@.len(),
    {
        self.command_stream.len()
    }
}

} // verus!
