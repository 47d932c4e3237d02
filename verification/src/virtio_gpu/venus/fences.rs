//! Guest-visible fences of a Venus runtime: the error answers it gives, and
//! the translation between the fence ids a guest chose and those the
//! renderer backend signals.

use crate::virtio_gpu::protocol::commands::{
    CMD_SUBMIT_3D, FLAG_FENCE, FLAG_INFO_RING_IDX, RESP_ERR_INVALID_CONTEXT_ID,
    RESP_ERR_INVALID_PARAMETER, RESP_ERR_INVALID_RESOURCE_ID, RESP_ERR_OUT_OF_MEMORY, RESP_ERR_UNSPEC,
};
use crate::virtio_gpu::protocol::header::CtrlHeader;
use crate::virtio_gpu::protocol::requests::submit::Submit3D;
use crate::virtio_gpu::protocol::wire::{get_u64, le64, put_bytes, u64_at};
use crate::virtio_gpu::venus::dispatcher::{requested_fence, submit_ring, VenusDispatchError, VenusResponse};
use crate::virtio_gpu::venus::runtime::{
    BackendReply, PendingRequest, RuntimeStep, VenusRuntime, VenusRuntimeError,
};
use crate::virtio_gpu::venus::state::VenusStateError;
use std::collections::BTreeMap;
use vstd::prelude::*;

verus! {

broadcast use {vstd::std_specs::btree::group_btree_axioms, vstd::laws_cmp::group_laws_cmp};

/// A fence the backend reports as signalled.
#[derive(Clone, Copy, Debug, PartialEq, Eq, Structural)]
pub struct CompletedFence {
    pub fence_id: u64,
    pub ctx_id: u32,
    pub ring_idx: u8,
}

/// The lower-case form of an ASCII byte.
pub open spec fn ascii_lower(b: u8) -> u8 {
    if 65 <= b <= 90 {
        (b + 32) as u8
    } else {
        b
    }
}

/// Whether the word "memory" occurs in `s`, in any case.
pub open spec fn mentions_memory(s: Seq<u8>) -> bool {
    exists|i: int|
        0 <= i && i + 6 <= s.len() && #[trigger] ascii_lower(s[i]) == 109u8 && ascii_lower(s[i + 1])
            == 101u8 && ascii_lower(s[i + 2]) == 109u8 && ascii_lower(s[i + 3]) == 111u8 && ascii_lower(
            s[i + 4],
        ) == 114u8 && ascii_lower(s[i + 5]) == 121u8
}

fn lower(b: u8) -> (c: u8)
    ensures
        c == ascii_lower(b),
{
    if 65 <= b && b <= 90 {
        b + 32
    } else {
        b
    }
}

/// Whether the word "memory" occurs in `s`, in any case.
pub fn contains_memory(s: &[u8]) -> (b: bool)
    ensures
        b == mentions_memory(s@),
{
    let n = s.len();
    if n < 6 {
        return false;
    }
    let mut i: usize = 0;
    while i <= n - 6
        invariant
            n == s@.len(),
            n >= 6,
            i <= n - 5,
            forall|j: int|
                0 <= j < i ==> !(#[trigger] ascii_lower(s@[j]) == 109u8 && ascii_lower(s@[j + 1]) == 101u8
                    && ascii_lower(s@[j + 2]) == 109u8 && ascii_lower(s@[j + 3]) == 111u8 && ascii_lower(
                    s@[j + 4],
                ) == 114u8 && ascii_lower(s@[j + 5]) == 121u8),
        decreases n - i,
    {
        if lower(s[i]) == 109 && lower(s[i + 1]) == 101 && lower(s[i + 2]) == 109 && lower(s[i + 3]) == 111
            && lower(s[i + 4]) == 114 && lower(s[i + 5]) == 121 {
            return true;
        }
        i = i + 1;
    }
    false
}

/// The error response type for a runtime error: malformed and unsupported
/// requests are invalid parameters; state errors name the context or the
/// resource they concern; backend errors are out of memory when their text
/// mentions memory, unspecified otherwise.
pub open spec fn error_code(error: VenusRuntimeError) -> u32 {
    match error {
        VenusRuntimeError::Dispatch(VenusDispatchError::InvalidRequest) => RESP_ERR_INVALID_PARAMETER,
        VenusRuntimeError::Dispatch(VenusDispatchError::UnsupportedCommand) => RESP_ERR_INVALID_PARAMETER,
        VenusRuntimeError::Dispatch(VenusDispatchError::State(s)) => state_error_code(s),
        VenusRuntimeError::State(s) => state_error_code(s),
        VenusRuntimeError::Backend(f) => if mentions_memory(f.message@) {
            RESP_ERR_OUT_OF_MEMORY
        } else {
            RESP_ERR_UNSPEC
        },
    }
}

/// The error response type for a state error.
pub open spec fn state_error_code(s: VenusStateError) -> u32 {
    match s {
        VenusStateError::InvalidContext | VenusStateError::ContextAlreadyExists => RESP_ERR_INVALID_CONTEXT_ID,
        VenusStateError::InvalidResource | VenusStateError::ResourceAlreadyExists
        | VenusStateError::ResourceInUse => RESP_ERR_INVALID_RESOURCE_ID,
        _ => RESP_ERR_INVALID_PARAMETER,
    }
}

/// The header of an error response: the error type, the request's fence flag,
/// fence, context and ring.
pub open spec fn error_header(request: CtrlHeader, typ: u32) -> CtrlHeader {
    CtrlHeader {
        typ,
        flags: request.flags & FLAG_FENCE,
        fence_id: request.fence_id,
        ctx_id: request.ctx_id,
        ring_idx: request.ring_idx,
        padding: [0u8, 0u8, 0u8],
    }
}

fn state_code(s: VenusStateError) -> (c: u32)
    ensures
        c == state_error_code(s),
{
    match s {
        VenusStateError::InvalidContext | VenusStateError::ContextAlreadyExists => RESP_ERR_INVALID_CONTEXT_ID,
        VenusStateError::InvalidResource | VenusStateError::ResourceAlreadyExists
        | VenusStateError::ResourceInUse => RESP_ERR_INVALID_RESOURCE_ID,
        _ => RESP_ERR_INVALID_PARAMETER,
    }
}

/// The response that reports `error` for `request`, completing its fence if
/// it asked for one.
pub fn error_response(request: &CtrlHeader, error: &VenusRuntimeError) -> (r: VenusResponse)
    ensures
        r.bytes@ == error_header(*request, error_code(*error)).spec_encode(),
        r.fence == requested_fence(*request),
{
    let typ = match error {
        VenusRuntimeError::Dispatch(VenusDispatchError::InvalidRequest) => RESP_ERR_INVALID_PARAMETER,
        VenusRuntimeError::Dispatch(VenusDispatchError::UnsupportedCommand) => RESP_ERR_INVALID_PARAMETER,
        VenusRuntimeError::Dispatch(VenusDispatchError::State(s)) => state_code(*s),
        VenusRuntimeError::State(s) => state_code(*s),
        VenusRuntimeError::Backend(f) => if contains_memory(f.message.as_slice()) {
            RESP_ERR_OUT_OF_MEMORY
        } else {
            RESP_ERR_UNSPEC
        },
    };
    let header = CtrlHeader {
        typ,
        flags: request.flags & FLAG_FENCE,
        fence_id: request.fence_id,
        ctx_id: request.ctx_id,
        ring_idx: request.ring_idx,
        padding: [0u8, 0u8, 0u8],
    };
    let mut bytes: Vec<u8> = Vec::new();
    put_bytes(&mut bytes, header.encode_le().as_slice());
    let fence = if request.flags & FLAG_FENCE != 0 {
        Some(request.fence_id)
    } else {
        None
    };
    VenusResponse { bytes, fence }
}

/// The two directions of the fence translation.
pub struct FenceMaps {
    pub guest_to_internal: Map<(u32, u8, u64), u64>,
    pub internal_to_guest: Map<(u32, u8, u64), u64>,
}

/// Fence ids chosen by the guest and the ids the backend signals, per
/// context and ring.
pub struct FenceTranslation {
    guest_to_internal: BTreeMap<(u32, u8, u64), u64>,
    internal_to_guest: BTreeMap<(u32, u8, u64), u64>,
}

impl View for FenceTranslation {
    type V = FenceMaps;

    closed spec fn view(&self) -> FenceMaps {
        FenceMaps { guest_to_internal: self.guest_to_internal@, internal_to_guest: self.internal_to_guest@ }
    }
}

/// The request with each of its `n` in-fences that the translation knows
/// replaced by the backend's id.
pub open spec fn translated_request(raw: Seq<u8>, g2i: Map<(u32, u8, u64), u64>, ctx: u32, ring: u8, n: nat) -> Seq<u8> {
    Seq::new(
        raw.len(),
        |j: int|
            if 32 <= j < 32 + 8 * n && g2i.contains_key((ctx, ring, u64_at(raw, 32 + 8 * ((j - 32) / 8)))) {
                le64(g2i[(ctx, ring, u64_at(raw, 32 + 8 * ((j - 32) / 8)))])[(j - 32) % 8]
            } else {
                raw[j]
            },
    )
}

/// The fence reported to the guest for one the backend signalled, and the
/// translation after forgetting it.
pub open spec fn spec_to_guest(m: FenceMaps, f: CompletedFence) -> (CompletedFence, FenceMaps) {
    let key = (f.ctx_id, f.ring_idx, f.fence_id);
    if !m.internal_to_guest.contains_key(key) {
        (f, m)
    } else {
        let guest = m.internal_to_guest[key];
        let gkey = (f.ctx_id, f.ring_idx, guest);
        let out = CompletedFence { fence_id: guest, ..f };
        if !m.guest_to_internal.contains_key(gkey) {
            (out, m)
        } else {
            let internal = m.guest_to_internal[gkey];
            (
                out,
                FenceMaps {
                    guest_to_internal: m.guest_to_internal.remove(gkey),
                    internal_to_guest: m.internal_to_guest.remove((f.ctx_id, f.ring_idx, internal)),
                },
            )
        }
    }
}

impl FenceTranslation {
    pub fn new() -> (t: Self)
        ensures
            t@.guest_to_internal.is_empty(),
            t@.internal_to_guest.is_empty(),
    {
        let t = FenceTranslation { guest_to_internal: BTreeMap::new(), internal_to_guest: BTreeMap::new() };
        assert(t@.guest_to_internal =~= Map::empty());
        assert(t@.internal_to_guest =~= Map::empty());
        t
    }

    /// A copy of the request whose first `n` in-fences, where known, name the
    /// backend's fences.
    pub fn translate_in_fences(&self, request: &[u8], ctx_id: u32, ring: u8, n: u32) -> (out: Vec<u8>)
        requires
            32 + 8 * n <= request@.len(),
        ensures
            out@ == translated_request(request@, self@.guest_to_internal, ctx_id, ring, n as nat),
    {
        let mut out: Vec<u8> = Vec::new();
        put_bytes(&mut out, request);
        let count = n as usize;
        let total = request.len();
        let mut i: usize = 0;
        while i < count
            invariant
                count == n,
                total == request@.len(),
                32 + 8 * count <= total,
                i <= count,
                out@.len() == total,
                forall|j: int|
                    0 <= j < total ==> #[trigger] out@[j] == (if 32 <= j < 32 + 8 * i {
                        translated_request(request@, self@.guest_to_internal, ctx_id, ring, n as nat)[j]
                    } else {
                        request@[j]
                    }),
            decreases count - i,
        {
            let start = 32 + 8 * i;
            let guest = get_u64(request, start);
            match self.guest_to_internal.get(&(ctx_id, ring, guest)) {
                Some(internal) => {
                    let b = vstd::bytes::u64_to_le_bytes(*internal);
                    let mut k: usize = 0;
                    while k < 8
                        invariant
                            k <= 8,
                            start == 32 + 8 * i,
                            start + 8 <= total,
                            b@.len() == 8,
                            i < count,
                            count == n,
                            total == request@.len(),
                            32 + 8 * count <= total,
                            out@.len() == total,
                            b@ == le64(*internal),
                            self@.guest_to_internal.contains_key((ctx_id, ring, guest)),
                            self@.guest_to_internal[(ctx_id, ring, guest)] == *internal,
                            guest == u64_at(request@, start as int),
                            forall|j: int|
                                0 <= j < total ==> #[trigger] out@[j] == (if 32 <= j < 32 + 8 * i + k {
                                    translated_request(request@, self@.guest_to_internal, ctx_id, ring, n as nat)[j]
                                } else {
                                    request@[j]
                                }),
                        decreases 8 - k,
                    {
                        out.set(start + k, b[k]);
                        proof {
                            let j = start + k;
                            assert((j - 32) / 8 == i);
                            assert((j - 32) % 8 == k);
                        }
                        k = k + 1;
                    }
                },
                None => {
                    proof {
                        assert forall|j: int| 32 + 8 * i <= j < 32 + 8 * (i + 1) implies
                            translated_request(request@, self@.guest_to_internal, ctx_id, ring, n as nat)[j] == request@[j] by {
                            assert((j - 32) / 8 == i);
                        }
                    }
                },
            }
            i = i + 1;
        }
        assert(out@ =~= translated_request(request@, self@.guest_to_internal, ctx_id, ring, n as nat));
        out
    }

    /// Remembers that guest fence `guest` of a context and ring is signalled
    /// by the backend as `internal`.
    pub fn record(&mut self, ctx_id: u32, ring: u8, guest: u64, internal: u64)
        ensures
            final(self)@ == (FenceMaps {
                guest_to_internal: old(self)@.guest_to_internal.insert((ctx_id, ring, guest), internal),
                internal_to_guest: old(self)@.internal_to_guest.insert((ctx_id, ring, internal), guest),
            }),
    {
        self.guest_to_internal.insert((ctx_id, ring, guest), internal);
        self.internal_to_guest.insert((ctx_id, ring, internal), guest);
    }

    /// The fence to report to the guest for one the backend signalled; a
    /// translated fence is forgotten once reported.
    pub fn to_guest(&mut self, fence: CompletedFence) -> (g: CompletedFence)
        ensures
            (g, final(self)@) == spec_to_guest(old(self)@, fence),
    {
        let key = (fence.ctx_id, fence.ring_idx, fence.fence_id);
        let guest = match self.internal_to_guest.get(&key) {
            None => return fence,
            Some(g) => *g,
        };
        let out = CompletedFence { fence_id: guest, ..fence };
        let gkey = (fence.ctx_id, fence.ring_idx, guest);
        if !self.guest_to_internal.contains_key(&gkey) {
            return out;
        }
        let internal = self.guest_to_internal.remove(&gkey).unwrap();
        if self.internal_to_guest.contains_key(&(fence.ctx_id, fence.ring_idx, internal)) {
            self.internal_to_guest.remove(&(fence.ctx_id, fence.ring_idx, internal));
        } else {
            assert(self.internal_to_guest@ =~= self.internal_to_guest@.remove((fence.ctx_id, fence.ring_idx, internal)));
        }
        out
    }

    /// The fences to report for those the backend signalled, in order,
    /// each translated as [`FenceTranslation::to_guest`] does.
    pub fn to_guest_all(&mut self, completed: Vec<CompletedFence>) -> (out: Vec<CompletedFence>)
        ensures
            (out@, final(self)@) == spec_to_guest_all(old(self)@, completed@),
    {
        let mut out: Vec<CompletedFence> = Vec::new();
        let mut i: usize = 0;
        while i < completed.len()
            invariant
                i <= completed@.len(),
                (out@, self@) == spec_to_guest_all(old(self)@, completed@.subrange(0, i as int)),
            decreases completed@.len() - i,
        {
            proof {
                assert(completed@.subrange(0, i + 1).drop_last() =~= completed@.subrange(0, i as int));
            }
            let g = self.to_guest(completed[i]);
            out.push(g);
            i = i + 1;
        }
        proof {
            assert(completed@.subrange(0, completed@.len() as int) =~= completed@);
        }
        out
    }
}

/// The fences reported for those the backend signalled, in order, and the
/// translation afterwards.
pub open spec fn spec_to_guest_all(m: FenceMaps, fs: Seq<CompletedFence>) -> (Seq<CompletedFence>, FenceMaps)
    decreases fs.len(),
{
    if fs.len() == 0 {
        (Seq::<CompletedFence>::empty(), m)
    } else {
        let (prev, m1) = spec_to_guest_all(m, fs.drop_last());
        let (g, m2) = spec_to_guest(m1, fs.last());
        (prev.push(g), m2)
    }
}

/// A fence recorded for a guest's fenced submission is reported back under
/// the guest's id when the backend signals it, and forgotten in both
/// directions once reported.
pub proof fn lemma_recorded_fence_reported(m: FenceMaps, ctx: u32, ring: u8, guest: u64, internal: u64)
    ensures
        ({
            let recorded = FenceMaps {
                guest_to_internal: m.guest_to_internal.insert((ctx, ring, guest), internal),
                internal_to_guest: m.internal_to_guest.insert((ctx, ring, internal), guest),
            };
            let (g, after) = spec_to_guest(recorded, CompletedFence { fence_id: internal, ctx_id: ctx, ring_idx: ring });
            &&& g == CompletedFence { fence_id: guest, ctx_id: ctx, ring_idx: ring }
            &&& !after.guest_to_internal.contains_key((ctx, ring, guest))
            &&& !after.internal_to_guest.contains_key((ctx, ring, internal))
        }),
{
}

/// The response bytes with the fence id field of the header set to `fence_id`.
pub open spec fn with_fence_bytes(bytes: Seq<u8>, fence_id: u64) -> Seq<u8> {
    if bytes.len() >= 16 {
        bytes.subrange(0, 8) + le64(fence_id) + bytes.subrange(16, bytes.len() as int)
    } else {
        bytes
    }
}

/// Whether a request is a fenced submission, whose fences are translated.
pub open spec fn is_fenced_submit(h: CtrlHeader) -> bool {
    h.typ == CMD_SUBMIT_3D && h.flags & FLAG_FENCE != 0
}

/// The error of a request that failed after the backend answered: the
/// state's refusal, or the backend's failure, or a reply of the wrong kind.
pub open spec fn resume_error(x: Option<VenusStateError>, reply: BackendReply) -> VenusRuntimeError {
    match x {
        Some(e) => VenusRuntimeError::State(e),
        None => match reply {
            BackendReply::Failed(f) => VenusRuntimeError::Backend(f),
            _ => VenusRuntimeError::Dispatch(VenusDispatchError::InvalidRequest),
        },
    }
}

/// A request of a fenced runtime that waits for the backend.
#[derive(Clone, Debug, PartialEq, Eq)]
pub struct FencedPending {
    pub inner: PendingRequest,
    pub header: CtrlHeader,
    pub fenced: bool,
    pub ring: u8,
}

/// What a request of a fenced runtime needs next.
#[derive(Clone, Debug, PartialEq, Eq)]
pub enum FencedStep {
    Respond(VenusResponse),
    Call(FencedPending),
}

/// A Venus runtime whose guest sees only the fence ids it chose: in-fences of
/// fenced submissions are translated to the backend's ids, and signalled
/// fences back. Failed requests are answered with an error response.
pub struct FencedVenusRuntime {
    pub inner: VenusRuntime,
    pub fences: FenceTranslation,
}

impl FencedVenusRuntime {
    pub fn new(capset_version: u32, capset_size: u32) -> (r: Self)
        ensures
            r.inner.state@.capset_version == capset_version,
            r.inner.state@.capset_size == capset_size,
            r.inner.state@.contexts.is_empty(),
            r.inner.state@.resources.is_empty(),
            r.fences@.guest_to_internal.is_empty(),
            r.fences@.internal_to_guest.is_empty(),
    {
        FencedVenusRuntime { inner: VenusRuntime::new(capset_version, capset_size), fences: FenceTranslation::new() }
    }

    /// Turns the inner runtime's step into this runtime's: errors become
    /// error responses.
    fn wrap(header: CtrlHeader, fenced: bool, ring: u8, step: Result<RuntimeStep, VenusRuntimeError>) -> (r: FencedStep)
        ensures
            match step {
                Ok(RuntimeStep::Respond(resp)) => r == FencedStep::Respond(resp),
                Ok(RuntimeStep::Call(p)) => r == FencedStep::Call(FencedPending { inner: p, header, fenced, ring }),
                Err(e) => r matches FencedStep::Respond(resp) && resp.bytes@ == error_header(header, error_code(e)).spec_encode()
                    && resp.fence == requested_fence(header),
            },
    {
        match step {
            Ok(RuntimeStep::Respond(resp)) => FencedStep::Respond(resp),
            Ok(RuntimeStep::Call(p)) => FencedStep::Call(FencedPending { inner: p, header, fenced, ring }),
            Err(e) => FencedStep::Respond(error_response(&header, &e)),
        }
    }

    /// Decides a request. Anything but a fenced submission goes to the inner
    /// runtime as it is. A fenced submission has its in-fences translated; one
    /// too short for its in-fences is answered as an invalid request.
    pub fn begin(&mut self, request: &[u8]) -> (r: Result<FencedStep, VenusRuntimeError>)
        ensures
            final(self).fences@ == old(self).fences@,
            request@.len() < 24 ==> r == Err::<FencedStep, VenusRuntimeError>(
                VenusRuntimeError::Dispatch(VenusDispatchError::InvalidRequest),
            ) && final(self).inner.state@ == old(self).inner.state@,
            request@.len() >= 24 && !is_fenced_submit(CtrlHeader::spec_parse(request@)) ==> ({
                let (outcome, post) = crate::virtio_gpu::venus::runtime::spec_begin(old(self).inner.state@, request@);
                let h = CtrlHeader::spec_parse(request@);
                &&& final(self).inner.state@ == post
                &&& r matches Ok(step) && match outcome {
                    Ok(_) => match step {
                        FencedStep::Respond(resp) => outcome == Ok::<_, VenusRuntimeError>(
                            crate::virtio_gpu::venus::runtime::StepModel::Respond(resp.bytes@, resp.fence),
                        ),
                        FencedStep::Call(p) => !p.fenced && p.header == h && outcome == Ok::<_, VenusRuntimeError>(
                            crate::virtio_gpu::venus::runtime::StepModel::Call(p.inner.header, p.inner.call@, p.inner.next),
                        ),
                    },
                    Err(e) => step matches FencedStep::Respond(resp) && resp.bytes@ == error_header(h, error_code(e)).spec_encode()
                        && resp.fence == requested_fence(h),
                }
            }),
            request@.len() >= 24 && is_fenced_submit(CtrlHeader::spec_parse(request@)) ==> match Submit3D::spec_decode(request@) {
                None => r == Err::<FencedStep, VenusRuntimeError>(
                    VenusRuntimeError::Dispatch(VenusDispatchError::InvalidRequest),
                ) && final(self).inner.state@ == old(self).inner.state@,
                Some(req) => {
                    let h = CtrlHeader::spec_parse(request@);
                    let ring = submit_ring(h);
                    if 32 + 8 * req.num_in_fences > usize::MAX {
                        r == Err::<FencedStep, VenusRuntimeError>(
                            VenusRuntimeError::Dispatch(VenusDispatchError::InvalidRequest),
                        ) && final(self).inner.state@ == old(self).inner.state@
                    } else if request@.len() < 32 + 8 * req.num_in_fences {
                        final(self).inner.state@ == old(self).inner.state@ && (r matches Ok(FencedStep::Respond(resp))
                            && resp.bytes@ == error_header(
                            h,
                            RESP_ERR_INVALID_PARAMETER,
                        ).spec_encode() && resp.fence == requested_fence(h))
                    } else {
                        let translated = translated_request(
                            request@,
                            old(self).fences@.guest_to_internal,
                            h.ctx_id,
                            ring,
                            req.num_in_fences as nat,
                        );
                        let (outcome, post) = crate::virtio_gpu::venus::runtime::spec_begin(old(self).inner.state@, translated);
                        &&& final(self).inner.state@ == post
                        &&& r matches Ok(step) && match outcome {
                            Ok(_) => match step {
                                FencedStep::Respond(resp) => outcome == Ok::<_, VenusRuntimeError>(
                                    crate::virtio_gpu::venus::runtime::StepModel::Respond(resp.bytes@, resp.fence),
                                ),
                                FencedStep::Call(p) => p.fenced && p.header == h && p.ring == ring && outcome == Ok::<_, VenusRuntimeError>(
                                    crate::virtio_gpu::venus::runtime::StepModel::Call(p.inner.header, p.inner.call@, p.inner.next),
                                ),
                            },
                            Err(e) => step matches FencedStep::Respond(resp) && resp.bytes@ == error_header(h, error_code(e)).spec_encode()
                                && resp.fence == requested_fence(h),
                        }
                    }
                },
            },
    {
        let header = match CtrlHeader::decode_le(request) {
            Some(h) => h,
            None => return Err(VenusRuntimeError::Dispatch(VenusDispatchError::InvalidRequest)),
        };
        if header.typ != CMD_SUBMIT_3D || header.flags & FLAG_FENCE == 0 {
            let step = self.inner.begin(request);
            return Ok(Self::wrap(header, false, 0, step));
        }
        let submit = match Submit3D::decode_le(request) {
            Some(s) => s,
            None => return Err(VenusRuntimeError::Dispatch(VenusDispatchError::InvalidRequest)),
        };
        let ring = if header.flags & FLAG_INFO_RING_IDX != 0 {
            header.ring_idx
        } else {
            0
        };
        let fence_bytes = match (submit.num_in_fences as usize).checked_mul(8) {
            Some(b) => b,
            None => return Err(VenusRuntimeError::Dispatch(VenusDispatchError::InvalidRequest)),
        };
        let end = match 32usize.checked_add(fence_bytes) {
            Some(e) => e,
            None => return Err(VenusRuntimeError::Dispatch(VenusDispatchError::InvalidRequest)),
        };
        if request.len() < end {
            let e = VenusRuntimeError::Dispatch(VenusDispatchError::InvalidRequest);
            return Ok(FencedStep::Respond(error_response(&header, &e)));
        }
        let translated = self.fences.translate_in_fences(request, header.ctx_id, ring, submit.num_in_fences);
        let step = self.inner.begin(translated.as_slice());
        Ok(Self::wrap(header, true, ring, step))
    }

    /// Finishes a request once the backend has answered. An error becomes
    /// an error response. A fenced submission records which backend fence
    /// stands for the guest's and reports the guest's fence.
    pub fn resume(&mut self, pending: FencedPending, reply: BackendReply) -> (r: Result<VenusResponse, VenusRuntimeError>)
        ensures
            ({
                let (outcome, post) = crate::virtio_gpu::venus::runtime::spec_resume(
                    old(self).inner.state@,
                    pending.inner.header,
                    pending.inner.next,
                    reply@,
                );
                let h = pending.header;
                &&& final(self).inner.state@ == post
                &&& match outcome {
                    Err(x) => final(self).fences@ == old(self).fences@ && (r matches Ok(resp) && resp.bytes@
                        == error_header(h, error_code(resume_error(x, reply))).spec_encode() && resp.fence
                        == requested_fence(h)),
                    Ok((bytes, fence)) => if !pending.fenced {
                        final(self).fences@ == old(self).fences@ && (r matches Ok(resp) && resp.bytes@ == bytes
                            && resp.fence == fence)
                    } else {
                        match fence {
                            None => final(self).fences@ == old(self).fences@ && r == Err::<VenusResponse, VenusRuntimeError>(
                                VenusRuntimeError::Dispatch(VenusDispatchError::InvalidRequest),
                            ),
                            Some(internal) => final(self).fences@ == (FenceMaps {
                                guest_to_internal: old(self).fences@.guest_to_internal.insert(
                                    (h.ctx_id, pending.ring, h.fence_id),
                                    internal,
                                ),
                                internal_to_guest: old(self).fences@.internal_to_guest.insert(
                                    (h.ctx_id, pending.ring, internal),
                                    h.fence_id,
                                ),
                            }) && (r matches Ok(resp) && resp.bytes@ == with_fence_bytes(bytes, h.fence_id)
                                && resp.fence == Some(h.fence_id)),
                        }
                    },
                }
            }),
    {
        let header = pending.header;
        let mut response = match self.inner.resume(pending.inner, reply) {
            Ok(resp) => resp,
            Err(e) => return Ok(error_response(&header, &e)),
        };
        if !pending.fenced {
            return Ok(response);
        }
        let internal = match response.fence {
            Some(f) => f,
            None => return Err(VenusRuntimeError::Dispatch(VenusDispatchError::InvalidRequest)),
        };
        self.fences.record(header.ctx_id, pending.ring, header.fence_id, internal);
        if response.bytes.len() >= 16 {
            let b = vstd::bytes::u64_to_le_bytes(header.fence_id);
            let mut k: usize = 0;
            let ghost before = response.bytes@;
            while k < 8
                invariant
                    k <= 8,
                    b@ == le64(header.fence_id),
                    b@.len() == 8,
                    before.len() >= 16,
                    response.bytes@.len() == before.len(),
                    forall|j: int| 0 <= j < before.len() ==> #[trigger] response.bytes@[j] == (if 8 <= j < 8 + k {
                        b@[j - 8]
                    } else {
                        before[j]
                    }),
                decreases 8 - k,
            {
                response.bytes.set(8 + k, b[k]);
                k = k + 1;
            }
            assert(response.bytes@ =~= with_fence_bytes(before, header.fence_id));
        }
        response.fence = Some(header.fence_id);
        Ok(response)
    }
}

} // verus!
