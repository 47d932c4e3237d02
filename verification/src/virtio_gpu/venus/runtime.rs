//! The Venus runtime: the device-side state kept in step with a renderer
//! backend. Each request is decided here; the backend work it needs is handed
//! out as a call, and its reply handed back to finish the request.

use crate::virtio_gpu::protocol::commands::{
    CAPSET_VENUS, CMD_CTX_ATTACH_RESOURCE, CMD_CTX_CREATE, CMD_CTX_DESTROY,
    CMD_CTX_DETACH_RESOURCE, CMD_GET_CAPSET, CMD_GET_CAPSET_INFO, CMD_RESOURCE_ASSIGN_UUID,
    CMD_RESOURCE_CREATE_BLOB, CMD_RESOURCE_MAP_BLOB, CMD_RESOURCE_UNMAP_BLOB, CMD_RESOURCE_UNREF,
    CMD_SUBMIT_3D, FLAG_FENCE, FLAG_INFO_RING_IDX, RESP_OK_CAPSET, RESP_OK_CAPSET_INFO,
    RESP_OK_MAP_INFO, RESP_OK_NODATA, RESP_OK_RESOURCE_UUID, SHM_ID_HOST_VISIBLE,
};
use crate::virtio_gpu::protocol::header::CtrlHeader;
use crate::virtio_gpu::protocol::requests::blob::{ResourceCreateBlob, ResourceMapBlob, ResourceUnmapBlob};
use crate::virtio_gpu::protocol::requests::capset::{GetCapset, GetCapsetInfo};
use crate::virtio_gpu::protocol::requests::context::{
    ContextAttachResource, ContextCreate, ContextDestroy, ContextDetachResource,
};
use crate::virtio_gpu::protocol::requests::standard::{ResourceAssignUuid, ResourceUnref};
use crate::virtio_gpu::protocol::requests::submit::Submit3D;
use crate::virtio_gpu::protocol::wire::{get_u64, le32, lemma_words_small, put_bytes, put_u32, u64_at, words};
use crate::virtio_gpu::venus::dispatcher::{
    assign_uuid, entries_length, read_entries, requested_fence, submit_ring, uuid_array, uuid_bytes,
    VenusDispatchError, VenusResponse,
};
use crate::virtio_gpu::venus::state::{
    spec_assign_uuid, spec_attach_resource, spec_create_blob, spec_create_context,
    spec_destroy_context, spec_detach_resource, spec_map, spec_submit, spec_unmap,
    spec_unref_resource, VenusModel, VenusState, VenusStateError,
};
use vstd::prelude::*;

verus! {

/// A failure reported by the renderer backend, with the text it gave.
#[derive(Clone, Debug, PartialEq, Eq)]
pub struct BackendFailure {
    pub message: Vec<u8>,
}

#[derive(Clone, Debug, PartialEq, Eq)]
pub enum VenusRuntimeError {
    Backend(BackendFailure),
    Dispatch(VenusDispatchError),
    State(VenusStateError),
}

impl vstd::std_specs::convert::FromSpecImpl<VenusDispatchError> for VenusRuntimeError {
    open spec fn obeys_from_spec() -> bool {
        true
    }

    open spec fn from_spec(v: VenusDispatchError) -> Self {
        VenusRuntimeError::Dispatch(v)
    }
}

impl From<VenusDispatchError> for VenusRuntimeError {
    fn from(value: VenusDispatchError) -> (r: Self) {
        VenusRuntimeError::Dispatch(value)
    }
}

/// The work a request needs from the renderer backend.
#[derive(Clone, Debug, PartialEq, Eq)]
pub enum BackendCall {
    CapsetInfo,
    Capset { version: u32 },
    CreateContext { ctx_id: u32, context_init: u32, name: Vec<u8> },
    DestroyContext { ctx_id: u32 },
    AttachResource { ctx_id: u32, resource_id: u32 },
    DetachResource { ctx_id: u32, resource_id: u32 },
    CreateBlob { ctx_id: u32, resource_id: u32, blob_mem: u32, blob_flags: u32, blob_id: u64, size: u64 },
    Submit {
        ctx_id: u32,
        flags: u32,
        ring_idx: u8,
        fence_id: u64,
        commands: Vec<u8>,
        in_fences: Vec<u64>,
    },
}

/// The abstract value of a backend call.
pub enum CallModel {
    CapsetInfo,
    Capset { version: u32 },
    CreateContext { ctx_id: u32, context_init: u32, name: Seq<u8> },
    DestroyContext { ctx_id: u32 },
    AttachResource { ctx_id: u32, resource_id: u32 },
    DetachResource { ctx_id: u32, resource_id: u32 },
    CreateBlob { ctx_id: u32, resource_id: u32, blob_mem: u32, blob_flags: u32, blob_id: u64, size: u64 },
    Submit {
        ctx_id: u32,
        flags: u32,
        ring_idx: u8,
        fence_id: u64,
        commands: Seq<u8>,
        in_fences: Seq<u64>,
    },
}

impl View for BackendCall {
    type V = CallModel;

    open spec fn view(&self) -> CallModel {
        match self {
            BackendCall::CapsetInfo => CallModel::CapsetInfo,
            BackendCall::Capset { version } => CallModel::Capset { version: *version },
            BackendCall::CreateContext { ctx_id, context_init, name } => CallModel::CreateContext {
                ctx_id: *ctx_id,
                context_init: *context_init,
                name: name@,
            },
            BackendCall::DestroyContext { ctx_id } => CallModel::DestroyContext { ctx_id: *ctx_id },
            BackendCall::AttachResource { ctx_id, resource_id } => CallModel::AttachResource {
                ctx_id: *ctx_id,
                resource_id: *resource_id,
            },
            BackendCall::DetachResource { ctx_id, resource_id } => CallModel::DetachResource {
                ctx_id: *ctx_id,
                resource_id: *resource_id,
            },
            BackendCall::CreateBlob { ctx_id, resource_id, blob_mem, blob_flags, blob_id, size } =>
                CallModel::CreateBlob {
                ctx_id: *ctx_id,
                resource_id: *resource_id,
                blob_mem: *blob_mem,
                blob_flags: *blob_flags,
                blob_id: *blob_id,
                size: *size,
            },
            BackendCall::Submit { ctx_id, flags, ring_idx, fence_id, commands, in_fences } =>
                CallModel::Submit {
                ctx_id: *ctx_id,
                flags: *flags,
                ring_idx: *ring_idx,
                fence_id: *fence_id,
                commands: commands@,
                in_fences: in_fences@,
            },
        }
    }
}

/// The backend's answer to a call.
#[derive(Clone, Debug, PartialEq, Eq)]
pub enum BackendReply {
    Done,
    CapsetInfo { version: u32, size: u32 },
    Capset { data: Vec<u8> },
    Failed(BackendFailure),
}

/// What finishes a request once the backend has answered.
#[derive(Clone, Copy, Debug, PartialEq, Eq, Structural)]
pub enum Continuation {
    /// Answer with no data.
    Answer,
    /// Answer with the capability-set information the backend gave.
    CapsetInfo,
    /// Answer with the capability set the backend gave.
    Capset,
    /// Forget the context and answer with no data.
    DestroyContext { ctx_id: u32 },
    /// Detach the resource from the context and answer with no data.
    DetachResource { ctx_id: u32, resource_id: u32 },
}

/// A request waiting for the backend.
#[derive(Clone, Debug, PartialEq, Eq)]
pub struct PendingRequest {
    pub header: CtrlHeader,
    pub call: BackendCall,
    pub next: Continuation,
}

/// What a request needs next: nothing but its response, or a backend call.
#[derive(Clone, Debug, PartialEq, Eq)]
pub enum RuntimeStep {
    Respond(VenusResponse),
    Call(PendingRequest),
}

/// The abstract value of a step.
pub enum StepModel {
    Respond(Seq<u8>, Option<u64>),
    Call(CtrlHeader, CallModel, Continuation),
}

impl View for RuntimeStep {
    type V = StepModel;

    open spec fn view(&self) -> StepModel {
        match self {
            RuntimeStep::Respond(r) => StepModel::Respond(r.bytes@, r.fence),
            RuntimeStep::Call(p) => StepModel::Call(p.header, p.call@, p.next),
        }
    }
}

/// A response header of type `typ` that keeps everything else of the request header.
pub open spec fn answer_header(h: CtrlHeader, typ: u32) -> CtrlHeader {
    CtrlHeader { typ, ..h }
}

/// The no-data answer to a request.
pub open spec fn ok_answer(h: CtrlHeader) -> StepModel {
    StepModel::Respond(answer_header(h, RESP_OK_NODATA).spec_encode(), requested_fence(h))
}

/// The in-fences listed after a submission header.
pub open spec fn in_fence_list(raw: Seq<u8>, n: nat) -> Seq<u64> {
    Seq::new(n, |i: int| u64_at(raw, 32 + 8 * i))
}

/// The outcome of a state operation that is answered with no data.
pub open spec fn state_step(
    m: VenusModel,
    h: CtrlHeader,
    r: Result<VenusModel, VenusStateError>,
) -> (Result<StepModel, VenusRuntimeError>, VenusModel) {
    match r {
        Ok(m2) => (Ok(ok_answer(h)), m2),
        Err(e) => (Err(VenusRuntimeError::State(e)), m),
    }
}

/// The first half of a request: what it does to the state before the backend
/// is involved, and what it needs next.
pub open spec fn spec_begin(m: VenusModel, raw: Seq<u8>) -> (Result<StepModel, VenusRuntimeError>, VenusModel) {
    let invalid = (Err(VenusRuntimeError::Dispatch(VenusDispatchError::InvalidRequest)), m);
    let unsupported = (
        Err(VenusRuntimeError::Dispatch(VenusDispatchError::State(VenusStateError::UnsupportedCapability))),
        m,
    );
    let missing = (
        Err(VenusRuntimeError::Dispatch(VenusDispatchError::State(VenusStateError::InvalidResource))),
        m,
    );
    if raw.len() < 24 {
        invalid
    } else {
        let h = CtrlHeader::spec_parse(raw);
        if h.typ == CMD_GET_CAPSET_INFO {
            match GetCapsetInfo::spec_decode(raw) {
                None => invalid,
                Some(req) => if req.capset_index != 0 {
                    unsupported
                } else {
                    (Ok(StepModel::Call(h, CallModel::CapsetInfo, Continuation::CapsetInfo)), m)
                },
            }
        } else if h.typ == CMD_GET_CAPSET {
            match GetCapset::spec_decode(raw) {
                None => invalid,
                Some(req) => if req.capset_id != CAPSET_VENUS || req.capset_version == 0 {
                    unsupported
                } else {
                    (
                        Ok(StepModel::Call(h, CallModel::Capset { version: req.capset_version }, Continuation::Capset)),
                        m,
                    )
                },
            }
        } else if h.typ == CMD_CTX_CREATE {
            match ContextCreate::spec_decode(raw) {
                None => invalid,
                Some(req) => if req.spec_capset_id() != CAPSET_VENUS {
                    unsupported
                } else {
                    let n: int = if req.nlen < 64 { req.nlen as int } else { 64 };
                    let name = req.debug_name@.subrange(0, n);
                    match spec_create_context(m, req.header.ctx_id, CAPSET_VENUS, name) {
                        Err(e) => (Err(VenusRuntimeError::State(e)), m),
                        Ok(m2) => (
                            Ok(
                                StepModel::Call(
                                    h,
                                    CallModel::CreateContext {
                                        ctx_id: req.header.ctx_id,
                                        context_init: req.context_init,
                                        name,
                                    },
                                    Continuation::Answer,
                                ),
                            ),
                            m2,
                        ),
                    }
                },
            }
        } else if h.typ == CMD_CTX_DESTROY {
            match ContextDestroy::spec_decode(raw) {
                None => invalid,
                Some(req) => (
                    Ok(
                        StepModel::Call(
                            h,
                            CallModel::DestroyContext { ctx_id: req.header.ctx_id },
                            Continuation::DestroyContext { ctx_id: req.header.ctx_id },
                        ),
                    ),
                    m,
                ),
            }
        } else if h.typ == CMD_CTX_ATTACH_RESOURCE {
            match ContextAttachResource::spec_decode(raw) {
                None => invalid,
                Some(req) => match spec_attach_resource(m, req.header.ctx_id, req.resource_id) {
                    Err(e) => (Err(VenusRuntimeError::State(e)), m),
                    Ok(m2) => (
                        Ok(
                            StepModel::Call(
                                h,
                                CallModel::AttachResource { ctx_id: req.header.ctx_id, resource_id: req.resource_id },
                                Continuation::Answer,
                            ),
                        ),
                        m2,
                    ),
                },
            }
        } else if h.typ == CMD_CTX_DETACH_RESOURCE {
            match ContextDetachResource::spec_decode(raw) {
                None => invalid,
                Some(req) => (
                    Ok(
                        StepModel::Call(
                            h,
                            CallModel::DetachResource { ctx_id: req.header.ctx_id, resource_id: req.resource_id },
                            Continuation::DetachResource { ctx_id: req.header.ctx_id, resource_id: req.resource_id },
                        ),
                    ),
                    m,
                ),
            }
        } else if h.typ == CMD_RESOURCE_CREATE_BLOB {
            match ResourceCreateBlob::spec_decode(raw) {
                None => invalid,
                Some(req) => {
                    let end = 56 + 16 * req.nr_entries;
                    if 16 * req.nr_entries > u32::MAX || end > usize::MAX || raw.len() < end {
                        invalid
                    } else if entries_length(raw.subrange(56, end), req.nr_entries as nat) > u64::MAX {
                        invalid
                    } else {
                        match spec_create_blob(
                            m,
                            req.resource_id,
                            req.blob_id,
                            req.size,
                            req.blob_mem,
                            req.blob_flags,
                            entries_length(raw.subrange(56, end), req.nr_entries as nat) as u64,
                        ) {
                            Err(e) => (Err(VenusRuntimeError::State(e)), m),
                            Ok(m2) => (
                                Ok(
                                    StepModel::Call(
                                        h,
                                        CallModel::CreateBlob {
                                            ctx_id: req.header.ctx_id,
                                            resource_id: req.resource_id,
                                            blob_mem: req.blob_mem,
                                            blob_flags: req.blob_flags,
                                            blob_id: req.blob_id,
                                            size: req.size,
                                        },
                                        Continuation::Answer,
                                    ),
                                ),
                                m2,
                            ),
                        }
                    }
                },
            }
        } else if h.typ == CMD_RESOURCE_UNREF {
            match ResourceUnref::spec_decode(raw) {
                None => invalid,
                Some(req) => state_step(m, h, spec_unref_resource(m, req.resource_id)),
            }
        } else if h.typ == CMD_RESOURCE_MAP_BLOB {
            match ResourceMapBlob::spec_decode(raw) {
                None => invalid,
                Some(req) => if !m.resources.contains_key(req.resource_id) {
                    missing
                } else {
                    match spec_map(m.resources[req.resource_id], req.offset) {
                        Err(e) => (Err(VenusRuntimeError::State(e)), m),
                        Ok(r) => (
                            Ok(
                                StepModel::Respond(
                                    answer_header(h, RESP_OK_MAP_INFO).spec_encode() + words(
                                        seq![SHM_ID_HOST_VISIBLE, 0u32],
                                    ),
                                    requested_fence(h),
                                ),
                            ),
                            m.with_resource(req.resource_id, r),
                        ),
                    }
                },
            }
        } else if h.typ == CMD_RESOURCE_UNMAP_BLOB {
            match ResourceUnmapBlob::spec_decode(raw) {
                None => invalid,
                Some(req) => if !m.resources.contains_key(req.resource_id) {
                    missing
                } else {
                    match spec_unmap(m.resources[req.resource_id]) {
                        Err(e) => (Err(VenusRuntimeError::State(e)), m),
                        Ok(r) => (Ok(ok_answer(h)), m.with_resource(req.resource_id, r)),
                    }
                },
            }
        } else if h.typ == CMD_RESOURCE_ASSIGN_UUID {
            match ResourceAssignUuid::spec_decode(raw) {
                None => invalid,
                Some(req) => if !m.resources.contains_key(req.resource_id) {
                    missing
                } else {
                    match spec_assign_uuid(m.resources[req.resource_id], uuid_array(req.resource_id)) {
                        Err(e) => (Err(VenusRuntimeError::State(e)), m),
                        Ok(r) => (
                            Ok(
                                StepModel::Respond(
                                    answer_header(h, RESP_OK_RESOURCE_UUID).spec_encode() + uuid_bytes(
                                        req.resource_id,
                                    ),
                                    requested_fence(h),
                                ),
                            ),
                            m.with_resource(req.resource_id, r),
                        ),
                    }
                },
            }
        } else if h.typ == CMD_SUBMIT_3D {
            match Submit3D::spec_decode(raw) {
                None => invalid,
                Some(req) => {
                    let begin = 32 + 8 * req.num_in_fences;
                    let end = begin + req.size;
                    if end > usize::MAX || end > raw.len() || req.size % 4 != 0 {
                        invalid
                    } else {
                        let ring = submit_ring(req.header);
                        match spec_submit(m, req.header.ctx_id, ring, req.size as int) {
                            Err(e) => (Err(VenusRuntimeError::State(e)), m),
                            Ok((m2, _p)) => (
                                Ok(
                                    StepModel::Call(
                                        h,
                                        CallModel::Submit {
                                            ctx_id: req.header.ctx_id,
                                            flags: req.header.flags,
                                            ring_idx: ring,
                                            fence_id: req.header.fence_id,
                                            commands: raw.subrange(begin, end),
                                            in_fences: in_fence_list(raw, req.num_in_fences as nat),
                                        },
                                        Continuation::Answer,
                                    ),
                                ),
                                m2,
                            ),
                        }
                    }
                },
            }
        } else {
            (Err(VenusRuntimeError::Dispatch(VenusDispatchError::UnsupportedCommand)), m)
        }
    }
}

/// The abstract value of a backend reply.
pub enum ReplyModel {
    Done,
    CapsetInfo { version: u32, size: u32 },
    Capset { data: Seq<u8> },
    Failed(Seq<u8>),
}

impl View for BackendReply {
    type V = ReplyModel;

    open spec fn view(&self) -> ReplyModel {
        match self {
            BackendReply::Done => ReplyModel::Done,
            BackendReply::CapsetInfo { version, size } => ReplyModel::CapsetInfo { version: *version, size: *size },
            BackendReply::Capset { data } => ReplyModel::Capset { data: data@ },
            BackendReply::Failed(f) => ReplyModel::Failed(f.message@),
        }
    }
}

/// The second half of a request, once the backend has answered: the
/// response bytes and fence, or the error; and the state after it. A failed
/// backend call is a backend error; a reply that does not answer the call is
/// an invalid request.
pub open spec fn spec_resume(
    m: VenusModel,
    h: CtrlHeader,
    next: Continuation,
    reply: ReplyModel,
) -> (Result<(Seq<u8>, Option<u64>), Option<VenusStateError>>, VenusModel) {
    let ok = (Ok((answer_header(h, RESP_OK_NODATA).spec_encode(), requested_fence(h))), m);
    match next {
        Continuation::Answer => match reply {
            ReplyModel::Failed(_) => (Err(None), m),
            _ => ok,
        },
        Continuation::CapsetInfo => match reply {
            ReplyModel::CapsetInfo { version, size } => (
                Ok(
                    (
                        answer_header(h, RESP_OK_CAPSET_INFO).spec_encode() + words(
                            seq![CAPSET_VENUS, version, size, 0u32],
                        ),
                        requested_fence(h),
                    ),
                ),
                m,
            ),
            _ => (Err(None), m),
        },
        Continuation::Capset => match reply {
            ReplyModel::Capset { data } => (
                Ok((answer_header(h, RESP_OK_CAPSET).spec_encode() + data, requested_fence(h))),
                m,
            ),
            _ => (Err(None), m),
        },
        Continuation::DestroyContext { ctx_id } => match spec_destroy_context(m, ctx_id) {
            Err(e) => (Err(Some(e)), m),
            Ok(m2) => (Ok((answer_header(h, RESP_OK_NODATA).spec_encode(), requested_fence(h))), m2),
        },
        Continuation::DetachResource { ctx_id, resource_id } => match spec_detach_resource(
            m,
            ctx_id,
            resource_id,
        ) {
            Err(e) => (Err(Some(e)), m),
            Ok(m2) => (Ok((answer_header(h, RESP_OK_NODATA).spec_encode(), requested_fence(h))), m2),
        },
    }
}

/// The Venus device state of a runtime; the backend it drives lives with
/// whoever performs the calls.
pub struct VenusRuntime {
    pub state: VenusState,
}

/// A response whose header answers `h` with type `typ` and nothing after it.
fn answer(h: CtrlHeader, typ: u32) -> (r: VenusResponse)
    ensures
        r.bytes@ == answer_header(h, typ).spec_encode(),
        r.fence == requested_fence(h),
{
    let header = CtrlHeader { typ, ..h };
    let mut bytes: Vec<u8> = Vec::new();
    put_bytes(&mut bytes, header.encode_le().as_slice());
    let fence = if h.flags & FLAG_FENCE != 0 {
        Some(h.fence_id)
    } else {
        None
    };
    VenusResponse { bytes, fence }
}

impl VenusRuntime {
    /// A runtime with a fresh state announcing the backend's capability set.
    pub fn new(capset_version: u32, capset_size: u32) -> (r: Self)
        ensures
            r.state@.contexts.is_empty(),
            r.state@.resources.is_empty(),
            r.state@.capset_version == capset_version,
            r.state@.capset_size == capset_size,
            r.state@.wf(),
    {
        let mut state = VenusState::new();
        state.capset_version = capset_version;
        state.capset_size = capset_size;
        VenusRuntime { state }
    }

    fn begin_get_capset_info(&mut self, request: &[u8], header: CtrlHeader) -> (r: Result<RuntimeStep, VenusRuntimeError>)
        requires
            request@.len() >= 24,
            header == CtrlHeader::spec_parse(request@),
            header.typ == CMD_GET_CAPSET_INFO,
        ensures
            ({
                let (outcome, post) = spec_begin(old(self).state@, request@);
                &&& final(self).state@ == post
                &&& match r {
                    Ok(step) => outcome == Ok::<StepModel, VenusRuntimeError>(step@),
                    Err(e) => outcome == Err::<StepModel, VenusRuntimeError>(e),
                }
            }),
    {
        let invalid = VenusRuntimeError::Dispatch(VenusDispatchError::InvalidRequest);
        let req = match GetCapsetInfo::decode_le(request) {
            Some(r) => r,
            None => return Err(invalid),
        };
        if req.capset_index != 0 {
            return Err(VenusRuntimeError::Dispatch(VenusDispatchError::State(VenusStateError::UnsupportedCapability)));
        }
        Ok(RuntimeStep::Call(PendingRequest { header, call: BackendCall::CapsetInfo, next: Continuation::CapsetInfo }))
    }

    fn begin_get_capset(&mut self, request: &[u8], header: CtrlHeader) -> (r: Result<RuntimeStep, VenusRuntimeError>)
        requires
            request@.len() >= 24,
            header == CtrlHeader::spec_parse(request@),
            header.typ == CMD_GET_CAPSET,
        ensures
            ({
                let (outcome, post) = spec_begin(old(self).state@, request@);
                &&& final(self).state@ == post
                &&& match r {
                    Ok(step) => outcome == Ok::<StepModel, VenusRuntimeError>(step@),
                    Err(e) => outcome == Err::<StepModel, VenusRuntimeError>(e),
                }
            }),
    {
        let invalid = VenusRuntimeError::Dispatch(VenusDispatchError::InvalidRequest);
        let req = match GetCapset::decode_le(request) {
            Some(r) => r,
            None => return Err(invalid),
        };
        if req.capset_id != CAPSET_VENUS || req.capset_version == 0 {
            return Err(VenusRuntimeError::Dispatch(VenusDispatchError::State(VenusStateError::UnsupportedCapability)));
        }
        Ok(
            RuntimeStep::Call(
                PendingRequest {
                    header,
                    call: BackendCall::Capset { version: req.capset_version },
                    next: Continuation::Capset,
                },
            ),
        )
    }

    fn begin_ctx_create(&mut self, request: &[u8], header: CtrlHeader) -> (r: Result<RuntimeStep, VenusRuntimeError>)
        requires
            request@.len() >= 24,
            header == CtrlHeader::spec_parse(request@),
            header.typ == CMD_CTX_CREATE,
        ensures
            ({
                let (outcome, post) = spec_begin(old(self).state@, request@);
                &&& final(self).state@ == post
                &&& match r {
                    Ok(step) => outcome == Ok::<StepModel, VenusRuntimeError>(step@),
                    Err(e) => outcome == Err::<StepModel, VenusRuntimeError>(e),
                }
            }),
    {
        let invalid = VenusRuntimeError::Dispatch(VenusDispatchError::InvalidRequest);
        let req = match ContextCreate::decode_le(request) {
            Some(r) => r,
            None => return Err(invalid),
        };
        if !req.is_venus() {
            return Err(VenusRuntimeError::Dispatch(VenusDispatchError::State(VenusStateError::UnsupportedCapability)));
        }
        let name_len: usize = if req.nlen < 64 { req.nlen as usize } else { 64 };
        let name = &req.debug_name.as_slice()[0..name_len];
        match self.state.create_context(req.header.ctx_id, CAPSET_VENUS, name) {
            Ok(()) => {},
            Err(e) => return Err(VenusRuntimeError::State(e)),
        }
        let mut owned: Vec<u8> = Vec::new();
        put_bytes(&mut owned, name);
        Ok(
            RuntimeStep::Call(
                PendingRequest {
                    header,
                    call: BackendCall::CreateContext {
                        ctx_id: req.header.ctx_id,
                        context_init: req.context_init,
                        name: owned,
                    },
                    next: Continuation::Answer,
                },
            ),
        )
    }

    fn begin_ctx_destroy(&mut self, request: &[u8], header: CtrlHeader) -> (r: Result<RuntimeStep, VenusRuntimeError>)
        requires
            request@.len() >= 24,
            header == CtrlHeader::spec_parse(request@),
            header.typ == CMD_CTX_DESTROY,
        ensures
            ({
                let (outcome, post) = spec_begin(old(self).state@, request@);
                &&& final(self).state@ == post
                &&& match r {
                    Ok(step) => outcome == Ok::<StepModel, VenusRuntimeError>(step@),
                    Err(e) => outcome == Err::<StepModel, VenusRuntimeError>(e),
                }
            }),
    {
        let invalid = VenusRuntimeError::Dispatch(VenusDispatchError::InvalidRequest);
        let req = match ContextDestroy::decode_le(request) {
            Some(r) => r,
            None => return Err(invalid),
        };
        Ok(
            RuntimeStep::Call(
                PendingRequest {
                    header,
                    call: BackendCall::DestroyContext { ctx_id: req.header.ctx_id },
                    next: Continuation::DestroyContext { ctx_id: req.header.ctx_id },
                },
            ),
        )
    }

    fn begin_ctx_attach_resource(&mut self, request: &[u8], header: CtrlHeader) -> (r: Result<RuntimeStep, VenusRuntimeError>)
        requires
            request@.len() >= 24,
            header == CtrlHeader::spec_parse(request@),
            header.typ == CMD_CTX_ATTACH_RESOURCE,
        ensures
            ({
                let (outcome, post) = spec_begin(old(self).state@, request@);
                &&& final(self).state@ == post
                &&& match r {
                    Ok(step) => outcome == Ok::<StepModel, VenusRuntimeError>(step@),
                    Err(e) => outcome == Err::<StepModel, VenusRuntimeError>(e),
                }
            }),
    {
        let invalid = VenusRuntimeError::Dispatch(VenusDispatchError::InvalidRequest);
        let req = match ContextAttachResource::decode_le(request) {
            Some(r) => r,
            None => return Err(invalid),
        };
        match self.state.attach_resource(req.header.ctx_id, req.resource_id) {
            Ok(()) => {},
            Err(e) => return Err(VenusRuntimeError::State(e)),
        }
        Ok(
            RuntimeStep::Call(
                PendingRequest {
                    header,
                    call: BackendCall::AttachResource { ctx_id: req.header.ctx_id, resource_id: req.resource_id },
                    next: Continuation::Answer,
                },
            ),
        )
    }

    fn begin_ctx_detach_resource(&mut self, request: &[u8], header: CtrlHeader) -> (r: Result<RuntimeStep, VenusRuntimeError>)
        requires
            request@.len() >= 24,
            header == CtrlHeader::spec_parse(request@),
            header.typ == CMD_CTX_DETACH_RESOURCE,
        ensures
            ({
                let (outcome, post) = spec_begin(old(self).state@, request@);
                &&& final(self).state@ == post
                &&& match r {
                    Ok(step) => outcome == Ok::<StepModel, VenusRuntimeError>(step@),
                    Err(e) => outcome == Err::<StepModel, VenusRuntimeError>(e),
                }
            }),
    {
        let invalid = VenusRuntimeError::Dispatch(VenusDispatchError::InvalidRequest);
        let req = match ContextDetachResource::decode_le(request) {
            Some(r) => r,
            None => return Err(invalid),
        };
        Ok(
            RuntimeStep::Call(
                PendingRequest {
                    header,
                    call: BackendCall::DetachResource { ctx_id: req.header.ctx_id, resource_id: req.resource_id },
                    next: Continuation::DetachResource { ctx_id: req.header.ctx_id, resource_id: req.resource_id },
                },
            ),
        )
    }

    fn begin_resource_create_blob(&mut self, request: &[u8], header: CtrlHeader) -> (r: Result<RuntimeStep, VenusRuntimeError>)
        requires
            request@.len() >= 24,
            header == CtrlHeader::spec_parse(request@),
            header.typ == CMD_RESOURCE_CREATE_BLOB,
        ensures
            ({
                let (outcome, post) = spec_begin(old(self).state@, request@);
                &&& final(self).state@ == post
                &&& match r {
                    Ok(step) => outcome == Ok::<StepModel, VenusRuntimeError>(step@),
                    Err(e) => outcome == Err::<StepModel, VenusRuntimeError>(e),
                }
            }),
    {
        let invalid = VenusRuntimeError::Dispatch(VenusDispatchError::InvalidRequest);
        let req = match ResourceCreateBlob::decode_le(request) {
            Some(r) => r,
            None => return Err(invalid),
        };
        let entry_bytes = match req.nr_entries.checked_mul(16u32) {
            Some(b) => b as usize,
            None => return Err(invalid),
        };
        let end = match 56usize.checked_add(entry_bytes) {
            Some(e) => e,
            None => return Err(invalid),
        };
        if request.len() < end {
            return Err(invalid);
        }
        let guest_size = match read_entries(&request[56..end], req.nr_entries) {
            Ok(s) => s,
            Err(_) => return Err(invalid),
        };
        match self.state.create_blob(req.resource_id, req.blob_id, req.size, req.blob_mem, req.blob_flags, guest_size) {
            Ok(()) => {},
            Err(e) => return Err(VenusRuntimeError::State(e)),
        }
        Ok(
            RuntimeStep::Call(
                PendingRequest {
                    header,
                    call: BackendCall::CreateBlob {
                        ctx_id: req.header.ctx_id,
                        resource_id: req.resource_id,
                        blob_mem: req.blob_mem,
                        blob_flags: req.blob_flags,
                        blob_id: req.blob_id,
                        size: req.size,
                    },
                    next: Continuation::Answer,
                },
            ),
        )
    }

    fn begin_resource_unref(&mut self, request: &[u8], header: CtrlHeader) -> (r: Result<RuntimeStep, VenusRuntimeError>)
        requires
            request@.len() >= 24,
            header == CtrlHeader::spec_parse(request@),
            header.typ == CMD_RESOURCE_UNREF,
        ensures
            ({
                let (outcome, post) = spec_begin(old(self).state@, request@);
                &&& final(self).state@ == post
                &&& match r {
                    Ok(step) => outcome == Ok::<StepModel, VenusRuntimeError>(step@),
                    Err(e) => outcome == Err::<StepModel, VenusRuntimeError>(e),
                }
            }),
    {
        let invalid = VenusRuntimeError::Dispatch(VenusDispatchError::InvalidRequest);
        let req = match ResourceUnref::decode_le(request) {
            Some(r) => r,
            None => return Err(invalid),
        };
        match self.state.unref_resource(req.resource_id) {
            Ok(()) => {},
            Err(e) => return Err(VenusRuntimeError::State(e)),
        }
        Ok(RuntimeStep::Respond(answer(header, RESP_OK_NODATA)))
    }

    fn begin_resource_map_blob(&mut self, request: &[u8], header: CtrlHeader) -> (r: Result<RuntimeStep, VenusRuntimeError>)
        requires
            request@.len() >= 24,
            header == CtrlHeader::spec_parse(request@),
            header.typ == CMD_RESOURCE_MAP_BLOB,
        ensures
            ({
                let (outcome, post) = spec_begin(old(self).state@, request@);
                &&& final(self).state@ == post
                &&& match r {
                    Ok(step) => outcome == Ok::<StepModel, VenusRuntimeError>(step@),
                    Err(e) => outcome == Err::<StepModel, VenusRuntimeError>(e),
                }
            }),
    {
        let invalid = VenusRuntimeError::Dispatch(VenusDispatchError::InvalidRequest);
        let req = match ResourceMapBlob::decode_le(request) {
            Some(r) => r,
            None => return Err(invalid),
        };
        if !self.state.resources.contains_key(&req.resource_id) {
            return Err(VenusRuntimeError::Dispatch(VenusDispatchError::State(VenusStateError::InvalidResource)));
        }
        match self.state.map_blob(req.resource_id, req.offset) {
            Ok(_) => {},
            Err(e) => return Err(VenusRuntimeError::State(e)),
        }
        let mut response = answer(header, RESP_OK_MAP_INFO);
        put_u32(&mut response.bytes, SHM_ID_HOST_VISIBLE);
        put_u32(&mut response.bytes, 0);
        proof {
            lemma_words_small(SHM_ID_HOST_VISIBLE, 0u32, 0u32, 0u32);
            assert(response.bytes@ =~= answer_header(header, RESP_OK_MAP_INFO).spec_encode() + words(
                seq![SHM_ID_HOST_VISIBLE, 0u32],
            ));
        }
        Ok(RuntimeStep::Respond(response))
    }

    fn begin_resource_unmap_blob(&mut self, request: &[u8], header: CtrlHeader) -> (r: Result<RuntimeStep, VenusRuntimeError>)
        requires
            request@.len() >= 24,
            header == CtrlHeader::spec_parse(request@),
            header.typ == CMD_RESOURCE_UNMAP_BLOB,
        ensures
            ({
                let (outcome, post) = spec_begin(old(self).state@, request@);
                &&& final(self).state@ == post
                &&& match r {
                    Ok(step) => outcome == Ok::<StepModel, VenusRuntimeError>(step@),
                    Err(e) => outcome == Err::<StepModel, VenusRuntimeError>(e),
                }
            }),
    {
        let invalid = VenusRuntimeError::Dispatch(VenusDispatchError::InvalidRequest);
        let req = match ResourceUnmapBlob::decode_le(request) {
            Some(r) => r,
            None => return Err(invalid),
        };
        if !self.state.resources.contains_key(&req.resource_id) {
            return Err(VenusRuntimeError::Dispatch(VenusDispatchError::State(VenusStateError::InvalidResource)));
        }
        match self.state.unmap_blob(req.resource_id) {
            Ok(()) => {},
            Err(e) => return Err(VenusRuntimeError::State(e)),
        }
        Ok(RuntimeStep::Respond(answer(header, RESP_OK_NODATA)))
    }

    fn begin_resource_assign_uuid(&mut self, request: &[u8], header: CtrlHeader) -> (r: Result<RuntimeStep, VenusRuntimeError>)
        requires
            request@.len() >= 24,
            header == CtrlHeader::spec_parse(request@),
            header.typ == CMD_RESOURCE_ASSIGN_UUID,
        ensures
            ({
                let (outcome, post) = spec_begin(old(self).state@, request@);
                &&& final(self).state@ == post
                &&& match r {
                    Ok(step) => outcome == Ok::<StepModel, VenusRuntimeError>(step@),
                    Err(e) => outcome == Err::<StepModel, VenusRuntimeError>(e),
                }
            }),
    {
        let invalid = VenusRuntimeError::Dispatch(VenusDispatchError::InvalidRequest);
        let req = match ResourceAssignUuid::decode_le(request) {
            Some(r) => r,
            None => return Err(invalid),
        };
        if !self.state.resources.contains_key(&req.resource_id) {
            return Err(VenusRuntimeError::Dispatch(VenusDispatchError::State(VenusStateError::InvalidResource)));
        }
        let uuid = assign_uuid(req.resource_id);
        proof {
            let e = uuid_array(req.resource_id);
            assert(exists|a: [u8; 16]| a@ == uuid_bytes(req.resource_id));
            assert forall|j: int| 0 <= j < 16 implies uuid[j] == e[j] by {
                assert(uuid@[j] == e@[j]);
            }
            assert(uuid =~= e);
        }
        match self.state.set_uuid(req.resource_id, uuid) {
            Ok(()) => {},
            Err(e) => return Err(VenusRuntimeError::State(e)),
        }
        let mut response = answer(header, RESP_OK_RESOURCE_UUID);
        put_bytes(&mut response.bytes, uuid.as_slice());
        Ok(RuntimeStep::Respond(response))
    }

    fn begin_submit_3d(&mut self, request: &[u8], header: CtrlHeader) -> (r: Result<RuntimeStep, VenusRuntimeError>)
        requires
            request@.len() >= 24,
            header == CtrlHeader::spec_parse(request@),
            header.typ == CMD_SUBMIT_3D,
        ensures
            ({
                let (outcome, post) = spec_begin(old(self).state@, request@);
                &&& final(self).state@ == post
                &&& match r {
                    Ok(step) => outcome == Ok::<StepModel, VenusRuntimeError>(step@),
                    Err(e) => outcome == Err::<StepModel, VenusRuntimeError>(e),
                }
            }),
    {
        let invalid = VenusRuntimeError::Dispatch(VenusDispatchError::InvalidRequest);
        let req = match Submit3D::decode_le(request) {
            Some(r) => r,
            None => return Err(invalid),
        };
        let fence_bytes = match (req.num_in_fences as usize).checked_mul(8) {
            Some(b) => b,
            None => return Err(invalid),
        };
        let command_begin = match 32usize.checked_add(fence_bytes) {
            Some(b) => b,
            None => return Err(invalid),
        };
        let command_end = match command_begin.checked_add(req.size as usize) {
            Some(e) => e,
            None => return Err(invalid),
        };
        if command_end > request.len() || req.size % 4 != 0 {
            return Err(invalid);
        }
        let n = req.num_in_fences as usize;
        let mut in_fences: Vec<u64> = Vec::new();
        let mut i: usize = 0;
        while i < n
            invariant
                n == req.num_in_fences,
                i <= n,
                32 + 8 * n <= request@.len(),
                request@.len() <= usize::MAX,
                in_fences@ == in_fence_list(request@, i as nat),
            decreases n - i,
        {
            let start = 32 + i * 8;
            in_fences.push(get_u64(request, start));
            proof {
                assert(in_fences@ =~= in_fence_list(request@, (i + 1) as nat));
            }
            i = i + 1;
        }
        let ring = if req.header.flags & FLAG_INFO_RING_IDX != 0 {
            req.header.ring_idx
        } else {
            0
        };
        let commands = &request[command_begin..command_end];
        match self.state.submit(req.header.ctx_id, ring, commands) {
            Ok(_) => {},
            Err(e) => return Err(VenusRuntimeError::State(e)),
        }
        let mut owned: Vec<u8> = Vec::new();
        put_bytes(&mut owned, commands);
        Ok(
            RuntimeStep::Call(
                PendingRequest {
                    header,
                    call: BackendCall::Submit {
                        ctx_id: req.header.ctx_id,
                        flags: req.header.flags,
                        ring_idx: ring,
                        fence_id: req.header.fence_id,
                        commands: owned,
                        in_fences,
                    },
                    next: Continuation::Answer,
                },
            ),
        )
    }

    /// Decides a request: applies what it does to the state before the
    /// backend is involved and says what it needs next.
    pub fn begin(&mut self, request: &[u8]) -> (r: Result<RuntimeStep, VenusRuntimeError>)
        ensures
            ({
                let (outcome, post) = spec_begin(old(self).state@, request@);
                &&& final(self).state@ == post
                &&& match r {
                    Ok(step) => outcome == Ok::<StepModel, VenusRuntimeError>(step@),
                    Err(e) => outcome == Err::<StepModel, VenusRuntimeError>(e),
                }
            }),
    {
        let header = match CtrlHeader::decode_le(request) {
            Some(h) => h,
            None => return Err(VenusRuntimeError::Dispatch(VenusDispatchError::InvalidRequest)),
        };
        if header.typ == CMD_GET_CAPSET_INFO {
            self.begin_get_capset_info(request, header)
        } else if header.typ == CMD_GET_CAPSET {
            self.begin_get_capset(request, header)
        } else if header.typ == CMD_CTX_CREATE {
            self.begin_ctx_create(request, header)
        } else if header.typ == CMD_CTX_DESTROY {
            self.begin_ctx_destroy(request, header)
        } else if header.typ == CMD_CTX_ATTACH_RESOURCE {
            self.begin_ctx_attach_resource(request, header)
        } else if header.typ == CMD_CTX_DETACH_RESOURCE {
            self.begin_ctx_detach_resource(request, header)
        } else if header.typ == CMD_RESOURCE_CREATE_BLOB {
            self.begin_resource_create_blob(request, header)
        } else if header.typ == CMD_RESOURCE_UNREF {
            self.begin_resource_unref(request, header)
        } else if header.typ == CMD_RESOURCE_MAP_BLOB {
            self.begin_resource_map_blob(request, header)
        } else if header.typ == CMD_RESOURCE_UNMAP_BLOB {
            self.begin_resource_unmap_blob(request, header)
        } else if header.typ == CMD_RESOURCE_ASSIGN_UUID {
            self.begin_resource_assign_uuid(request, header)
        } else if header.typ == CMD_SUBMIT_3D {
            self.begin_submit_3d(request, header)
        } else {
            Err(VenusRuntimeError::Dispatch(VenusDispatchError::UnsupportedCommand))
        }
    }

    /// Finishes a request once the backend has answered its call.
    pub fn resume(&mut self, pending: PendingRequest, reply: BackendReply) -> (r: Result<VenusResponse, VenusRuntimeError>)
        ensures
            ({
                let (outcome, post) = spec_resume(old(self).state@, pending.header, pending.next, reply@);
                &&& final(self).state@ == post
                &&& match outcome {
                    Ok((bytes, fence)) => r matches Ok(resp) && resp.bytes@ == bytes && resp.fence == fence,
                    Err(Some(e)) => r == Err::<VenusResponse, VenusRuntimeError>(VenusRuntimeError::State(e)),
                    Err(None) => match reply {
                        BackendReply::Failed(f) => r == Err::<VenusResponse, VenusRuntimeError>(
                            VenusRuntimeError::Backend(f),
                        ),
                        _ => r == Err::<VenusResponse, VenusRuntimeError>(
                            VenusRuntimeError::Dispatch(VenusDispatchError::InvalidRequest),
                        ),
                    },
                }
            }),
    {
        let header = pending.header;
        match pending.next {
            Continuation::Answer => match reply {
                BackendReply::Failed(f) => Err(VenusRuntimeError::Backend(f)),
                _ => Ok(answer(header, RESP_OK_NODATA)),
            },
            Continuation::CapsetInfo => match reply {
                BackendReply::CapsetInfo { version, size } => {
                    let mut response = answer(header, RESP_OK_CAPSET_INFO);
                    put_u32(&mut response.bytes, CAPSET_VENUS);
                    put_u32(&mut response.bytes, version);
                    put_u32(&mut response.bytes, size);
                    put_u32(&mut response.bytes, 0);
                    proof {
                        lemma_words_small(CAPSET_VENUS, version, size, 0u32);
                    }
                    Ok(response)
                },
                BackendReply::Failed(f) => Err(VenusRuntimeError::Backend(f)),
                _ => Err(VenusRuntimeError::Dispatch(VenusDispatchError::InvalidRequest)),
            },
            Continuation::Capset => match reply {
                BackendReply::Capset { data } => {
                    let mut response = answer(header, RESP_OK_CAPSET);
                    put_bytes(&mut response.bytes, data.as_slice());
                    Ok(response)
                },
                BackendReply::Failed(f) => Err(VenusRuntimeError::Backend(f)),
                _ => Err(VenusRuntimeError::Dispatch(VenusDispatchError::InvalidRequest)),
            },
            Continuation::DestroyContext { ctx_id } => match self.state.destroy_context(ctx_id) {
                Ok(()) => Ok(answer(header, RESP_OK_NODATA)),
                Err(e) => Err(VenusRuntimeError::State(e)),
            },
            Continuation::DetachResource { ctx_id, resource_id } => match self.state.detach_resource(ctx_id, resource_id) {
                Ok(()) => Ok(answer(header, RESP_OK_NODATA)),
                Err(e) => Err(VenusRuntimeError::State(e)),
            },
        }
    }
}

} // verus!
