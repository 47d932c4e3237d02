//! Decoding of Venus control-queue requests and their effect on the state.

use crate::virtio_gpu::protocol::commands::{
    CAPSET_VENUS, CMD_CTX_ATTACH_RESOURCE, CMD_CTX_CREATE, CMD_CTX_DESTROY,
    CMD_CTX_DETACH_RESOURCE, CMD_GET_CAPSET, CMD_GET_CAPSET_INFO, CMD_RESOURCE_ASSIGN_UUID,
    CMD_RESOURCE_CREATE_BLOB, CMD_RESOURCE_MAP_BLOB, CMD_RESOURCE_UNMAP_BLOB, CMD_RESOURCE_UNREF,
    CMD_SUBMIT_3D, FLAG_FENCE, FLAG_INFO_RING_IDX, RESP_OK_CAPSET, RESP_OK_CAPSET_INFO,
    RESP_OK_MAP_INFO, RESP_OK_NODATA, RESP_OK_RESOURCE_UUID, SHM_ID_HOST_VISIBLE,
};
use crate::virtio_gpu::protocol::header::CtrlHeader;
use crate::virtio_gpu::protocol::requests::blob::{
    MemEntry, ResourceCreateBlob, ResourceMapBlob, ResourceUnmapBlob,
};
use crate::virtio_gpu::protocol::requests::capset::{GetCapset, GetCapsetInfo};
use crate::virtio_gpu::protocol::requests::context::{
    ContextAttachResource, ContextCreate, ContextDestroy, ContextDetachResource,
};
use crate::virtio_gpu::protocol::requests::standard::{ResourceAssignUuid, ResourceUnref};
use crate::virtio_gpu::protocol::requests::submit::Submit3D;
use crate::virtio_gpu::protocol::responses::{RespMapInfo, RespOkNoData, RespResourceUuid};
use crate::virtio_gpu::protocol::wire::{le32, le64, put_u32, put_u64, to_array, u32_at, words};
use crate::virtio_gpu::venus::state::{
    spec_assign_uuid, spec_attach_resource, spec_create_blob, spec_create_context,
    spec_destroy_context, spec_detach_resource, spec_map, spec_submit, spec_unmap,
    spec_unref_resource, VenusModel, VenusState, VenusStateError,
};
use vstd::prelude::*;

verus! {

broadcast use vstd::std_specs::btree::group_btree_axioms;

/// The bytes of a response and the fence it completes, if any.
#[derive(Clone, Debug, PartialEq, Eq)]
pub struct VenusResponse {
    pub bytes: Vec<u8>,
    pub fence: Option<u64>,
}

#[derive(Clone, Copy, Debug, PartialEq, Eq, Structural)]
pub enum VenusDispatchError {
    InvalidRequest,
    UnsupportedCommand,
    State(VenusStateError),
}

impl vstd::std_specs::convert::FromSpecImpl<VenusStateError> for VenusDispatchError {
    open spec fn obeys_from_spec() -> bool {
        true
    }

    open spec fn from_spec(v: VenusStateError) -> Self {
        VenusDispatchError::State(v)
    }
}

impl From<VenusStateError> for VenusDispatchError {
    fn from(value: VenusStateError) -> (r: Self) {
        VenusDispatchError::State(value)
    }
}

/// The abstract outcome of a request: the response bytes and fence, or an error.
pub type DispatchOutcome = Result<(Seq<u8>, Option<u64>), VenusDispatchError>;

/// A response header of type `typ` that echoes the request's routing fields.
pub open spec fn response_header(h: CtrlHeader, typ: u32) -> CtrlHeader {
    CtrlHeader {
        typ,
        flags: h.flags,
        fence_id: h.fence_id,
        ctx_id: h.ctx_id,
        ring_idx: h.ring_idx,
        padding: [0u8, 0u8, 0u8],
    }
}

/// The fence a request asks to be signalled.
pub open spec fn requested_fence(h: CtrlHeader) -> Option<u64> {
    if h.flags & FLAG_FENCE != 0 {
        Some(h.fence_id)
    } else {
        None
    }
}

/// The success response that carries no data.
pub open spec fn nodata_outcome(h: CtrlHeader) -> DispatchOutcome {
    Ok((response_header(h, RESP_OK_NODATA).spec_encode(), requested_fence(h)))
}

/// The outcome of a state operation that answers with no data.
pub open spec fn state_outcome(
    m: VenusModel,
    h: CtrlHeader,
    r: Result<VenusModel, VenusStateError>,
) -> (DispatchOutcome, VenusModel) {
    match r {
        Ok(m2) => (nodata_outcome(h), m2),
        Err(e) => (Err(VenusDispatchError::State(e)), m),
    }
}

/// The total length of `count` memory entries stored at the start of `s`.
pub open spec fn entries_length(s: Seq<u8>, count: nat) -> int
    decreases count,
{
    if count == 0 {
        0
    } else {
        entries_length(s, (count - 1) as nat) + MemEntry::spec_parse(
            s.subrange(16 * (count - 1), 16 * count as int),
        ).length
    }
}

/// One step of the xorshift-multiply generator behind resource UUIDs.
pub open spec fn uuid_step(x: u64) -> u64 {
    let x1 = x ^ (x >> 12u64);
    let x2 = x1 ^ (x1 << 25u64);
    let x3 = x2 ^ (x2 >> 27u64);
    x3.wrapping_mul(0x2545_f491_4f6c_dd1d)
}

/// The UUID bytes assigned to a resource: two generator outputs, with the
/// version-4 and RFC 4122 variant bits set.
pub open spec fn uuid_bytes(resource_id: u32) -> Seq<u8> {
    let a = uuid_step((resource_id as u64) ^ 0x9e37_79b9_7f4a_7c15);
    let b = uuid_step(a);
    let s = le64(a) + le64(b);
    s.update(6, (s[6] & 0x0f) | 0x40).update(8, (s[8] & 0x3f) | 0x80)
}

/// The UUID array whose bytes are `uuid_bytes(resource_id)`.
pub open spec fn uuid_array(resource_id: u32) -> [u8; 16] {
    choose|a: [u8; 16]| a@ == uuid_bytes(resource_id)
}

/// The ring a request is submitted on.
pub open spec fn submit_ring(h: CtrlHeader) -> u8 {
    if h.flags & FLAG_INFO_RING_IDX != 0 {
        h.ring_idx
    } else {
        0
    }
}

/// What a request does: the response or error, and the state after it.
pub open spec fn spec_dispatch(m: VenusModel, raw: Seq<u8>) -> (DispatchOutcome, VenusModel) {
    let invalid = (Err(VenusDispatchError::InvalidRequest), m);
    if raw.len() < 24 {
        invalid
    } else {
        let h = CtrlHeader::spec_parse(raw);
        if h.typ == CMD_CTX_CREATE {
            match ContextCreate::spec_decode(raw) {
                None => invalid,
                Some(req) => {
                    let n: int = if req.nlen < 64 { req.nlen as int } else { 64 };
                    state_outcome(
                        m,
                        h,
                        spec_create_context(
                            m,
                            req.header.ctx_id,
                            req.spec_capset_id(),
                            req.debug_name@.subrange(0, n),
                        ),
                    )
                },
            }
        } else if h.typ == CMD_CTX_DESTROY {
            match ContextDestroy::spec_decode(raw) {
                None => invalid,
                Some(req) => state_outcome(m, h, spec_destroy_context(m, req.header.ctx_id)),
            }
        } else if h.typ == CMD_CTX_ATTACH_RESOURCE {
            match ContextAttachResource::spec_decode(raw) {
                None => invalid,
                Some(req) => state_outcome(
                    m,
                    h,
                    spec_attach_resource(m, req.header.ctx_id, req.resource_id),
                ),
            }
        } else if h.typ == CMD_CTX_DETACH_RESOURCE {
            match ContextDetachResource::spec_decode(raw) {
                None => invalid,
                Some(req) => state_outcome(
                    m,
                    h,
                    spec_detach_resource(m, req.header.ctx_id, req.resource_id),
                ),
            }
        } else if h.typ == CMD_RESOURCE_CREATE_BLOB {
            match ResourceCreateBlob::spec_decode(raw) {
                None => invalid,
                Some(req) => {
                    let end = 56 + 16 * req.nr_entries;
                    if 16 * req.nr_entries > u32::MAX || end > usize::MAX || raw.len() < end {
                        invalid
                    } else if entries_length(raw.subrange(56, end), req.nr_entries as nat)
                        > u64::MAX {
                        invalid
                    } else {
                        state_outcome(
                            m,
                            h,
                            spec_create_blob(
                                m,
                                req.resource_id,
                                req.blob_id,
                                req.size,
                                req.blob_mem,
                                req.blob_flags,
                                entries_length(
                                    raw.subrange(56, end),
                                    req.nr_entries as nat,
                                ) as u64,
                            ),
                        )
                    }
                },
            }
        } else if h.typ == CMD_RESOURCE_UNREF {
            match ResourceUnref::spec_decode(raw) {
                None => invalid,
                Some(req) => state_outcome(m, h, spec_unref_resource(m, req.resource_id)),
            }
        } else if h.typ == CMD_RESOURCE_MAP_BLOB {
            match ResourceMapBlob::spec_decode(raw) {
                None => invalid,
                Some(req) => if !m.resources.contains_key(req.resource_id) {
                    (Err(VenusDispatchError::State(VenusStateError::InvalidResource)), m)
                } else {
                    match spec_map(m.resources[req.resource_id], req.offset) {
                        Err(e) => (Err(VenusDispatchError::State(e)), m),
                        Ok(r) => (
                            Ok(
                                (
                                    response_header(h, RESP_OK_MAP_INFO).spec_encode() + words(
                                        seq![SHM_ID_HOST_VISIBLE, 0u32],
                                    ),
                                    requested_fence(h),
                                ),
                            ),
                            m.with_resource(req.resource_id, r),
                        ),
                    }
                },
            }
        } else if h.typ == CMD_RESOURCE_UNMAP_BLOB {
            match ResourceUnmapBlob::spec_decode(raw) {
                None => invalid,
                Some(req) => if !m.resources.contains_key(req.resource_id) {
                    (Err(VenusDispatchError::State(VenusStateError::InvalidResource)), m)
                } else {
                    match spec_unmap(m.resources[req.resource_id]) {
                        Err(e) => (Err(VenusDispatchError::State(e)), m),
                        Ok(r) => (nodata_outcome(h), m.with_resource(req.resource_id, r)),
                    }
                },
            }
        } else if h.typ == CMD_RESOURCE_ASSIGN_UUID {
            match ResourceAssignUuid::spec_decode(raw) {
                None => invalid,
                Some(req) => if !m.resources.contains_key(req.resource_id) {
                    (Err(VenusDispatchError::State(VenusStateError::InvalidResource)), m)
                } else {
                    match spec_assign_uuid(m.resources[req.resource_id], uuid_array(req.resource_id)) {
                        Err(e) => (Err(VenusDispatchError::State(e)), m),
                        Ok(r) => (
                            Ok(
                                (
                                    response_header(h, RESP_OK_RESOURCE_UUID).spec_encode()
                                        + uuid_bytes(req.resource_id),
                                    requested_fence(h),
                                ),
                            ),
                            m.with_resource(req.resource_id, r),
                        ),
                    }
                },
            }
        } else if h.typ == CMD_SUBMIT_3D {
            match Submit3D::spec_decode(raw) {
                None => invalid,
                Some(req) => {
                    let begin = 32 + 8 * req.num_in_fences;
                    let end = begin + req.size;
                    if end > usize::MAX || raw.len() < end {
                        invalid
                    } else {
                        match spec_submit(m, req.header.ctx_id, submit_ring(req.header), req.size as int) {
                            Err(e) => (Err(VenusDispatchError::State(e)), m),
                            Ok((m2, p)) => (
                                Ok(
                                    (
                                        response_header(h, RESP_OK_NODATA).spec_encode(),
                                        Some(p.value),
                                    ),
                                ),
                                m2,
                            ),
                        }
                    }
                },
            }
        } else if h.typ == CMD_GET_CAPSET_INFO {
            match GetCapsetInfo::spec_decode(raw) {
                None => invalid,
                Some(req) => if req.capset_index != 0 {
                    (Err(VenusDispatchError::State(VenusStateError::UnsupportedCapability)), m)
                } else {
                    (
                        Ok(
                            (
                                response_header(h, RESP_OK_CAPSET_INFO).spec_encode() + words(
                                    seq![CAPSET_VENUS, m.capset_version, m.capset_size, 0u32],
                                ),
                                requested_fence(h),
                            ),
                        ),
                        m,
                    )
                },
            }
        } else if h.typ == CMD_GET_CAPSET {
            match GetCapset::spec_decode(raw) {
                None => invalid,
                Some(req) => if req.capset_id != CAPSET_VENUS || req.capset_version == 0 {
                    (Err(VenusDispatchError::State(VenusStateError::UnsupportedCapability)), m)
                } else {
                    (
                        Ok((response_header(h, RESP_OK_CAPSET).spec_encode(), requested_fence(h))),
                        m,
                    )
                },
            }
        } else {
            (Err(VenusDispatchError::UnsupportedCommand), m)
        }
    }
}

/// A response header of type `typ` that echoes the request's routing fields.
fn reply_header(request: CtrlHeader, typ: u32) -> (h: CtrlHeader)
    ensures
        h == response_header(request, typ),
{
    CtrlHeader {
        typ,
        flags: request.flags,
        fence_id: request.fence_id,
        ctx_id: request.ctx_id,
        ring_idx: request.ring_idx,
        padding: [0u8, 0u8, 0u8],
    }
}

fn fence_for(request: CtrlHeader) -> (f: Option<u64>)
    ensures
        f == requested_fence(request),
{
    if request.flags & FLAG_FENCE != 0 {
        Some(request.fence_id)
    } else {
        None
    }
}

fn ok_header(request: CtrlHeader) -> (h: CtrlHeader)
    ensures
        h == response_header(request, RESP_OK_NODATA),
{
    reply_header(request, RESP_OK_NODATA)
}

fn nodata(request: CtrlHeader) -> (r: VenusResponse)
    ensures
        nodata_outcome(request) == Ok::<(Seq<u8>, Option<u64>), VenusDispatchError>(
            (r.bytes@, r.fence),
        ),
{
    VenusResponse {
        bytes: RespOkNoData { header: ok_header(request) }.encode_le(),
        fence: fence_for(request),
    }
}

/// The total length of `count` memory entries stored at the start of `bytes`.
pub(crate) fn read_entries(bytes: &[u8], count: u32) -> (r: Result<u64, VenusDispatchError>)
    ensures
        r == (if 16 * count > usize::MAX || bytes@.len() < 16 * count || entries_length(
            bytes@,
            count as nat,
        ) > u64::MAX {
            Err(VenusDispatchError::InvalidRequest)
        } else {
            Ok::<u64, VenusDispatchError>(entries_length(bytes@, count as nat) as u64)
        }),
{
    let n = bytes.len();
    let entries = count as usize;
    let expected = match entries.checked_mul(16) {
        Some(e) => e,
        None => return Err(VenusDispatchError::InvalidRequest),
    };
    if n < expected {
        return Err(VenusDispatchError::InvalidRequest);
    }
    let mut total: u64 = 0;
    let mut index: usize = 0;
    while index < entries
        invariant
            index <= entries,
            entries == count,
            n == bytes@.len(),
            16 * entries <= n,
            total == entries_length(bytes@, index as nat),
        decreases entries - index,
    {
        let start = index * 16;
        let entry = MemEntry::decode_le(&bytes[start..start + 16]).unwrap();
        assert(entries_length(bytes@, (index + 1) as nat) == total + entry.length);
        match total.checked_add(entry.length as u64) {
            Some(t) => total = t,
            None => {
                proof {
                    lemma_entries_length_monotone(bytes@, (index + 1) as nat, count as nat);
                }
                return Err(VenusDispatchError::InvalidRequest);
            },
        }
        index = index + 1;
    }
    Ok(total)
}

/// The total length of entries only grows with their number.
proof fn lemma_entries_length_monotone(s: Seq<u8>, a: nat, b: nat)
    requires
        a <= b,
    ensures
        entries_length(s, a) <= entries_length(s, b),
    decreases b,
{
    if a < b {
        lemma_entries_length_monotone(s, a, (b - 1) as nat);
    }
}

/// The UUID assigned to a resource.
pub(crate) fn assign_uuid(resource_id: u32) -> (out: [u8; 16])
    ensures
        out@ == uuid_bytes(resource_id),
{
    let mut x = (resource_id as u64) ^ 0x9e37_79b9_7f4a_7c15;
    let mut v: Vec<u8> = Vec::new();
    let mut round: usize = 0;
    let ghost a = uuid_step(x);
    while round < 2
        invariant
            round <= 2,
            a == uuid_step((resource_id as u64) ^ 0x9e37_79b9_7f4a_7c15),
            round == 0 ==> x == (resource_id as u64) ^ 0x9e37_79b9_7f4a_7c15 && v@ == Seq::<
                u8,
            >::empty(),
            round == 1 ==> x == a && v@ == le64(a),
            round == 2 ==> x == uuid_step(a) && v@ == le64(a) + le64(uuid_step(a)),
        decreases 2 - round,
    {
        x ^= x >> 12u64;
        x ^= x << 25u64;
        x ^= x >> 27u64;
        x = x.wrapping_mul(0x2545_f491_4f6c_dd1d);
        put_u64(&mut v, x);
        round = round + 1;
    }
    proof {
        crate::virtio_gpu::protocol::wire::lemma_le_codec();
    }
    let mut out = to_array::<16>(&v);
    out[6] = (out[6] & 0x0f) | 0x40;
    out[8] = (out[8] & 0x3f) | 0x80;
    assert(out@ =~= uuid_bytes(resource_id));
    out
}

impl VenusState {
    /// Maps blob `resource_id` at `offset`.
    pub(crate) fn map_blob(&mut self, resource_id: u32, offset: u64) -> (r: Result<u64, VenusStateError>)
        ensures
            !old(self)@.resources.contains_key(resource_id) ==> r == Err::<u64, VenusStateError>(
                VenusStateError::InvalidResource,
            ) && final(self)@ == old(self)@,
            old(self)@.resources.contains_key(resource_id) ==> match spec_map(
                old(self)@.resources[resource_id],
                offset,
            ) {
                Ok(res) => r is Ok && final(self)@ == old(self)@.with_resource(resource_id, res),
                Err(e) => r == Err::<u64, VenusStateError>(e) && final(self)@ == old(self)@,
            },
    {
        if !self.resources.contains_key(&resource_id) {
            return Err(VenusStateError::InvalidResource);
        }
        let ghost m = old(self)@;
        let mut resource = self.resources.remove(&resource_id).unwrap();
        let r = resource.map(offset);
        let ghost rm = resource@;
        self.resources.insert(resource_id, resource);
        assert(self@.resources =~= m.resources.insert(resource_id, rm));
        proof {
            if r is Err {
                assert(self@.resources =~= m.resources);
            }
        }
        r
    }

    /// Unmaps blob `resource_id`.
    pub(crate) fn unmap_blob(&mut self, resource_id: u32) -> (r: Result<(), VenusStateError>)
        ensures
            !old(self)@.resources.contains_key(resource_id) ==> r == Err::<(), VenusStateError>(
                VenusStateError::InvalidResource,
            ) && final(self)@ == old(self)@,
            old(self)@.resources.contains_key(resource_id) ==> match spec_unmap(
                old(self)@.resources[resource_id],
            ) {
                Ok(res) => r is Ok && final(self)@ == old(self)@.with_resource(resource_id, res),
                Err(e) => r == Err::<(), VenusStateError>(e) && final(self)@ == old(self)@,
            },
    {
        if !self.resources.contains_key(&resource_id) {
            return Err(VenusStateError::InvalidResource);
        }
        let ghost m = old(self)@;
        let mut resource = self.resources.remove(&resource_id).unwrap();
        let r = resource.unmap();
        let ghost rm = resource@;
        self.resources.insert(resource_id, resource);
        assert(self@.resources =~= m.resources.insert(resource_id, rm));
        proof {
            if r is Err {
                assert(self@.resources =~= m.resources);
            }
        }
        r
    }

    /// Gives blob `resource_id` the UUID `uuid`.
    pub(crate) fn set_uuid(&mut self, resource_id: u32, uuid: [u8; 16]) -> (r: Result<(), VenusStateError>)
        ensures
            !old(self)@.resources.contains_key(resource_id) ==> r == Err::<(), VenusStateError>(
                VenusStateError::InvalidResource,
            ) && final(self)@ == old(self)@,
            old(self)@.resources.contains_key(resource_id) ==> match spec_assign_uuid(
                old(self)@.resources[resource_id],
                uuid,
            ) {
                Ok(res) => r is Ok && final(self)@ == old(self)@.with_resource(resource_id, res),
                Err(e) => r == Err::<(), VenusStateError>(e) && final(self)@ == old(self)@,
            },
    {
        if !self.resources.contains_key(&resource_id) {
            return Err(VenusStateError::InvalidResource);
        }
        let ghost m = old(self)@;
        let mut resource = self.resources.remove(&resource_id).unwrap();
        let r = resource.assign_uuid(uuid);
        let ghost rm = resource@;
        self.resources.insert(resource_id, resource);
        assert(self@.resources =~= m.resources.insert(resource_id, rm));
        proof {
            if r is Err {
                assert(self@.resources =~= m.resources);
            }
        }
        r
    }
}


/// The outcome of a state operation that answers with no data.
fn state_reply(request: CtrlHeader, r: Result<(), VenusStateError>) -> (out: Result<
    VenusResponse,
    VenusDispatchError,
>)
    ensures
        match r {
            Ok(()) => out matches Ok(resp) && nodata_outcome(request) == Ok::<
                (Seq<u8>, Option<u64>),
                VenusDispatchError,
            >((resp.bytes@, resp.fence)),
            Err(e) => out == Err::<VenusResponse, VenusDispatchError>(
                VenusDispatchError::State(e),
            ),
        },
{
    match r {
        Ok(()) => Ok(nodata(request)),
        Err(e) => Err(VenusDispatchError::State(e)),
    }
}

impl VenusState {
    /// Applies one control-queue request and returns its response.
    pub fn dispatch(&mut self, raw_request: &[u8]) -> (r: Result<VenusResponse, VenusDispatchError>)
        ensures
            ({
                let (outcome, post) = spec_dispatch(old(self)@, raw_request@);
                &&& final(self)@ == post
                &&& match r {
                    Ok(resp) => outcome == Ok::<(Seq<u8>, Option<u64>), VenusDispatchError>(
                        (resp.bytes@, resp.fence),
                    ),
                    Err(e) => outcome == Err::<(Seq<u8>, Option<u64>), VenusDispatchError>(e),
                }
            }),
    {
        let header = match CtrlHeader::decode_le(raw_request) {
            Some(h) => h,
            None => return Err(VenusDispatchError::InvalidRequest),
        };
        if header.typ == CMD_CTX_CREATE {
            let request = match ContextCreate::decode_le(raw_request) {
                Some(r) => r,
                None => return Err(VenusDispatchError::InvalidRequest),
            };
            let name_len: usize = if request.nlen < 64 { request.nlen as usize } else { 64 };
            let r = self.create_context(
                request.header.ctx_id,
                request.capset_id(),
                &request.debug_name.as_slice()[0..name_len],
            );
            state_reply(header, r)
        } else if header.typ == CMD_CTX_DESTROY {
            let request = match ContextDestroy::decode_le(raw_request) {
                Some(r) => r,
                None => return Err(VenusDispatchError::InvalidRequest),
            };
            let r = self.destroy_context(request.header.ctx_id);
            state_reply(header, r)
        } else if header.typ == CMD_CTX_ATTACH_RESOURCE {
            let request = match ContextAttachResource::decode_le(raw_request) {
                Some(r) => r,
                None => return Err(VenusDispatchError::InvalidRequest),
            };
            let r = self.attach_resource(request.header.ctx_id, request.resource_id);
            state_reply(header, r)
        } else if header.typ == CMD_CTX_DETACH_RESOURCE {
            let request = match ContextDetachResource::decode_le(raw_request) {
                Some(r) => r,
                None => return Err(VenusDispatchError::InvalidRequest),
            };
            let r = self.detach_resource(request.header.ctx_id, request.resource_id);
            state_reply(header, r)
        } else if header.typ == CMD_RESOURCE_CREATE_BLOB {
            let request = match ResourceCreateBlob::decode_le(raw_request) {
                Some(r) => r,
                None => return Err(VenusDispatchError::InvalidRequest),
            };
            let entry_bytes = match request.nr_entries.checked_mul(16u32) {
                Some(b) => b as usize,
                None => return Err(VenusDispatchError::InvalidRequest),
            };
            let end = match 56usize.checked_add(entry_bytes) {
                Some(e) => e,
                None => return Err(VenusDispatchError::InvalidRequest),
            };
            if raw_request.len() < end {
                return Err(VenusDispatchError::InvalidRequest);
            }
            let guest_backing_size = read_entries(&raw_request[56..end], request.nr_entries)?;
            let r = self.create_blob(
                request.resource_id,
                request.blob_id,
                request.size,
                request.blob_mem,
                request.blob_flags,
                guest_backing_size,
            );
            state_reply(header, r)
        } else if header.typ == CMD_RESOURCE_UNREF {
            let request = match ResourceUnref::decode_le(raw_request) {
                Some(r) => r,
                None => return Err(VenusDispatchError::InvalidRequest),
            };
            let r = self.unref_resource(request.resource_id);
            state_reply(header, r)
        } else if header.typ == CMD_RESOURCE_MAP_BLOB {
            let request = match ResourceMapBlob::decode_le(raw_request) {
                Some(r) => r,
                None => return Err(VenusDispatchError::InvalidRequest),
            };
            match self.map_blob(request.resource_id, request.offset) {
                Err(e) => return Err(VenusDispatchError::State(e)),
                Ok(_) => {},
            }
            let response = RespMapInfo {
                header: reply_header(header, RESP_OK_MAP_INFO),
                map_info: SHM_ID_HOST_VISIBLE,
                padding: 0,
            };
            Ok(VenusResponse { bytes: response.encode_le(), fence: fence_for(header) })
        } else if header.typ == CMD_RESOURCE_UNMAP_BLOB {
            let request = match ResourceUnmapBlob::decode_le(raw_request) {
                Some(r) => r,
                None => return Err(VenusDispatchError::InvalidRequest),
            };
            let r = self.unmap_blob(request.resource_id);
            state_reply(header, r)
        } else if header.typ == CMD_RESOURCE_ASSIGN_UUID {
            let request = match ResourceAssignUuid::decode_le(raw_request) {
                Some(r) => r,
                None => return Err(VenusDispatchError::InvalidRequest),
            };
            let uuid = assign_uuid(request.resource_id);
            proof {
                let t = uuid_bytes(request.resource_id);
                assert(exists|a: [u8; 16]| a@ == t);
                let e = uuid_array(request.resource_id);
                assert forall|j: int| 0 <= j < 16 implies uuid[j] == e[j] by {
                    assert(uuid@[j] == e@[j]);
                }
                assert(uuid =~= e);
            }
            match self.set_uuid(request.resource_id, uuid) {
                Err(e) => return Err(VenusDispatchError::State(e)),
                Ok(()) => {},
            }
            let response = RespResourceUuid {
                header: reply_header(header, RESP_OK_RESOURCE_UUID),
                uuid,
            };
            Ok(VenusResponse { bytes: response.encode_le(), fence: fence_for(header) })
        } else if header.typ == CMD_SUBMIT_3D {
            let request = match Submit3D::decode_le(raw_request) {
                Some(r) => r,
                None => return Err(VenusDispatchError::InvalidRequest),
            };
            let in_fence_bytes = match (request.num_in_fences as usize).checked_mul(8) {
                Some(b) => b,
                None => return Err(VenusDispatchError::InvalidRequest),
            };
            let command_begin = match 32usize.checked_add(in_fence_bytes) {
                Some(b) => b,
                None => return Err(VenusDispatchError::InvalidRequest),
            };
            let command_end = match command_begin.checked_add(request.size as usize) {
                Some(e) => e,
                None => return Err(VenusDispatchError::InvalidRequest),
            };
            if raw_request.len() < command_end {
                return Err(VenusDispatchError::InvalidRequest);
            }
            let ring = if request.header.flags & FLAG_INFO_RING_IDX != 0 {
                request.header.ring_idx
            } else {
                0
            };
            let point = match self.submit(
                request.header.ctx_id,
                ring,
                &raw_request[command_begin..command_end],
            ) {
                Ok(p) => p,
                Err(e) => return Err(VenusDispatchError::State(e)),
            };
            let mut response = nodata(header);
            response.fence = Some(point.value);
            Ok(response)
        } else if header.typ == CMD_GET_CAPSET_INFO {
            let request = match GetCapsetInfo::decode_le(raw_request) {
                Some(r) => r,
                None => return Err(VenusDispatchError::InvalidRequest),
            };
            if request.capset_index != 0 {
                return Err(VenusDispatchError::State(VenusStateError::UnsupportedCapability));
            }
            let h = reply_header(header, RESP_OK_CAPSET_INFO).encode_le();
            let mut bytes: Vec<u8> = Vec::new();
            crate::virtio_gpu::protocol::wire::put_bytes(&mut bytes, h.as_slice());
            let w = [CAPSET_VENUS, self.capset_version, self.capset_size, 0u32];
            assert(w@ =~= seq![CAPSET_VENUS, self.capset_version, self.capset_size, 0u32]);
            crate::virtio_gpu::protocol::wire::put_words(&mut bytes, w.as_slice());
            Ok(VenusResponse { bytes, fence: fence_for(header) })
        } else if header.typ == CMD_GET_CAPSET {
            let request = match GetCapset::decode_le(raw_request) {
                Some(r) => r,
                None => return Err(VenusDispatchError::InvalidRequest),
            };
            if request.capset_id != CAPSET_VENUS || request.capset_version == 0 {
                return Err(VenusDispatchError::State(VenusStateError::UnsupportedCapability));
            }
            let h = reply_header(header, RESP_OK_CAPSET).encode_le();
            let mut bytes: Vec<u8> = Vec::new();
            crate::virtio_gpu::protocol::wire::put_bytes(&mut bytes, h.as_slice());
            Ok(VenusResponse { bytes, fence: fence_for(header) })
        } else {
            Err(VenusDispatchError::UnsupportedCommand)
        }
    }
}

} // verus!
