//! Properties of the Venus state that span several operations.

use crate::virtio_gpu::venus::state::{
    spec_allocate, spec_assign_uuid, spec_attach_resource, spec_create_blob, spec_create_context,
    spec_destroy_context, spec_detach_resource, spec_map, spec_signal, spec_submit,
    spec_unmap, spec_unref_resource, FenceModel, FencePoint, ResourceModel, VenusModel,
};
use crate::virtio_gpu::protocol::header::CtrlHeader;
use crate::virtio_gpu::venus::dispatcher::{spec_dispatch, uuid_bytes, VenusDispatchError};
use crate::virtio_gpu::venus::dispatcher::entries_length;
use crate::virtio_gpu::venus::fences::translated_request;
use crate::virtio_gpu::venus::runtime::{in_fence_list, spec_begin, CallModel, StepModel};
use crate::virtio_gpu::venus::dispatcher::state_outcome;
use crate::virtio_gpu::protocol::requests::blob::ResourceCreateBlob;
use crate::virtio_gpu::protocol::requests::submit::Submit3D;
use crate::virtio_gpu::protocol::commands::{CMD_RESOURCE_CREATE_BLOB, CMD_SUBMIT_3D};
use crate::virtio_gpu::protocol::wire::u32s_at;
use crate::virtio_gpu::protocol::wire::{le32, le64, lemma_u32_field, lemma_u64_field};
use vstd::prelude::*;

verus! {

/// Creating a context keeps the state invariant.
pub proof fn lemma_create_context_keeps_wf(m: VenusModel, id: u32, capset_id: u32, name: Seq<u8>)
    requires
        m.wf(),
        spec_create_context(m, id, capset_id, name) is Ok,
    ensures
        spec_create_context(m, id, capset_id, name)->Ok_0.wf(),
{
    let m2 = spec_create_context(m, id, capset_id, name)->Ok_0;
    assert forall|c: u32, r: u32|
        m2.contexts.contains_key(c) && #[trigger] m2.contexts[c].attached_resources.contains(r)
            implies m2.resources.contains_key(r) && m2.resources[r].attached_contexts.contains(c) by {
        if m.contexts.contains_key(c) && m.contexts[c].attached_resources.contains(r) {
        }
    }
    assert forall|c: u32, r: u32|
        m2.resources.contains_key(r) && #[trigger] m2.resources[r].attached_contexts.contains(c)
            implies m2.contexts.contains_key(c) && m2.contexts[c].attached_resources.contains(r) by {
        if m.resources.contains_key(r) && m.resources[r].attached_contexts.contains(c) {
        }
    }
}

/// Destroying a context keeps the state invariant.
pub proof fn lemma_destroy_context_keeps_wf(m: VenusModel, id: u32)
    requires
        m.wf(),
        spec_destroy_context(m, id) is Ok,
    ensures
        spec_destroy_context(m, id)->Ok_0.wf(),
{
    let m2 = spec_destroy_context(m, id)->Ok_0;
    assert forall|c: u32, r: u32|
        m2.contexts.contains_key(c) && #[trigger] m2.contexts[c].attached_resources.contains(r)
            implies m2.resources.contains_key(r) && m2.resources[r].attached_contexts.contains(c) by {
        if m.contexts.contains_key(c) && m.contexts[c].attached_resources.contains(r) {
        }
    }
    assert forall|c: u32, r: u32|
        m2.resources.contains_key(r) && #[trigger] m2.resources[r].attached_contexts.contains(c)
            implies m2.contexts.contains_key(c) && m2.contexts[c].attached_resources.contains(r) by {
        if m.resources.contains_key(r) && m.resources[r].attached_contexts.contains(c) {
        }
    }
}

/// Attaching a resource keeps the state invariant.
pub proof fn lemma_attach_keeps_wf(m: VenusModel, context_id: u32, resource_id: u32)
    requires
        m.wf(),
        spec_attach_resource(m, context_id, resource_id) is Ok,
    ensures
        spec_attach_resource(m, context_id, resource_id)->Ok_0.wf(),
{
    let m2 = spec_attach_resource(m, context_id, resource_id)->Ok_0;
    assert forall|c: u32, r: u32|
        m2.contexts.contains_key(c) && #[trigger] m2.contexts[c].attached_resources.contains(r)
            implies m2.resources.contains_key(r) && m2.resources[r].attached_contexts.contains(c) by {
        if m.contexts.contains_key(c) && m.contexts[c].attached_resources.contains(r) {
        }
    }
    assert forall|c: u32, r: u32|
        m2.resources.contains_key(r) && #[trigger] m2.resources[r].attached_contexts.contains(c)
            implies m2.contexts.contains_key(c) && m2.contexts[c].attached_resources.contains(r) by {
        if m.resources.contains_key(r) && m.resources[r].attached_contexts.contains(c) {
        }
    }
}

/// Detaching a resource keeps the state invariant.
pub proof fn lemma_detach_keeps_wf(m: VenusModel, context_id: u32, resource_id: u32)
    requires
        m.wf(),
        spec_detach_resource(m, context_id, resource_id) is Ok,
    ensures
        spec_detach_resource(m, context_id, resource_id)->Ok_0.wf(),
{
    let m2 = spec_detach_resource(m, context_id, resource_id)->Ok_0;
    assert(m.resources.contains_key(resource_id));
    assert forall|c: u32, r: u32|
        m2.contexts.contains_key(c) && #[trigger] m2.contexts[c].attached_resources.contains(r)
            implies m2.resources.contains_key(r) && m2.resources[r].attached_contexts.contains(c) by {
        if m.contexts.contains_key(c) && m.contexts[c].attached_resources.contains(r) {
        }
    }
    assert forall|c: u32, r: u32|
        m2.resources.contains_key(r) && #[trigger] m2.resources[r].attached_contexts.contains(c)
            implies m2.contexts.contains_key(c) && m2.contexts[c].attached_resources.contains(r) by {
        if m.resources.contains_key(r) && m.resources[r].attached_contexts.contains(c) {
        }
    }
}

/// Creating a blob keeps the state invariant.
pub proof fn lemma_create_blob_keeps_wf(
    m: VenusModel,
    id: u32,
    blob_id: u64,
    size: u64,
    memory: u32,
    flags: u32,
    guest_backing_size: u64,
)
    requires
        m.wf(),
        spec_create_blob(m, id, blob_id, size, memory, flags, guest_backing_size) is Ok,
    ensures
        spec_create_blob(m, id, blob_id, size, memory, flags, guest_backing_size)->Ok_0.wf(),
{
    let m2 = spec_create_blob(m, id, blob_id, size, memory, flags, guest_backing_size)->Ok_0;
    assert forall|c: u32, r: u32|
        m2.contexts.contains_key(c) && #[trigger] m2.contexts[c].attached_resources.contains(r)
            implies m2.resources.contains_key(r) && m2.resources[r].attached_contexts.contains(c) by {
        if m.contexts.contains_key(c) && m.contexts[c].attached_resources.contains(r) {
        }
    }
    assert forall|c: u32, r: u32|
        m2.resources.contains_key(r) && #[trigger] m2.resources[r].attached_contexts.contains(c)
            implies m2.contexts.contains_key(c) && m2.contexts[c].attached_resources.contains(r) by {
        if m.resources.contains_key(r) && m.resources[r].attached_contexts.contains(c) {
        }
    }
}

/// Releasing a resource keeps the state invariant.
pub proof fn lemma_unref_keeps_wf(m: VenusModel, id: u32)
    requires
        m.wf(),
        spec_unref_resource(m, id) is Ok,
    ensures
        spec_unref_resource(m, id)->Ok_0.wf(),
{
    let m2 = spec_unref_resource(m, id)->Ok_0;
    assert forall|c: u32, r: u32|
        m2.contexts.contains_key(c) && #[trigger] m2.contexts[c].attached_resources.contains(r)
            implies m2.resources.contains_key(r) && m2.resources[r].attached_contexts.contains(c) by {
        if m.contexts.contains_key(c) && m.contexts[c].attached_resources.contains(r) {
        }
    }
    assert forall|c: u32, r: u32|
        m2.resources.contains_key(r) && #[trigger] m2.resources[r].attached_contexts.contains(c)
            implies m2.contexts.contains_key(c) && m2.contexts[c].attached_resources.contains(r) by {
        if m.resources.contains_key(r) && m.resources[r].attached_contexts.contains(c) {
        }
    }
}

/// Submitting keeps the state invariant.
pub proof fn lemma_submit_keeps_wf(m: VenusModel, context_id: u32, ring: u8, len: int)
    requires
        m.wf(),
        spec_submit(m, context_id, ring, len) is Ok,
    ensures
        spec_submit(m, context_id, ring, len)->Ok_0.0.wf(),
{
    let m2 = spec_submit(m, context_id, ring, len)->Ok_0.0;
    assert forall|c: u32, r: u32|
        m2.contexts.contains_key(c) && #[trigger] m2.contexts[c].attached_resources.contains(r)
            implies m2.resources.contains_key(r) && m2.resources[r].attached_contexts.contains(c) by {
        if m.contexts.contains_key(c) && m.contexts[c].attached_resources.contains(r) {
        }
    }
    assert forall|c: u32, r: u32|
        m2.resources.contains_key(r) && #[trigger] m2.resources[r].attached_contexts.contains(c)
            implies m2.contexts.contains_key(c) && m2.contexts[c].attached_resources.contains(r) by {
        if m.resources.contains_key(r) && m.resources[r].attached_contexts.contains(c) {
        }
    }
}

/// Replacing a resource by a mapped, unmapped or UUID-tagged version of itself
/// keeps the state invariant.
pub proof fn lemma_resource_update_keeps_wf(m: VenusModel, id: u32, r2: ResourceModel)
    requires
        m.wf(),
        m.resources.contains_key(id),
        spec_map(m.resources[id], r2.mapped_offset.unwrap_or(0)) == Ok::<
            ResourceModel,
            crate::virtio_gpu::venus::state::VenusStateError,
        >(r2) || spec_unmap(m.resources[id]) == Ok::<
            ResourceModel,
            crate::virtio_gpu::venus::state::VenusStateError,
        >(r2) || (r2.uuid is Some && spec_assign_uuid(m.resources[id], r2.uuid->0) == Ok::<
            ResourceModel,
            crate::virtio_gpu::venus::state::VenusStateError,
        >(r2)),
    ensures
        m.with_resource(id, r2).wf(),
{
    let m2 = m.with_resource(id, r2);
    assert forall|c: u32, r: u32|
        m2.contexts.contains_key(c) && #[trigger] m2.contexts[c].attached_resources.contains(r)
            implies m2.resources.contains_key(r) && m2.resources[r].attached_contexts.contains(c) by {
        if m.contexts.contains_key(c) && m.contexts[c].attached_resources.contains(r) {
        }
    }
    assert forall|c: u32, r: u32|
        m2.resources.contains_key(r) && #[trigger] m2.resources[r].attached_contexts.contains(c)
            implies m2.contexts.contains_key(c) && m2.contexts[c].attached_resources.contains(r) by {
        if m.resources.contains_key(r) && m.resources[r].attached_contexts.contains(c) {
        }
    }
}

/// Detaching a resource that was just attached restores the state, when it was
/// not attached before.
pub proof fn lemma_detach_undoes_attach(m: VenusModel, context_id: u32, resource_id: u32)
    requires
        m.wf(),
        spec_attach_resource(m, context_id, resource_id) is Ok,
        !m.contexts[context_id].attached_resources.contains(resource_id),
    ensures
        spec_detach_resource(
            spec_attach_resource(m, context_id, resource_id)->Ok_0,
            context_id,
            resource_id,
        ) == Ok::<VenusModel, crate::virtio_gpu::venus::state::VenusStateError>(m),
{
    let m1 = spec_attach_resource(m, context_id, resource_id)->Ok_0;
    let m2 = spec_detach_resource(m1, context_id, resource_id)->Ok_0;
    let c = m.contexts[context_id];
    let r = m.resources[resource_id];
    assert(!r.attached_contexts.contains(context_id));
    assert(c.attached_resources.insert(resource_id).remove(resource_id) =~= c.attached_resources);
    assert(r.attached_contexts.insert(context_id).remove(context_id) =~= r.attached_contexts);
    assert(m2.contexts =~= m.contexts);
    assert(m2.resources =~= m.resources);
}

/// Unmapping a blob that was just mapped restores it.
pub proof fn lemma_unmap_undoes_map(r: ResourceModel, offset: u64)
    requires
        spec_map(r, offset) is Ok,
    ensures
        spec_unmap(spec_map(r, offset)->Ok_0) == Ok::<
            ResourceModel,
            crate::virtio_gpu::venus::state::VenusStateError,
        >(r),
{
}

/// Fence values are ordered globally: an allocation on any ring gives a
/// value above every value allocated before on any ring (until the counter
/// saturates), and the next allocation, on any other ring, gives a greater one.
pub proof fn lemma_allocate_increases(f: FenceModel, ring: u8, other: u8)
    requires
        spec_allocate(f, ring) is Ok,
        other < 64,
    ensures
        ({
            let (f1, p1) = spec_allocate(f, ring)->Ok_0;
            &&& p1.value >= f.next
            &&& f.next < u64::MAX ==> p1.value == f.next + 1
            &&& f1.next == p1.value
            &&& f1.completed == f.completed
            &&& spec_allocate(f1, other) is Ok
            &&& p1.value < u64::MAX ==> spec_allocate(f1, other)->Ok_0.1.value > p1.value
        }),
{
}

/// Successive submissions give ever greater fence values, whatever their
/// rings: after one on ring 0 of a fresh state, one on ring 1 gets value 2.
pub proof fn lemma_submit_fences_global(m: VenusModel, ctx: u32, ring: u8, other: u8, len: int, len2: int)
    requires
        spec_submit(m, ctx, ring, len) is Ok,
        spec_submit(spec_submit(m, ctx, ring, len)->Ok_0.0, ctx, other, len2) is Ok,
    ensures
        ({
            let (m1, p1) = spec_submit(m, ctx, ring, len)->Ok_0;
            let (m2, p2) = spec_submit(m1, ctx, other, len2)->Ok_0;
            &&& m.fences.next < u64::MAX ==> p1.value == m.fences.next + 1
            &&& p1.value < u64::MAX ==> p2.value == p1.value + 1
        }),
{
}

/// The completed value never decreases, and after a signal it is the
/// larger of the old value and the signalled one.
pub proof fn lemma_signal_monotone(f: FenceModel, point: FencePoint)
    requires
        spec_signal(f, point) is Ok,
    ensures
        spec_signal(f, point)->Ok_0.completed >= f.completed,
        spec_signal(f, point)->Ok_0.completed == (if point.value > f.completed {
            point.value
        } else {
            f.completed
        }),
        spec_signal(f, point)->Ok_0.next == f.next,
{
}

/// Signalling the same point twice is the same as signalling it once.
pub proof fn lemma_signal_idempotent(f: FenceModel, point: FencePoint)
    requires
        spec_signal(f, point) is Ok,
    ensures
        spec_signal(spec_signal(f, point)->Ok_0, point) == spec_signal(f, point),
{
}


/// A refused request leaves the state untouched.
pub proof fn lemma_refused_request_changes_nothing(m: VenusModel, raw: Seq<u8>)
    ensures
        spec_dispatch(m, raw).0 is Err ==> spec_dispatch(m, raw).1 == m,
{
}

/// Every request keeps the state invariant.
pub proof fn lemma_dispatch_keeps_wf(m: VenusModel, raw: Seq<u8>)
    requires
        m.wf(),
    ensures
        spec_dispatch(m, raw).1.wf(),
{
    let post = spec_dispatch(m, raw).1;
    if post != m {
        let h = CtrlHeader::spec_parse(raw);
        if h.typ == crate::virtio_gpu::protocol::commands::CMD_CTX_CREATE {
            let req = crate::virtio_gpu::protocol::requests::context::ContextCreate::spec_decode(
                raw,
            )->Some_0;
            let n: int = if req.nlen < 64 {
                req.nlen as int
            } else {
                64
            };
            lemma_create_context_keeps_wf(
                m,
                req.header.ctx_id,
                req.spec_capset_id(),
                req.debug_name@.subrange(0, n),
            );
        } else if h.typ == crate::virtio_gpu::protocol::commands::CMD_CTX_DESTROY {
            let req = crate::virtio_gpu::protocol::requests::context::ContextDestroy::spec_decode(
                raw,
            )->Some_0;
            lemma_destroy_context_keeps_wf(m, req.header.ctx_id);
        } else if h.typ == crate::virtio_gpu::protocol::commands::CMD_CTX_ATTACH_RESOURCE {
            let req =
                crate::virtio_gpu::protocol::requests::context::ContextAttachResource::spec_decode(
                raw,
            )->Some_0;
            lemma_attach_keeps_wf(m, req.header.ctx_id, req.resource_id);
        } else if h.typ == crate::virtio_gpu::protocol::commands::CMD_CTX_DETACH_RESOURCE {
            let req =
                crate::virtio_gpu::protocol::requests::context::ContextDetachResource::spec_decode(
                raw,
            )->Some_0;
            lemma_detach_keeps_wf(m, req.header.ctx_id, req.resource_id);
        } else if h.typ == crate::virtio_gpu::protocol::commands::CMD_RESOURCE_CREATE_BLOB {
            let req =
                crate::virtio_gpu::protocol::requests::blob::ResourceCreateBlob::spec_decode(
                raw,
            )->Some_0;
            let end = 56 + 16 * req.nr_entries;
            lemma_create_blob_keeps_wf(
                m,
                req.resource_id,
                req.blob_id,
                req.size,
                req.blob_mem,
                req.blob_flags,
                crate::virtio_gpu::venus::dispatcher::entries_length(
                    raw.subrange(56, end),
                    req.nr_entries as nat,
                ) as u64,
            );
        } else if h.typ == crate::virtio_gpu::protocol::commands::CMD_RESOURCE_UNREF {
            let req = crate::virtio_gpu::protocol::requests::standard::ResourceUnref::spec_decode(
                raw,
            )->Some_0;
            lemma_unref_keeps_wf(m, req.resource_id);
        } else if h.typ == crate::virtio_gpu::protocol::commands::CMD_RESOURCE_MAP_BLOB {
            let req = crate::virtio_gpu::protocol::requests::blob::ResourceMapBlob::spec_decode(
                raw,
            )->Some_0;
            let r2 = spec_map(m.resources[req.resource_id], req.offset)->Ok_0;
            lemma_resource_update_keeps_wf(m, req.resource_id, r2);
        } else if h.typ == crate::virtio_gpu::protocol::commands::CMD_RESOURCE_UNMAP_BLOB {
            let req = crate::virtio_gpu::protocol::requests::blob::ResourceUnmapBlob::spec_decode(
                raw,
            )->Some_0;
            let r2 = spec_unmap(m.resources[req.resource_id])->Ok_0;
            lemma_resource_update_keeps_wf(m, req.resource_id, r2);
        } else if h.typ == crate::virtio_gpu::protocol::commands::CMD_RESOURCE_ASSIGN_UUID {
            let req =
                crate::virtio_gpu::protocol::requests::standard::ResourceAssignUuid::spec_decode(
                raw,
            )->Some_0;
            let r2 = spec_assign_uuid(
                m.resources[req.resource_id],
                crate::virtio_gpu::venus::dispatcher::uuid_array(req.resource_id),
            )->Ok_0;
            lemma_resource_update_keeps_wf(m, req.resource_id, r2);
        } else if h.typ == crate::virtio_gpu::protocol::commands::CMD_SUBMIT_3D {
            let req = crate::virtio_gpu::protocol::requests::submit::Submit3D::spec_decode(
                raw,
            )->Some_0;
            lemma_submit_keeps_wf(
                m,
                req.header.ctx_id,
                crate::virtio_gpu::venus::dispatcher::submit_ring(req.header),
                req.size as int,
            );
        }
    }
}

/// Assigned UUIDs are version-4 UUIDs with the RFC 4122 variant.
pub proof fn lemma_uuid_version_and_variant(resource_id: u32)
    ensures
        uuid_bytes(resource_id).len() == 16,
        uuid_bytes(resource_id)[6] >> 4u8 == 4,
        uuid_bytes(resource_id)[8] >> 6u8 == 2,
{
    crate::virtio_gpu::protocol::wire::lemma_le_codec();
    let a = crate::virtio_gpu::venus::dispatcher::uuid_step((resource_id as u64) ^ 0x9e37_79b9_7f4a_7c15);
    let b = crate::virtio_gpu::venus::dispatcher::uuid_step(a);
    let s = crate::virtio_gpu::protocol::wire::le64(a) + crate::virtio_gpu::protocol::wire::le64(b);
    let x = s[6];
    let y = s[8];
    assert(((x & 0x0f) | 0x40) >> 4u8 == 4) by (bit_vector);
    assert(((y & 0x3f) | 0x80) >> 6u8 == 2) by (bit_vector);
}

/// The sum of a list of lengths.
pub open spec fn sum_lengths(lens: Seq<u32>) -> int
    decreases lens.len(),
{
    if lens.len() == 0 {
        0
    } else {
        sum_lengths(lens.drop_last()) + lens.last()
    }
}

/// Counting one more memory entry adds the length stored in that entry:
/// the little-endian 32-bit field at byte 8 of the entry's 16 bytes.
pub proof fn lemma_entries_length_step(s: Seq<u8>, k: nat, length: u32)
    requires
        16 * (k + 1) <= s.len(),
        s.subrange((16 * k + 8) as int, (16 * k + 12) as int) == le32(length),
    ensures
        entries_length(s, k + 1) == entries_length(s, k) + length,
{
    let e = s.subrange(16 * k as int, 16 * (k + 1) as int);
    assert(e.subrange(8, 12) =~= s.subrange((16 * k + 8) as int, (16 * k + 12) as int));
    lemma_u32_field(e, 8, length);
}

/// The backing length of `count` memory entries is the sum of the length
/// fields of all of them, entry `i` being the 16 bytes at `16 * i`.
pub proof fn lemma_entries_length_sum(s: Seq<u8>, lens: Seq<u32>)
    requires
        16 * lens.len() <= s.len(),
        forall|i: int| 0 <= i < lens.len() ==> s.subrange(16 * i + 8, 16 * i + 12) == le32(#[trigger] lens[i]),
    ensures
        entries_length(s, lens.len()) == sum_lengths(lens),
    decreases lens.len(),
{
    if lens.len() > 0 {
        let k = (lens.len() - 1) as nat;
        let front = lens.drop_last();
        assert forall|i: int| 0 <= i < front.len() implies s.subrange(16 * i + 8, 16 * i + 12) == le32(
            #[trigger] front[i],
        ) by {
            assert(front[i] == lens[i]);
        }
        lemma_entries_length_sum(s, front);
        assert(s.subrange((16 * k + 8) as int, (16 * k + 12) as int) == le32(lens[k as int]));
        lemma_entries_length_step(s, k, lens[k as int]);
    }
}

/// Translating the in-fences of a submission replaces in-fence `i`, for
/// every `i` below the count, by the backend's id when the guest id stored
/// there is known for the context and ring, and keeps it otherwise; the
/// request keeps its length.
pub proof fn lemma_translated_in_fence(
    raw: Seq<u8>,
    g2i: Map<(u32, u8, u64), u64>,
    ctx: u32,
    ring: u8,
    n: nat,
    i: int,
    guest: u64,
)
    requires
        32 + 8 * n <= raw.len(),
        0 <= i < n,
        raw.subrange(32 + 8 * i, 40 + 8 * i) == le64(guest),
    ensures
        translated_request(raw, g2i, ctx, ring, n).len() == raw.len(),
        g2i.contains_key((ctx, ring, guest)) ==> translated_request(raw, g2i, ctx, ring, n).subrange(
            32 + 8 * i,
            40 + 8 * i,
        ) == le64(g2i[(ctx, ring, guest)]),
        !g2i.contains_key((ctx, ring, guest)) ==> translated_request(raw, g2i, ctx, ring, n).subrange(
            32 + 8 * i,
            40 + 8 * i,
        ) == le64(guest),
{
    let t = translated_request(raw, g2i, ctx, ring, n);
    lemma_u64_field(raw, 32 + 8 * i, guest);
    if g2i.contains_key((ctx, ring, guest)) {
        let b = le64(g2i[(ctx, ring, guest)]);
        assert(b.len() == 8) by {
            vstd::bytes::lemma_auto_spec_u64_to_from_le_bytes();
        }
        assert forall|k: int| 0 <= k < 8 implies #[trigger] t.subrange(32 + 8 * i, 40 + 8 * i)[k] == b[k] by {
            let j = 32 + 8 * i + k;
            assert((j - 32) / 8 == i);
            assert((j - 32) % 8 == k);
        }
        assert(t.subrange(32 + 8 * i, 40 + 8 * i) =~= b);
    } else {
        assert forall|k: int| 0 <= k < 8 implies #[trigger] t.subrange(32 + 8 * i, 40 + 8 * i)[k] == raw.subrange(
            32 + 8 * i,
            40 + 8 * i,
        )[k] by {
            let j = 32 + 8 * i + k;
            assert((j - 32) / 8 == i);
        }
        assert(t.subrange(32 + 8 * i, 40 + 8 * i) =~= raw.subrange(32 + 8 * i, 40 + 8 * i));
    }
}

/// Translating in-fences leaves every byte outside the in-fence list as it is.
pub proof fn lemma_translated_keeps_rest(
    raw: Seq<u8>,
    g2i: Map<(u32, u8, u64), u64>,
    ctx: u32,
    ring: u8,
    n: nat,
    j: int,
)
    requires
        0 <= j < raw.len(),
        j < 32 || j >= 32 + 8 * n,
    ensures
        translated_request(raw, g2i, ctx, ring, n)[j] == raw[j],
{
}

/// In-fence `i` of a submission, for every `i` below the count, is the
/// 64-bit little-endian value at byte `32 + 8 * i` of the request.
pub proof fn lemma_in_fence_at(raw: Seq<u8>, n: nat, i: int, fence: u64)
    requires
        0 <= i < n,
        40 + 8 * i <= raw.len(),
        raw.subrange(32 + 8 * i, 40 + 8 * i) == le64(fence),
    ensures
        in_fence_list(raw, n).len() == n,
        in_fence_list(raw, n)[i] == fence,
{
    lemma_u64_field(raw, 32 + 8 * i, fence);
}

/// A blob-creation request whose memory entries all lie in it is decided
/// as blob creation with a guest backing of the sum of the entries' length
/// fields, entry `i` being the 16 bytes at `56 + 16 * i`.
pub proof fn lemma_dispatch_create_blob_backing(m: VenusModel, raw: Seq<u8>, lens: Seq<u32>)
    requires
        raw.len() >= 24,
        CtrlHeader::spec_parse(raw).typ == CMD_RESOURCE_CREATE_BLOB,
        ResourceCreateBlob::spec_decode(raw) is Some,
        lens.len() == ResourceCreateBlob::spec_decode(raw)->Some_0.nr_entries,
        56 + 16 * lens.len() <= raw.len(),
        56 + 16 * lens.len() <= usize::MAX,
        16 * lens.len() <= u32::MAX,
        sum_lengths(lens) <= u64::MAX,
        forall|i: int|
            0 <= i < lens.len() ==> raw.subrange(56 + 16 * i + 8, 56 + 16 * i + 12) == le32(#[trigger] lens[i]),
    ensures
        ({
            let req = ResourceCreateBlob::spec_decode(raw)->Some_0;
            spec_dispatch(m, raw) == state_outcome(
                m,
                CtrlHeader::spec_parse(raw),
                spec_create_blob(
                    m,
                    req.resource_id,
                    req.blob_id,
                    req.size,
                    req.blob_mem,
                    req.blob_flags,
                    sum_lengths(lens) as u64,
                ),
            )
        }),
{
    let end = 56 + 16 * lens.len();
    let e = raw.subrange(56, end as int);
    assert forall|i: int| 0 <= i < lens.len() implies e.subrange(16 * i + 8, 16 * i + 12) == le32(
        #[trigger] lens[i],
    ) by {
        assert(e.subrange(16 * i + 8, 16 * i + 12) =~= raw.subrange(56 + 16 * i + 8, 56 + 16 * i + 12));
    }
    lemma_entries_length_sum(e, lens);
}

/// A submission handed to the backend waits on the in-fences that follow
/// its 32-byte header, in order: with `count` the in-fence count stored at
/// byte 28 and `size` the command size at byte 24, in-fence `i` is the
/// 64-bit value at `32 + 8 * i` and the commands are the `size` bytes after
/// the in-fences.
pub proof fn lemma_begin_submit_in_fences(m: VenusModel, raw: Seq<u8>, size: u32, count: u32, i: int, fence: u64)
    requires
        32 <= raw.len(),
        raw.subrange(24, 28) == le32(size),
        raw.subrange(28, 32) == le32(count),
        0 <= i < count,
        40 + 8 * i <= raw.len(),
        raw.subrange(32 + 8 * i, 40 + 8 * i) == le64(fence),
    ensures
        spec_begin(m, raw).0 matches Ok(StepModel::Call(_h, CallModel::Submit { in_fences, commands, .. }, _k))
            ==> in_fences.len() == count && in_fences[i] == fence && commands == raw.subrange(
            32 + 8 * count,
            32 + 8 * count + size,
        ),
{
    lemma_u32_field(raw, 24, size);
    lemma_u32_field(raw, 28, count);
    assert(u32s_at(raw, 24, 2)[0] == size);
    assert(u32s_at(raw, 24, 2)[1] == count);
    lemma_in_fence_at(raw, count as nat, i, fence);
}

} // verus!
