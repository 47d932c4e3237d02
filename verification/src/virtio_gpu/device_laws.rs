//! Properties of the device's status and feature negotiation that hold
//! across operations.

use crate::virtio_gpu::device::{
    features_supported, gather_from, has_bit, min_nat, DeviceError, DeviceModel, STATUS_ACKNOWLEDGE, STATUS_DRIVER, STATUS_DRIVER_OK,
    STATUS_FEATURES_OK,
};
use crate::virtio_gpu::features::known_feature_bits;
use crate::virtio_gpu::protocol::requests::scanout::ResourceSetScanout;
use crate::virtio_gpu::protocol::requests::transfer::ResourceTransferToHost2D;
use crate::virtio_gpu::protocol::validation::{spec_validate_transfer_2d, ValidationError};
use crate::virtio_gpu::resource::ResourceModel;
use crate::virtio_gpu::protocol::requests::flush::ResourceFlush;
use crate::virtio_gpu::protocol::requests::blob::MemEntry;
use crate::virtio_gpu::protocol::commands::CMD_RESOURCE_ATTACH_BACKING;
use crate::virtio_gpu::protocol::header::CtrlHeader;
use crate::virtio_gpu::protocol::wire::{le32, le64, lemma_u32_field, lemma_u64_field, u32s_at};
use crate::virtio_gpu::renderer::framebuffer::FrameModel;
use vstd::prelude::*;

verus! {

/// A running driver has negotiated: DRIVER_OK comes with FEATURES_OK,
/// DRIVER and ACKNOWLEDGE, and with driver features the device supports.
pub proof fn lemma_running_driver_negotiated(m: DeviceModel)
    requires
        m.wf(),
        has_bit(m.status, STATUS_DRIVER_OK),
    ensures
        has_bit(m.status, STATUS_FEATURES_OK),
        has_bit(m.status, STATUS_DRIVER),
        has_bit(m.status, STATUS_ACKNOWLEDGE),
        features_supported(m.device_features, m.driver_features),
{
}

/// A reset forgets the negotiation: status and driver features are cleared
/// and the queues unconfigured, while resources and scanouts stay.
pub proof fn lemma_reset_forgets_negotiation(m: DeviceModel)
    ensures
        m.after_set_status(0) == m.after_reset(),
        m.after_reset().status == 0,
        m.after_reset().driver_features == 0,
        m.after_reset().controlq is None,
        m.after_reset().cursorq is None,
        m.after_reset().resources == m.resources,
        m.after_reset().scanouts == m.scanouts,
{
}

/// From reset, the usual initialisation is accepted step by step:
/// ACKNOWLEDGE, then DRIVER, then the driver's features when the device
/// supports them, then FEATURES_OK, then DRIVER_OK; the device ends running
/// with those features.
pub proof fn lemma_initialisation_accepted(m: DeviceModel, features: u64)
    requires
        m.wf(),
        m.status == 0,
        features & !known_feature_bits() == 0,
        features_supported(m.device_features, features),
    ensures
        ({
            let a = m.after_set_status(1);
            let d = a.after_set_status(3);
            let f = d.after_set_driver_features(features);
            let o = f.after_set_status(11);
            let r = o.after_set_status(15);
            &&& m.set_status_result(1) is Ok
            &&& a.set_status_result(3) is Ok
            &&& d.set_driver_features_result(features) is Ok
            &&& f.set_status_result(11) is Ok
            &&& o.set_status_result(15) is Ok
            &&& r.status == 15
            &&& r.driver_features == features
            &&& r.wf()
        }),
{
    assert(1u8 & 0xcfu8 == 1u8 && 3u8 & 0xcfu8 == 3u8 && 11u8 & 0xcfu8 == 11u8 && 15u8 & 0xcfu8 == 15u8)
        by (bit_vector);
    assert(1u8 & 2u8 != 2u8 && 1u8 & 8u8 != 8u8 && 1u8 & 4u8 != 4u8 && 1u8 & 1u8 == 1u8) by (bit_vector);
    assert(3u8 & 2u8 == 2u8 && 3u8 & 1u8 == 1u8 && 3u8 & 8u8 != 8u8 && 3u8 & 4u8 != 4u8) by (bit_vector);
    assert(11u8 & 2u8 == 2u8 && 11u8 & 1u8 == 1u8 && 11u8 & 8u8 == 8u8 && 11u8 & 4u8 != 4u8) by (bit_vector);
    assert(15u8 & 2u8 == 2u8 && 15u8 & 1u8 == 1u8 && 15u8 & 8u8 == 8u8 && 15u8 & 4u8 == 4u8) by (bit_vector);
}

/// After a successful SET_SCANOUT naming a resource, the scanout is
/// enabled and shows that resource, which the device still holds; the
/// framebuffer of the scanout is then that resource's pixels.
pub proof fn lemma_scanout_shows_resource(m: DeviceModel, req: ResourceSetScanout)
    requires
        m.wf(),
        req.resource_id != 0,
        m.set_scanout(req) is Ok,
    ensures
        ({
            let n = m.set_scanout(req)->Ok_0;
            &&& n.scanouts[req.scanout_id as int].enabled
            &&& n.scanouts[req.scanout_id as int].resource_id == req.resource_id
            &&& n.resources.contains_key(req.resource_id)
            &&& n.resources[req.resource_id] == m.resources[req.resource_id]
        }),
{
}

/// The bytes a 2D transfer of `req` moves into resource `res`, when the
/// request passes the transfer rules.
pub open spec fn transfer_len(res: ResourceModel, req: ResourceTransferToHost2D) -> Result<u64, ValidationError> {
    spec_validate_transfer_2d(res.width, res.height, req.rect, req.offset, res.data.len() as u64)
}

/// A transfer whose rectangle reaches outside the resource is an invalid
/// parameter and changes nothing.
pub proof fn lemma_transfer_outside_rejected(m: DeviceModel, req: ResourceTransferToHost2D)
    requires
        m.resources.contains_key(req.resource_id),
        req.rect.x + req.rect.width > m.resources[req.resource_id].width || req.rect.y + req.rect.height
            > m.resources[req.resource_id].height,
    ensures
        m.transfer(req) == (m, Err::<(), DeviceError>(DeviceError::InvalidParameter)),
{
}

/// A transfer whose resource has one backing entry covering all of its
/// bytes in guest memory succeeds: the guest's bytes land in the resource's
/// pixels from `offset` on, and the pixels before and after stay.
pub proof fn lemma_transfer_single_entry(m: DeviceModel, req: ResourceTransferToHost2D)
    requires
        m.wf(),
        m.resources.contains_key(req.resource_id),
        ({
            let res = m.resources[req.resource_id];
            &&& transfer_len(res, req) is Ok
            &&& transfer_len(res, req)->Ok_0 > 0
            &&& res.backing.len() == 1
            &&& res.backing[0].length >= transfer_len(res, req)->Ok_0
            &&& m.memory.offset_of(res.backing[0].addr, transfer_len(res, req)->Ok_0 as nat) is Ok
        }),
    ensures
        ({
            let res = m.resources[req.resource_id];
            let want = transfer_len(res, req)->Ok_0 as int;
            let off = m.memory.offset_of(res.backing[0].addr, want as nat)->Ok_0 as int;
            let (n, r) = m.transfer(req);
            &&& r is Ok
            &&& n.resources[req.resource_id].data == res.data.subrange(0, req.offset as int)
                + m.memory.bytes.subrange(off, off + want) + res.data.subrange(
                req.offset + want,
                res.data.len() as int,
            )
        }),
{
    let res = m.resources[req.resource_id];
    let want = transfer_len(res, req)->Ok_0 as nat;
    let at = req.offset as nat;
    let off = m.memory.offset_of(res.backing[0].addr, want)->Ok_0;
    let data1 = res.data.subrange(0, at as int) + m.memory.bytes.subrange(off as int, off + want) + res.data.subrange(
        (at + want) as int,
        res.data.len() as int,
    );
    assert(min_nat(res.backing[0].length as nat, want) == want);
    assert(gather_from(m.memory, res.backing, want, 0, 0, at, res.data) == gather_from(
        m.memory,
        res.backing,
        want,
        1,
        want,
        at,
        data1,
    ));
}

/// Flushing a resource that no enabled scanout shows leaves the renderer's
/// image, the scanouts and every other resource as they are; only the
/// flushed rectangle of that resource is recorded.
pub proof fn lemma_flush_unshown_keeps_image(m: DeviceModel, req: ResourceFlush)
    requires
        m.resources.contains_key(req.resource_id),
        forall|i: int| 0 <= i < 16 ==> !(#[trigger] m.scanouts[i].enabled && m.scanouts[i].resource_id == req.resource_id),
    ensures
        m.flush(req) matches Ok(n) && n.renderer == m.renderer && n.scanouts == m.scanouts && n.resources.dom()
            == m.resources.dom() && n.resources[req.resource_id].dirty == Some(req.rect)
            && n.resources[req.resource_id].data == m.resources[req.resource_id].data && (forall|id: u32|
            id != req.resource_id && m.resources.contains_key(id) ==> #[trigger] n.resources[id] == m.resources[id]),
{
    let n = m.flush(req)->Ok_0;
    assert(n.resources.dom() =~= m.resources.dom());
}

/// Flushing a resource that an enabled scanout shows makes a renderer in use
/// show that resource's pixels at its size.
pub proof fn lemma_flush_shown_redraws(m: DeviceModel, req: ResourceFlush, i: int)
    requires
        m.resources.contains_key(req.resource_id),
        m.renderer is Some,
        0 <= i < 16,
        m.scanouts[i].enabled,
        m.scanouts[i].resource_id == req.resource_id,
    ensures
        m.flush(req) matches Ok(n) && n.renderer == Some(
            FrameModel {
                width: m.resources[req.resource_id].width,
                height: m.resources[req.resource_id].height,
                data: m.resources[req.resource_id].data,
            },
        ),
{
}

/// A successful attach-backing request gives its resource exactly the memory
/// entries it lists, in order: with the resource id at byte 24 and the entry
/// count at byte 28, entry `i` is the address, length and padding stored in
/// the 16 bytes at `32 + 16 * i`.
pub proof fn lemma_attach_backing_lists_entries(
    m: DeviceModel,
    request: Seq<u8>,
    id: u32,
    nr: u32,
    i: int,
    addr: u64,
    length: u32,
    padding: u32,
)
    requires
        CtrlHeader::spec_parse(request).typ == CMD_RESOURCE_ATTACH_BACKING,
        32 <= request.len(),
        request.subrange(24, 28) == le32(id),
        request.subrange(28, 32) == le32(nr),
        m.process_command(request).1 is Ok,
        0 <= i < nr,
        48 + 16 * i <= request.len(),
        request.subrange(32 + 16 * i, 40 + 16 * i) == le64(addr),
        request.subrange(40 + 16 * i, 44 + 16 * i) == le32(length),
        request.subrange(44 + 16 * i, 48 + 16 * i) == le32(padding),
    ensures
        m.process_command(request).0.resources.contains_key(id),
        m.process_command(request).0.resources[id].backing.len() == nr,
        m.process_command(request).0.resources[id].backing[i] == (MemEntry { addr, length, padding }),
{
    lemma_u32_field(request, 24, id);
    lemma_u32_field(request, 28, nr);
    assert(u32s_at(request, 24, 2)[0] == id);
    assert(u32s_at(request, 24, 2)[1] == nr);
    let e = request.subrange(32 + 16 * i, 48 + 16 * i);
    assert(e.subrange(0, 8) =~= request.subrange(32 + 16 * i, 40 + 16 * i));
    assert(e.subrange(8, 12) =~= request.subrange(40 + 16 * i, 44 + 16 * i));
    assert(e.subrange(12, 16) =~= request.subrange(44 + 16 * i, 48 + 16 * i));
    lemma_u64_field(e, 0, addr);
    lemma_u32_field(e, 8, length);
    lemma_u32_field(e, 12, padding);
}

} // verus!
