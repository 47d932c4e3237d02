//! The VirtIO-GPU device: status and feature negotiation, virtqueue
//! configuration, and the resources and scanouts the control queue drives.

use crate::virtio_gpu::display::{edid_block, spec_edid_block, Scanout};
use crate::virtio_gpu::features::GpuFeatures;
use crate::virtio_gpu::protocol::commands::{CONTROLQ, CURSORQ};
use crate::virtio_gpu::protocol::config::GpuConfig;
use crate::virtio_gpu::renderer::framebuffer::{black_frame, copy_over, FrameBuffer, FrameModel};
use crate::virtio_gpu::renderer::software::{resource_frame, SoftwareRenderer};
use crate::virtio_gpu::protocol::commands::{
    CMD_GET_DISPLAY_INFO, CMD_RESOURCE_ATTACH_BACKING, CMD_RESOURCE_CREATE_2D, CMD_RESOURCE_FLUSH, CMD_SET_SCANOUT,
    CMD_TRANSFER_TO_HOST_2D, RESP_OK_DISPLAY_INFO, RESP_OK_EDID, RESP_OK_NODATA,
};
use crate::virtio_gpu::protocol::requests::flush::ResourceFlush;
use crate::virtio_gpu::protocol::requests::resource::ResourceAttachBacking;
use crate::virtio_gpu::protocol::requests::transfer::ResourceTransferToHost2D;
use crate::virtio_gpu::protocol::validation::{spec_validate_transfer_2d, validate_transfer_2d, ValidationError};
use crate::virtio_gpu::protocol::requests::standard::{GetEdid, SetScanoutBlob};
use crate::virtio_gpu::protocol::wire::{le32, put_bytes, put_u32, words};
use crate::virtio_gpu::protocol::formats::VirtioGpuFormat;
use crate::virtio_gpu::protocol::header::CtrlHeader;
use crate::virtio_gpu::protocol::requests::blob::MemEntry;
use crate::virtio_gpu::protocol::requests::resource::ResourceCreate2D;
use crate::virtio_gpu::protocol::requests::scanout::ResourceSetScanout;
use crate::virtio_gpu::protocol::responses::{DisplayOne, Rect, RespDisplayInfo, RespOkNoData};
use crate::virtio_gpu::resource::{fresh_resource, Resource, ResourceModel};
use crate::virtio_gpu::transport::memory::{GuestAddress, GuestMemory, GuestMemoryError, MemoryModel};
use std::collections::BTreeMap;
use vstd::prelude::*;

verus! {

broadcast use {vstd::std_specs::btree::group_btree_axioms, vstd::laws_cmp::group_laws_cmp};

/// The VirtIO device id of a GPU.
pub const DEVICE_ID: u32 = 16;

pub const STATUS_ACKNOWLEDGE: u8 = 1;
pub const STATUS_DRIVER: u8 = 2;
pub const STATUS_DRIVER_OK: u8 = 4;
pub const STATUS_FEATURES_OK: u8 = 8;
pub const STATUS_DEVICE_NEEDS_RESET: u8 = 0x40;
pub const STATUS_FAILED: u8 = 0x80;

/// Every status bit the device knows.
pub open spec fn known_status_bits() -> u8 {
    0xcf
}

/// The device status register as a set of bits.
#[derive(Debug, Clone, Copy, PartialEq, Eq, Structural)]
pub struct DeviceStatus {
    bits: u8,
}

impl View for DeviceStatus {
    type V = u8;

    closed spec fn view(&self) -> u8 {
        self.bits
    }
}

impl DeviceStatus {
    #[allow(non_snake_case)]
    pub fn ACKNOWLEDGE() -> (s: Self)
        ensures
            s@ == STATUS_ACKNOWLEDGE,
    {
        DeviceStatus { bits: STATUS_ACKNOWLEDGE }
    }

    #[allow(non_snake_case)]
    pub fn DRIVER() -> (s: Self)
        ensures
            s@ == STATUS_DRIVER,
    {
        DeviceStatus { bits: STATUS_DRIVER }
    }

    #[allow(non_snake_case)]
    pub fn DRIVER_OK() -> (s: Self)
        ensures
            s@ == STATUS_DRIVER_OK,
    {
        DeviceStatus { bits: STATUS_DRIVER_OK }
    }

    #[allow(non_snake_case)]
    pub fn FEATURES_OK() -> (s: Self)
        ensures
            s@ == STATUS_FEATURES_OK,
    {
        DeviceStatus { bits: STATUS_FEATURES_OK }
    }

    #[allow(non_snake_case)]
    pub fn DEVICE_NEEDS_RESET() -> (s: Self)
        ensures
            s@ == STATUS_DEVICE_NEEDS_RESET,
    {
        DeviceStatus { bits: STATUS_DEVICE_NEEDS_RESET }
    }

    #[allow(non_snake_case)]
    pub fn FAILED() -> (s: Self)
        ensures
            s@ == STATUS_FAILED,
    {
        DeviceStatus { bits: STATUS_FAILED }
    }

    pub fn empty() -> (s: Self)
        ensures
            s@ == 0,
    {
        DeviceStatus { bits: 0 }
    }

    pub fn bits(&self) -> (b: u8)
        ensures
            b == self@,
    {
        self.bits
    }

    /// The known bits of `bits`; unknown bits are dropped.
    pub fn from_bits_truncate(bits: u8) -> (s: Self)
        ensures
            s@ == bits & known_status_bits(),
    {
        DeviceStatus { bits: bits & 0xcf }
    }

    pub open spec fn spec_contains(self, other: DeviceStatus) -> bool {
        self@ & other@ == other@
    }

    pub fn contains(&self, other: Self) -> (b: bool)
        ensures
            b == self.spec_contains(other),
    {
        self.bits & other.bits == other.bits
    }
}

/// Whether status bit `bit` is set in `s`.
pub open spec fn has_bit(s: u8, bit: u8) -> bool {
    s & bit == bit
}

/// The order the driver moves through: DRIVER needs ACKNOWLEDGE, FEATURES_OK
/// needs DRIVER, DRIVER_OK needs FEATURES_OK.
pub open spec fn status_ordered(s: u8) -> bool {
    &&& has_bit(s, STATUS_DRIVER) ==> has_bit(s, STATUS_ACKNOWLEDGE)
    &&& has_bit(s, STATUS_FEATURES_OK) ==> has_bit(s, STATUS_DRIVER)
    &&& has_bit(s, STATUS_DRIVER_OK) ==> has_bit(s, STATUS_FEATURES_OK)
}

/// The driver's features are offered by the device and respect the
/// dependencies: CONTEXT_INIT needs VIRGL, BLOB_ALIGNMENT needs RESOURCE_BLOB.
pub open spec fn features_supported(device: u64, driver: u64) -> bool {
    &&& device & driver == driver
    &&& driver & 0x10 == 0x10 ==> driver & 0x1 == 0x1
    &&& driver & 0x20 == 0x20 ==> driver & 0x8 == 0x8
}

/// Where a virtqueue lives in guest memory and how many entries it has.
#[derive(Debug, Clone, Copy, PartialEq, Eq, Structural)]
pub struct QueueConfig {
    pub base: GuestAddress,
    pub size: u16,
}

/// Errors reported while driving the device or decoding requests.
#[derive(Debug, Clone, Copy, PartialEq, Eq)]
pub enum DeviceError {
    InvalidStatusTransition,
    FeaturesNotSupported,
    FeaturesAlreadyNegotiated,
    QueueIndexInvalid,
    QueueAlreadyConfigured,
    QueueNotReady,
    InvalidCommand,
    InvalidDescriptor,
    InvalidRequest,
    InvalidFormat,
    InvalidResource,
    InvalidParameter,
    UnsupportedCommand,
    ResponseBufferTooSmall,
    ResourceExists,
    Memory(GuestMemoryError),
}

impl vstd::std_specs::convert::FromSpecImpl<GuestMemoryError> for DeviceError {
    open spec fn obeys_from_spec() -> bool {
        true
    }

    open spec fn from_spec(v: GuestMemoryError) -> Self {
        DeviceError::Memory(v)
    }
}

impl From<GuestMemoryError> for DeviceError {
    fn from(value: GuestMemoryError) -> (r: Self) {
        DeviceError::Memory(value)
    }
}

/// The abstract state of the device.
pub struct DeviceModel {
    pub device_features: u64,
    pub driver_features: u64,
    pub status: u8,
    pub config: GpuConfig,
    pub config_generation: u8,
    pub controlq: Option<QueueConfig>,
    pub cursorq: Option<QueueConfig>,
    pub memory: MemoryModel,
    pub resources: Map<u32, ResourceModel>,
    pub scanouts: Seq<Scanout>,
    /// The image of the renderer in use, if any.
    pub renderer: Option<FrameModel>,
    /// The size of the window wanted for presenting, if any.
    pub display: Option<(usize, usize)>,
}

/// A resource the device keeps: filed under its own id, with pixels for its
/// full size.
pub open spec fn resource_wf(id: u32, r: ResourceModel) -> bool {
    &&& r.id == id
    &&& r.width * r.height * 4 <= usize::MAX
    &&& r.data.len() == r.width * r.height * 4
}

/// The mode reported for one scanout: its resource's full size when it is
/// enabled and its resource exists, all zero otherwise.
pub open spec fn display_mode(s: Scanout, resources: Map<u32, ResourceModel>) -> DisplayOne {
    if s.enabled && resources.contains_key(s.resource_id) {
        DisplayOne {
            rect: Rect {
                x: 0,
                y: 0,
                width: resources[s.resource_id].width,
                height: resources[s.resource_id].height,
            },
            enabled: 1,
            flags: 0,
        }
    } else {
        DisplayOne { rect: Rect { x: 0, y: 0, width: 0, height: 0 }, enabled: 0, flags: 0 }
    }
}

/// The image a resource shows: its size and pixels.
pub open spec fn resource_image(r: ResourceModel) -> FrameModel {
    FrameModel { width: r.width, height: r.height, data: r.data }
}

/// The smaller of two naturals.
pub open spec fn min_nat(a: nat, b: nat) -> nat {
    if a < b {
        a
    } else {
        b
    }
}

/// Filling pixels from the backing of a transfer, from entry `k` on with
/// `copied` bytes already in place at `at`: each entry gives as many of its
/// bytes as are still wanted, placed next in the pixels. The pixels reached,
/// and whether exactly `want` bytes came. An entry outside guest memory
/// stops it.
pub open spec fn gather_from(
    mem: MemoryModel,
    entries: Seq<MemEntry>,
    want: nat,
    k: nat,
    copied: nat,
    at: nat,
    data: Seq<u8>,
) -> (Seq<u8>, bool)
    decreases entries.len() - k,
{
    if k >= entries.len() || copied >= want {
        (data, copied == want)
    } else {
        let e = entries[k as int];
        let size = min_nat(e.length as nat, (want - copied) as nat);
        match mem.offset_of(e.addr, size) {
            Err(_) => (data, false),
            Ok(off) => gather_from(
                mem,
                entries,
                want,
                k + 1,
                copied + size,
                at,
                data.subrange(0, (at + copied) as int) + mem.bytes.subrange(off as int, off + size)
                    + data.subrange((at + copied + size) as int, data.len() as int),
            ),
        }
    }
}

/// Whether some scanout shows resource `id`.
pub open spec fn shown(scanouts: Seq<Scanout>, id: u32) -> bool {
    exists|i: int| 0 <= i < 16 && #[trigger] scanouts[i].enabled && scanouts[i].resource_id == id
}

impl DeviceModel {
    /// What every reachable device state satisfies.
    pub open spec fn wf(self) -> bool {
        &&& status_ordered(self.status)
        &&& self.device_features & self.driver_features == self.driver_features
        &&& has_bit(self.status, STATUS_FEATURES_OK) ==> features_supported(
            self.device_features,
            self.driver_features,
        )
        &&& self.scanouts.len() == 16
        &&& forall|id: u32| #[trigger]
            self.resources.contains_key(id) ==> resource_wf(id, self.resources[id])
    }

    /// The state after a reset: the driver-facing part is cleared, the
    /// configuration generation moves on, everything else stays.
    pub open spec fn after_reset(self) -> DeviceModel {
        DeviceModel {
            status: 0,
            driver_features: 0,
            controlq: None,
            cursorq: None,
            config_generation: if self.config_generation == 255 {
                0
            } else {
                (self.config_generation + 1) as u8
            },
            ..self
        }
    }

    /// What writing `new_status` to the status register answers.
    pub open spec fn set_status_result(self, new_status: u8) -> Result<(), DeviceError> {
        let req = new_status & known_status_bits();
        if new_status == 0 {
            Ok(())
        } else if has_bit(req, STATUS_DRIVER) && !has_bit(req, STATUS_ACKNOWLEDGE) {
            Err(DeviceError::InvalidStatusTransition)
        } else if has_bit(req, STATUS_FEATURES_OK) && !has_bit(req, STATUS_DRIVER) {
            Err(DeviceError::InvalidStatusTransition)
        } else if has_bit(req, STATUS_DRIVER_OK) && !has_bit(req, STATUS_FEATURES_OK) {
            Err(DeviceError::InvalidStatusTransition)
        } else if has_bit(req, STATUS_FEATURES_OK) && !features_supported(
            self.device_features,
            self.driver_features,
        ) {
            Err(DeviceError::FeaturesNotSupported)
        } else {
            Ok(())
        }
    }

    /// The state after writing `new_status` to the status register.
    pub open spec fn after_set_status(self, new_status: u8) -> DeviceModel {
        if new_status == 0 {
            self.after_reset()
        } else if self.set_status_result(new_status) is Ok {
            DeviceModel { status: new_status & known_status_bits(), ..self }
        } else {
            self
        }
    }

    /// The state after writing `features` as the driver's features.
    pub open spec fn after_set_driver_features(self, features: u64) -> DeviceModel {
        if self.set_driver_features_result(features) is Ok {
            DeviceModel { driver_features: features, ..self }
        } else {
            self
        }
    }

    /// What writing `features` as the driver's features answers.
    pub open spec fn set_driver_features_result(self, features: u64) -> Result<(), DeviceError> {
        if has_bit(self.status, STATUS_FEATURES_OK) {
            Err(DeviceError::FeaturesAlreadyNegotiated)
        } else if features & !crate::virtio_gpu::features::known_feature_bits() != 0 {
            Err(DeviceError::FeaturesNotSupported)
        } else if self.device_features & features != features {
            Err(DeviceError::FeaturesNotSupported)
        } else {
            Ok(())
        }
    }

    /// What configuring queue `index` answers.
    pub open spec fn configure_queue_result(self, index: u16) -> Result<(), DeviceError> {
        if !has_bit(self.status, STATUS_DRIVER) {
            Err(DeviceError::QueueNotReady)
        } else if index == CONTROLQ {
            if self.controlq is Some {
                Err(DeviceError::QueueAlreadyConfigured)
            } else {
                Ok(())
            }
        } else if index == CURSORQ {
            if self.cursorq is Some {
                Err(DeviceError::QueueAlreadyConfigured)
            } else {
                Ok(())
            }
        } else {
            Err(DeviceError::QueueIndexInvalid)
        }
    }

    /// Creating a 2D resource: refused when the id is in use.
    pub open spec fn create_2d(self, req: ResourceCreate2D) -> Result<DeviceModel, DeviceError> {
        if self.resources.contains_key(req.resource_id) {
            Err(DeviceError::ResourceExists)
        } else {
            Ok(
                DeviceModel {
                    resources: self.resources.insert(
                        req.resource_id,
                        fresh_resource(req.resource_id, req.width, req.height, req.format),
                    ),
                    ..self
                },
            )
        }
    }

    /// Replacing the backing of a resource.
    pub open spec fn attach_backing(self, id: u32, entries: Seq<MemEntry>) -> Result<DeviceModel, DeviceError> {
        if !self.resources.contains_key(id) {
            Err(DeviceError::InvalidResource)
        } else {
            Ok(
                DeviceModel {
                    resources: self.resources.insert(
                        id,
                        ResourceModel { backing: entries, ..self.resources[id] },
                    ),
                    ..self
                },
            )
        }
    }

    /// Showing resource `req.resource_id` on scanout `req.scanout_id`, or
    /// turning the scanout off for resource 0.
    pub open spec fn set_scanout(self, req: ResourceSetScanout) -> Result<DeviceModel, DeviceError> {
        if req.scanout_id >= 16 {
            Err(DeviceError::InvalidResource)
        } else if req.resource_id == 0 {
            Ok(DeviceModel { scanouts: self.scanouts.update(req.scanout_id as int, Scanout::disabled()), ..self })
        } else if !self.resources.contains_key(req.resource_id) {
            Err(DeviceError::InvalidResource)
        } else {
            let res = self.resources[req.resource_id];
            Ok(
                DeviceModel {
                    scanouts: self.scanouts.update(
                        req.scanout_id as int,
                        Scanout { enabled: true, resource_id: res.id, width: res.width, height: res.height },
                    ),
                    display: if self.display is None {
                        Some((res.width as usize, res.height as usize))
                    } else {
                        self.display
                    },
                    renderer: Some(black_frame(1920, 1080)),
                    ..self
                },
            )
        }
    }

    /// A 2D transfer. The rectangle must lie inside the resource and its
    /// `width * height * 4` bytes, placed at `offset`, inside the resource's
    /// pixels, else the request is an invalid parameter and nothing changes.
    /// Those bytes are gathered from the backing entries in order and copied
    /// into the pixels from `offset` on; the renderer then shows the
    /// resource. A failed gathering keeps the bytes copied before the failure.
    pub open spec fn transfer(self, req: ResourceTransferToHost2D) -> (DeviceModel, Result<(), DeviceError>) {
        if !self.resources.contains_key(req.resource_id) {
            (self, Err(DeviceError::InvalidResource))
        } else {
            let res = self.resources[req.resource_id];
            match spec_validate_transfer_2d(res.width, res.height, req.rect, req.offset, res.data.len() as u64) {
                Err(_) => (self, Err(DeviceError::InvalidParameter)),
                Ok(want) => {
            let (data, ok) = gather_from(self.memory, res.backing, want as nat, 0, 0, req.offset as nat, res.data);
            let res2 = ResourceModel { data, ..res };
            let next = DeviceModel { resources: self.resources.insert(req.resource_id, res2), ..self };
            if ok {
                (
                    DeviceModel {
                        renderer: if self.renderer is Some {
                            Some(resource_image(res2))
                        } else {
                            None
                        },
                        ..next
                    },
                    Ok(()),
                )
            } else {
                (next, Err(DeviceError::InvalidResource))
            }
                },
            }
        }
    }

    /// Marking the flushed rectangle; a shown resource is redrawn by the renderer.
    pub open spec fn flush(self, req: ResourceFlush) -> Result<DeviceModel, DeviceError> {
        if !self.resources.contains_key(req.resource_id) {
            Err(DeviceError::InvalidResource)
        } else {
            let res2 = ResourceModel { dirty: Some(req.rect), ..self.resources[req.resource_id] };
            Ok(
                DeviceModel {
                    resources: self.resources.insert(req.resource_id, res2),
                    renderer: if shown(self.scanouts, req.resource_id) && self.renderer is Some {
                        Some(resource_image(res2))
                    } else {
                        self.renderer
                    },
                    ..self
                },
            )
        }
    }

    /// Rendering from scanout `i` on: each enabled scanout needs its resource,
    /// and a resource with a flushed rectangle is copied over the renderer's image.
    pub open spec fn render_from(self, i: nat, frame: Option<FrameModel>) -> (Option<FrameModel>, Result<(), DeviceError>)
        decreases 16 - i,
    {
        if i >= 16 {
            (frame, Ok(()))
        } else {
            let s = self.scanouts[i as int];
            if !s.enabled {
                self.render_from(i + 1, frame)
            } else if !self.resources.contains_key(s.resource_id) {
                (frame, Err(DeviceError::InvalidResource))
            } else {
                let r = self.resources[s.resource_id];
                let next = if r.dirty is Some && frame is Some {
                    Some(FrameModel { data: copy_over(frame->0.data, r.data), ..frame->0 })
                } else {
                    frame
                };
                self.render_from(i + 1, next)
            }
        }
    }
}

/// A request whose sizes the host can hold: the pixels of a resource it
/// creates fit in memory.
pub open spec fn command_sizes_fit(request: Seq<u8>) -> bool {
    let typ = CtrlHeader::spec_parse(request).typ;
    typ == CMD_RESOURCE_CREATE_2D ==> (ResourceCreate2D::spec_decode(request) matches Ok(req) ==> req.width
        * req.height * 4 <= usize::MAX)
}

/// The memory entries listed after an attach-backing request; `None` when the
/// request is too short for them.
pub open spec fn backing_entries(request: Seq<u8>, nr: u32) -> Option<Seq<MemEntry>> {
    if request.len() < 32 + 16 * nr {
        None
    } else {
        Some(Seq::new(nr as nat, |i: int| MemEntry::spec_parse(request.subrange(32 + 16 * i, 48 + 16 * i))))
    }
}

/// The response of a request that succeeded with no data.
pub open spec fn ok_nodata_bytes() -> Seq<u8> {
    CtrlHeader::spec_new(RESP_OK_NODATA).spec_encode()
}

/// The display-info response of a device state.
pub open spec fn display_info_bytes(m: DeviceModel) -> Seq<u8> {
    CtrlHeader::spec_new(RESP_OK_DISPLAY_INFO).spec_encode() + words(
        Seq::new(96, |i: int| display_mode(m.scanouts[i / 6], m.resources).spec_word(i % 6)),
    )
}

impl DeviceModel {
    /// Processing one control request: the state after it and its response.
    pub open spec fn process_command(self, request: Seq<u8>) -> (DeviceModel, Result<Seq<u8>, DeviceError>) {
        let typ = CtrlHeader::spec_parse(request).typ;
        if typ == CMD_RESOURCE_CREATE_2D {
            match ResourceCreate2D::spec_decode(request) {
                Err(e) => (self, Err(e)),
                Ok(req) => match self.create_2d(req) {
                    Err(e) => (self, Err(e)),
                    Ok(m) => (m, Ok(ok_nodata_bytes())),
                },
            }
        } else if typ == CMD_GET_DISPLAY_INFO {
            (self, Ok(display_info_bytes(self)))
        } else if typ == CMD_RESOURCE_ATTACH_BACKING {
            match ResourceAttachBacking::spec_decode(request) {
                None => (self, Err(DeviceError::InvalidRequest)),
                Some(req) => match backing_entries(request, req.nr_entries) {
                    None => (self, Err(DeviceError::InvalidRequest)),
                    Some(entries) => match self.attach_backing(req.resource_id, entries) {
                        Err(e) => (self, Err(e)),
                        Ok(m) => (m, Ok(ok_nodata_bytes())),
                    },
                },
            }
        } else if typ == CMD_TRANSFER_TO_HOST_2D {
            match ResourceTransferToHost2D::spec_decode(request) {
                None => (self, Err(DeviceError::InvalidRequest)),
                Some(req) => {
                    let (m, r) = self.transfer(req);
                    match r {
                        Err(e) => (m, Err(e)),
                        Ok(_) => (m, Ok(ok_nodata_bytes())),
                    }
                },
            }
        } else if typ == CMD_RESOURCE_FLUSH {
            match ResourceFlush::spec_decode(request) {
                None => (self, Err(DeviceError::InvalidRequest)),
                Some(req) => match self.flush(req) {
                    Err(e) => (self, Err(e)),
                    Ok(m) => (m, Ok(ok_nodata_bytes())),
                },
            }
        } else if typ == CMD_SET_SCANOUT {
            match ResourceSetScanout::spec_decode(request) {
                None => (self, Err(DeviceError::InvalidRequest)),
                Some(req) => match self.set_scanout(req) {
                    Err(e) => (self, Err(e)),
                    Ok(m) => (m, Ok(ok_nodata_bytes())),
                },
            }
        } else {
            (self, Err(DeviceError::UnsupportedCommand))
        }
    }
}

/// The device with 16 MiB of guest memory, one scanout and one capability set.
pub struct VirtioGpuDevice {
    pub(crate) device_features: GpuFeatures,
    pub(crate) driver_features: GpuFeatures,
    pub(crate) status: DeviceStatus,
    pub(crate) config: GpuConfig,
    pub(crate) config_generation: u8,
    pub(crate) controlq: Option<QueueConfig>,
    pub(crate) cursorq: Option<QueueConfig>,
    pub(crate) memory: GuestMemory,
    pub(crate) resources: BTreeMap<u32, Resource>,
    pub(crate) scanouts: [Scanout; 16],
    pub(crate) renderer: Option<SoftwareRenderer>,
    pub(crate) display: Option<(usize, usize)>,
}

impl View for VirtioGpuDevice {
    type V = DeviceModel;

    closed spec fn view(&self) -> DeviceModel {
        DeviceModel {
            device_features: self.device_features@,
            driver_features: self.driver_features@,
            status: self.status@,
            config: self.config,
            config_generation: self.config_generation,
            controlq: self.controlq,
            cursorq: self.cursorq,
            memory: self.memory@,
            resources: self.resources@.map_values(|r: Resource| r@),
            scanouts: self.scanouts@,
            renderer: match self.renderer {
                Some(r) => Some(r@),
                None => None,
            },
            display: self.display,
        }
    }
}

impl VirtioGpuDevice {
    /// The features the device offers: VIRGL, EDID, RESOURCE_UUID,
    /// RESOURCE_BLOB, CONTEXT_INIT and BLOB_ALIGNMENT.
    pub open spec fn offered_features() -> u64 {
        0x3f
    }

    /// A device in the reset state with no resources, every scanout off, no
    /// renderer and no window.
    pub fn new() -> (d: Self)
        ensures
            d@.wf(),
            d@.device_features == Self::offered_features(),
            d@.driver_features == 0,
            d@.status == 0,
            d@.config == (GpuConfig {
                events_read: 0,
                events_clear: 0,
                num_scanouts: 1,
                num_capsets: 1,
                blob_alignment: Some(4096),
            }),
            d@.config_generation == 0,
            d@.controlq is None,
            d@.cursorq is None,
            d@.memory.base == 0,
            d@.memory.bytes == Seq::new(16 * 1024 * 1024, |i: int| 0u8),
            d@.resources.is_empty(),
            forall|i: int| 0 <= i < 16 ==> #[trigger] d@.scanouts[i] == Scanout::disabled(),
            d@.renderer is None,
            d@.display is None,
    {
        let device_features = GpuFeatures::VIRGL() | GpuFeatures::EDID() | GpuFeatures::RESOURCE_UUID()
            | GpuFeatures::RESOURCE_BLOB() | GpuFeatures::CONTEXT_INIT() | GpuFeatures::BLOB_ALIGNMENT();
        proof {
            assert(0x1u64 | 0x2u64 | 0x4u64 | 0x8u64 | 0x10u64 | 0x20u64 == 0x3fu64) by (bit_vector);
            assert(0x3fu64 & 0u64 == 0u64) by (bit_vector);
            assert(0u8 & 2u8 != 2u8 && 0u8 & 8u8 != 8u8 && 0u8 & 4u8 != 4u8) by (bit_vector);
            broadcast use vstd::array::axiom_spec_array_fill_for_copy_type;
        }
        let d = VirtioGpuDevice {
            device_features,
            driver_features: GpuFeatures::empty(),
            status: DeviceStatus::empty(),
            config: GpuConfig {
                events_read: 0,
                events_clear: 0,
                num_scanouts: 1,
                num_capsets: 1,
                blob_alignment: Some(4096),
            },
            config_generation: 0,
            controlq: None,
            cursorq: None,
            memory: GuestMemory::new(GuestAddress::new(0), 16 * 1024 * 1024),
            resources: BTreeMap::new(),
            scanouts: vstd::array::array_fill_for_copy_types::<Scanout, 16>(Scanout::off()),
            renderer: None,
            display: None,
        };
        assert(d@.resources =~= Map::<u32, ResourceModel>::empty());
        d
    }

    pub fn device_id(&self) -> (id: u32)
        ensures
            id == DEVICE_ID,
    {
        DEVICE_ID
    }

    pub fn device_features(&self) -> (f: GpuFeatures)
        ensures
            f@ == self@.device_features,
    {
        self.device_features
    }

    pub fn driver_features(&self) -> (f: GpuFeatures)
        ensures
            f@ == self@.driver_features,
    {
        self.driver_features
    }

    pub fn status(&self) -> (s: DeviceStatus)
        ensures
            s@ == self@.status,
    {
        self.status
    }

    pub fn config(&self) -> (c: GpuConfig)
        ensures
            c == self@.config,
    {
        self.config
    }

    pub fn config_generation(&self) -> (g: u8)
        ensures
            g == self@.config_generation,
    {
        self.config_generation
    }

    pub fn is_driver_ok(&self) -> (b: bool)
        ensures
            b == has_bit(self@.status, STATUS_DRIVER_OK),
    {
        self.status.contains(DeviceStatus::DRIVER_OK())
    }

    pub fn features_ok(&self) -> (b: bool)
        ensures
            b == has_bit(self@.status, STATUS_FEATURES_OK),
    {
        self.status.contains(DeviceStatus::FEATURES_OK())
    }

    pub fn control_queue(&self) -> (q: Option<QueueConfig>)
        ensures
            q == self@.controlq,
    {
        self.controlq
    }

    pub fn cursor_queue(&self) -> (q: Option<QueueConfig>)
        ensures
            q == self@.cursorq,
    {
        self.cursorq
    }

    /// The control queue's configuration, to be changed in place.
    pub fn control_queue_mut(&mut self) -> (q: Option<&mut QueueConfig>)
        ensures
            match q {
                Some(c) => old(self)@.controlq == Some(*c) && final(self)@ == (DeviceModel {
                    controlq: Some(*final(c)),
                    ..old(self)@
                }),
                None => old(self)@.controlq is None && final(self)@ == old(self)@,
            },
    {
        match &mut self.controlq {
            Some(c) => Some(c),
            None => None,
        }
    }

    /// The cursor queue's configuration, to be changed in place.
    pub fn cursor_queue_mut(&mut self) -> (q: Option<&mut QueueConfig>)
        ensures
            match q {
                Some(c) => old(self)@.cursorq == Some(*c) && final(self)@ == (DeviceModel {
                    cursorq: Some(*final(c)),
                    ..old(self)@
                }),
                None => old(self)@.cursorq is None && final(self)@ == old(self)@,
            },
    {
        match &mut self.cursorq {
            Some(c) => Some(c),
            None => None,
        }
    }

    pub fn memory(&self) -> (m: &GuestMemory)
        ensures
            m@ == self@.memory,
    {
        &self.memory
    }

    /// The guest memory, for the guest side to fill.
    pub fn memory_mut(&mut self) -> (m: &mut GuestMemory)
        ensures
            m@ == old(self)@.memory,
            final(self)@ == (DeviceModel { memory: final(m)@, ..old(self)@ }),
    {
        &mut self.memory
    }

    /// The renderer in use.
    pub fn renderer(&self) -> (r: Option<&SoftwareRenderer>)
        ensures
            match r {
                Some(x) => self@.renderer == Some(x@),
                None => self@.renderer is None,
            },
    {
        match &self.renderer {
            Some(x) => Some(x),
            None => None,
        }
    }

    /// The size of the window wanted for presenting.
    pub fn display(&self) -> (d: Option<(usize, usize)>)
        ensures
            d == self@.display,
    {
        self.display
    }

    /// Returns the driver-facing state to reset: no status, no negotiated
    /// features, no queues; the configuration generation moves on.
    pub fn reset(&mut self)
        requires
            old(self)@.wf(),
        ensures
            final(self)@ == old(self)@.after_reset(),
            final(self)@.wf(),
    {
        self.status = DeviceStatus::empty();
        self.driver_features = GpuFeatures::empty();
        self.controlq = None;
        self.cursorq = None;
        self.config_generation = self.config_generation.wrapping_add(1);
        proof {
            let f = self@.device_features;
            assert(f & 0u64 == 0u64) by (bit_vector);
            assert(0u8 & 2u8 != 2u8 && 0u8 & 8u8 != 8u8 && 0u8 & 4u8 != 4u8) by (bit_vector);
        }
    }

    /// Writes the status register. Zero resets the device. Otherwise the known
    /// bits become the status when DRIVER comes with ACKNOWLEDGE, FEATURES_OK
    /// with DRIVER and DRIVER_OK with FEATURES_OK, and FEATURES_OK only for
    /// supported driver features; a refused write changes nothing.
    pub fn set_status(&mut self, new_status: u8) -> (r: Result<(), DeviceError>)
        requires
            old(self)@.wf(),
        ensures
            r == old(self)@.set_status_result(new_status),
            final(self)@ == old(self)@.after_set_status(new_status),
            final(self)@.wf(),
            new_status == 0 ==> final(self)@ == old(self)@.after_reset(),
            new_status != 0 && r is Ok ==> final(self)@ == (DeviceModel {
                status: new_status & known_status_bits(),
                ..old(self)@
            }),
            r is Err ==> final(self)@ == old(self)@,
    {
        if new_status == 0 {
            self.reset();
            return Ok(());
        }
        let requested = DeviceStatus::from_bits_truncate(new_status);
        if requested.contains(DeviceStatus::DRIVER()) && !requested.contains(DeviceStatus::ACKNOWLEDGE()) {
            return Err(DeviceError::InvalidStatusTransition);
        }
        if requested.contains(DeviceStatus::FEATURES_OK()) && !requested.contains(DeviceStatus::DRIVER()) {
            return Err(DeviceError::InvalidStatusTransition);
        }
        if requested.contains(DeviceStatus::DRIVER_OK()) && !requested.contains(DeviceStatus::FEATURES_OK()) {
            return Err(DeviceError::InvalidStatusTransition);
        }
        if requested.contains(DeviceStatus::FEATURES_OK()) && !self.features_are_supported() {
            return Err(DeviceError::FeaturesNotSupported);
        }
        self.status = requested;
        Ok(())
    }

    /// Records the driver's features: refused once FEATURES_OK is set, and for
    /// unknown bits or bits the device does not offer.
    pub fn set_driver_features(&mut self, features: u64) -> (r: Result<(), DeviceError>)
        requires
            old(self)@.wf(),
        ensures
            r == old(self)@.set_driver_features_result(features),
            final(self)@ == old(self)@.after_set_driver_features(features),
            final(self)@.wf(),
            r is Ok ==> final(self)@ == (DeviceModel { driver_features: features, ..old(self)@ }),
            r is Err ==> final(self)@ == old(self)@,
    {
        if self.features_ok() {
            return Err(DeviceError::FeaturesAlreadyNegotiated);
        }
        let requested = match GpuFeatures::from_bits(features) {
            Some(f) => f,
            None => return Err(DeviceError::FeaturesNotSupported),
        };
        if !self.device_features.contains(requested) {
            return Err(DeviceError::FeaturesNotSupported);
        }
        self.driver_features = requested;
        Ok(())
    }

    /// Whether the driver's features are offered and respect their dependencies.
    pub fn features_are_supported(&self) -> (b: bool)
        ensures
            b == features_supported(self@.device_features, self@.driver_features),
    {
        if !self.device_features.contains(self.driver_features) {
            return false;
        }
        if self.driver_features.contains(GpuFeatures::CONTEXT_INIT()) && !self.driver_features.contains(
            GpuFeatures::VIRGL(),
        ) {
            return false;
        }
        if self.driver_features.contains(GpuFeatures::BLOB_ALIGNMENT()) && !self.driver_features.contains(
            GpuFeatures::RESOURCE_BLOB(),
        ) {
            return false;
        }
        true
    }

    /// Places the control (0) or cursor (1) queue, once DRIVER is set; each
    /// queue can be placed once until the next reset.
    pub fn configure_queue(&mut self, queue_index: u16, base: GuestAddress, queue_size: u16) -> (r:
        Result<(), DeviceError>)
        requires
            old(self)@.wf(),
        ensures
            r == old(self)@.configure_queue_result(queue_index),
            final(self)@.wf(),
            r is Ok && queue_index == CONTROLQ ==> final(self)@ == (DeviceModel {
                controlq: Some(QueueConfig { base, size: queue_size }),
                ..old(self)@
            }),
            r is Ok && queue_index == CURSORQ ==> final(self)@ == (DeviceModel {
                cursorq: Some(QueueConfig { base, size: queue_size }),
                ..old(self)@
            }),
            r is Err ==> final(self)@ == old(self)@,
    {
        if !self.status.contains(DeviceStatus::DRIVER()) {
            return Err(DeviceError::QueueNotReady);
        }
        let queue = QueueConfig { base, size: queue_size };
        if queue_index == CONTROLQ {
            if self.controlq.is_some() {
                return Err(DeviceError::QueueAlreadyConfigured);
            }
            self.controlq = Some(queue);
        } else if queue_index == CURSORQ {
            if self.cursorq.is_some() {
                return Err(DeviceError::QueueAlreadyConfigured);
            }
            self.cursorq = Some(queue);
        } else {
            return Err(DeviceError::QueueIndexInvalid);
        }
        Ok(())
    }

    /// Whether queue `queue_index` has been placed.
    pub fn queue_ready(&self, queue_index: u16) -> (r: Result<bool, DeviceError>)
        ensures
            r == (if queue_index == CONTROLQ {
                Ok::<bool, DeviceError>(self@.controlq is Some)
            } else if queue_index == CURSORQ {
                Ok::<bool, DeviceError>(self@.cursorq is Some)
            } else {
                Err::<bool, DeviceError>(DeviceError::QueueIndexInvalid)
            }),
    {
        if queue_index == CONTROLQ {
            Ok(self.controlq.is_some())
        } else if queue_index == CURSORQ {
            Ok(self.cursorq.is_some())
        } else {
            Err(DeviceError::QueueIndexInvalid)
        }
    }

    /// Commands are processed only once the driver is ready and the control
    /// queue is placed.
    pub fn require_ready(&self) -> (r: Result<(), DeviceError>)
        ensures
            r is Ok <==> has_bit(self@.status, STATUS_DRIVER_OK) && self@.controlq is Some,
            r is Err ==> r == Err::<(), DeviceError>(DeviceError::QueueNotReady),
    {
        if !self.is_driver_ok() {
            return Err(DeviceError::QueueNotReady);
        }
        if self.controlq.is_none() {
            return Err(DeviceError::QueueNotReady);
        }
        Ok(())
    }

    /// The resource with id `id`.
    pub fn resource(&self, id: u32) -> (r: Option<&Resource>)
        ensures
            match r {
                Some(res) => self@.resources.contains_key(id) && res@ == self@.resources[id],
                None => !self@.resources.contains_key(id),
            },
    {
        self.resources.get(&id)
    }

    /// Takes resource `id` out of the table for an update.
    fn take_resource(&mut self, id: u32) -> (r: Resource)
        requires
            old(self)@.resources.contains_key(id),
        ensures
            r@ == old(self)@.resources[id],
            final(self)@ == (DeviceModel { resources: old(self)@.resources.remove(id), ..old(self)@ }),
            final(self).renderer == old(self).renderer,
    {
        let r = self.resources.remove(&id).unwrap();
        assert(self@.resources =~= old(self)@.resources.remove(id));
        r
    }

    /// Files resource `r` under `id`.
    fn put_resource(&mut self, id: u32, r: Resource)
        ensures
            final(self)@ == (DeviceModel { resources: old(self)@.resources.insert(id, r@), ..old(self)@ }),
            final(self).renderer == old(self).renderer,
    {
        self.resources.insert(id, r);
        assert(self@.resources =~= old(self)@.resources.insert(id, r@));
    }
}

/// A well-formed state stays well-formed when resource `id` gets new pixels
/// of the same length, a new backing or a new flushed rectangle.
pub proof fn lemma_resource_update_wf(m: DeviceModel, id: u32, r: ResourceModel)
    requires
        m.wf(),
        m.resources.contains_key(id),
        r.id == m.resources[id].id,
        r.width == m.resources[id].width,
        r.height == m.resources[id].height,
        r.data.len() == m.resources[id].data.len(),
    ensures
        (DeviceModel { resources: m.resources.insert(id, r), ..m }).wf(),
{
    let n = DeviceModel { resources: m.resources.insert(id, r), ..m };
    assert forall|k: u32| #[trigger] n.resources.contains_key(k) implies resource_wf(k, n.resources[k]) by {
        assert(m.resources.contains_key(k));
    }
}

/// Copies `src` into `dst` from offset `at`.
fn copy_into(dst: &mut Vec<u8>, at: usize, src: &[u8])
    requires
        at + src@.len() <= old(dst)@.len(),
    ensures
        final(dst)@ == old(dst)@.subrange(0, at as int) + src@ + old(dst)@.subrange(
            at + src@.len(),
            old(dst)@.len() as int,
        ),
{
    let n = src.len();
    let total = dst.len();
    let mut i: usize = 0;
    while i < n
        invariant
            n == src@.len(),
            total == dst@.len(),
            at + n <= dst@.len(),
            dst@.len() == old(dst)@.len(),
            i <= n,
            forall|j: int| 0 <= j < i ==> dst@[at + j] == src@[j],
            forall|j: int| 0 <= j < dst@.len() && !(at <= j < at + i) ==> dst@[j] == old(dst)@[j],
        decreases n - i,
    {
        dst.set(at + i, src[i]);
        i = i + 1;
    }
    assert(dst@ =~= old(dst)@.subrange(0, at as int) + src@ + old(dst)@.subrange(
        at + src@.len(),
        old(dst)@.len() as int,
    ));
}

impl VirtioGpuDevice {
    /// Creates a resource with zeroed pixels; an id already in use is refused
    /// and nothing changes.
    pub fn create_resource_2d(&mut self, request: ResourceCreate2D) -> (r: Result<(), DeviceError>)
        requires
            old(self)@.wf(),
            request.width * request.height * 4 <= usize::MAX,
        ensures
            final(self)@.wf(),
            match old(self)@.create_2d(request) {
                Ok(m) => r is Ok && final(self)@ == m,
                Err(e) => r == Err::<(), DeviceError>(e) && final(self)@ == old(self)@,
            },
    {
        if self.resources.contains_key(&request.resource_id) {
            return Err(DeviceError::ResourceExists);
        }
        let resource = Resource::new(request.resource_id, request.width, request.height, request.format);
        self.put_resource(request.resource_id, resource);
        proof {
            let m = self@;
            assert forall|k: u32| #[trigger] m.resources.contains_key(k) implies resource_wf(k, m.resources[k]) by {
                if k != request.resource_id {
                    assert(old(self)@.resources.contains_key(k));
                }
            }
        }
        Ok(())
    }

    /// Replaces the guest memory backing a resource.
    pub fn attach_backing(&mut self, resource_id: u32, entries: Vec<MemEntry>) -> (r: Result<(), DeviceError>)
        requires
            old(self)@.wf(),
        ensures
            final(self)@.wf(),
            match old(self)@.attach_backing(resource_id, entries@) {
                Ok(m) => r is Ok && final(self)@ == m,
                Err(e) => r == Err::<(), DeviceError>(e) && final(self)@ == old(self)@,
            },
    {
        if !self.resources.contains_key(&resource_id) {
            return Err(DeviceError::InvalidResource);
        }
        let mut resource = self.take_resource(resource_id);
        resource.backing = entries;
        self.put_resource(resource_id, resource);
        proof {
            lemma_resource_update_wf(old(self)@, resource_id, resource@);
            assert(old(self)@.resources.remove(resource_id).insert(resource_id, resource@)
                =~= old(self)@.resources.insert(resource_id, resource@));
        }
        Ok(())
    }

    /// Drops the guest memory backing a resource.
    pub fn handle_detach_backing(&mut self, resource_id: u32) -> (r: Result<(), DeviceError>)
        requires
            old(self)@.wf(),
        ensures
            final(self)@.wf(),
            match old(self)@.attach_backing(resource_id, Seq::empty()) {
                Ok(m) => r is Ok && final(self)@ == m,
                Err(e) => r == Err::<(), DeviceError>(e) && final(self)@ == old(self)@,
            },
    {
        if !self.resources.contains_key(&resource_id) {
            return Err(DeviceError::InvalidResource);
        }
        let mut resource = self.take_resource(resource_id);
        resource.backing.clear();
        self.put_resource(resource_id, resource);
        proof {
            assert(resource@.backing =~= Seq::<MemEntry>::empty());
            lemma_resource_update_wf(old(self)@, resource_id, resource@);
            assert(old(self)@.resources.remove(resource_id).insert(resource_id, resource@)
                =~= old(self)@.resources.insert(resource_id, resource@));
        }
        Ok(())
    }

    /// Shows a resource on a scanout, or turns the scanout off for resource 0.
    /// Showing a resource asks for a window of its size if none is wanted yet
    /// and switches to a fresh 1920x1080 software renderer.
    pub fn set_scanout(&mut self, req: ResourceSetScanout) -> (r: Result<(), DeviceError>)
        requires
            old(self)@.wf(),
        ensures
            final(self)@.wf(),
            match old(self)@.set_scanout(req) {
                Ok(m) => r is Ok && final(self)@ == m,
                Err(e) => r == Err::<(), DeviceError>(e) && final(self)@ == old(self)@,
            },
    {
        if req.scanout_id >= 16 {
            return Err(DeviceError::InvalidResource);
        }
        let sid = req.scanout_id as usize;
        if req.resource_id == 0 {
            self.scanouts[sid] = Scanout::off();
            return Ok(());
        }
        let (id, width, height) = match self.resources.get(&req.resource_id) {
            None => return Err(DeviceError::InvalidResource),
            Some(resource) => (resource.id, resource.width, resource.height),
        };
        self.scanouts[sid] = Scanout { enabled: true, resource_id: id, width, height };
        if self.display.is_none() {
            self.display = Some((width as usize, height as usize));
        }
        self.renderer = Some(SoftwareRenderer::new(1920, 1080));
        Ok(())
    }

    /// The pixels of the resource shown on a scanout.
    pub fn framebuffer(&self, scanout_id: usize) -> (r: Option<&[u8]>)
        requires
            self@.wf(),
        ensures
            match r {
                Some(p) => scanout_id < 16 && self@.scanouts[scanout_id as int].enabled
                    && self@.resources.contains_key(self@.scanouts[scanout_id as int].resource_id)
                    && p@ == self@.resources[self@.scanouts[scanout_id as int].resource_id].data,
                None => scanout_id >= 16 || !self@.scanouts[scanout_id as int].enabled
                    || !self@.resources.contains_key(self@.scanouts[scanout_id as int].resource_id),
            },
    {
        if scanout_id >= 16 {
            return None;
        }
        let scanout = self.scanouts[scanout_id];
        if !scanout.enabled {
            return None;
        }
        match self.resources.get(&scanout.resource_id) {
            None => None,
            Some(resource) => Some(resource.pixels()),
        }
    }

    /// The display-info response: each enabled scanout whose resource exists
    /// reports that resource's size.
    pub fn get_display_info(&self) -> (d: RespDisplayInfo)
        requires
            self@.wf(),
        ensures
            d.header == CtrlHeader::spec_new(RESP_OK_DISPLAY_INFO),
            forall|i: int| 0 <= i < 16 ==> #[trigger] d.pmodes@[i] == display_mode(self@.scanouts[i], self@.resources),
            d.spec_encode() == display_info_bytes(self@),
    {
        let zero = DisplayOne { rect: Rect { x: 0, y: 0, width: 0, height: 0 }, enabled: 0, flags: 0 };
        let mut pmodes = [zero; 16];
        let mut i: usize = 0;
        while i < 16
            invariant
                i <= 16,
                self@.wf(),
                zero == (DisplayOne { rect: Rect { x: 0, y: 0, width: 0, height: 0 }, enabled: 0, flags: 0 }),
                forall|k: int| 0 <= k < i ==> #[trigger] pmodes@[k] == display_mode(self@.scanouts[k], self@.resources),
            decreases 16 - i,
        {
            let scanout = self.scanouts[i];
            let mode = if scanout.enabled {
                match self.resources.get(&scanout.resource_id) {
                    Some(resource) => DisplayOne {
                        rect: Rect { x: 0, y: 0, width: resource.width, height: resource.height },
                        enabled: 1,
                        flags: 0,
                    },
                    None => zero,
                }
            } else {
                zero
            };
            assert(mode == display_mode(self@.scanouts[i as int], self@.resources));
            pmodes[i] = mode;
            i = i + 1;
        }
        let d = RespDisplayInfo { header: CtrlHeader::new(RESP_OK_DISPLAY_INFO), pmodes };
        assert(d.spec_words() =~= Seq::new(96, |i: int| display_mode(self@.scanouts[i / 6], self@.resources).spec_word(i % 6)));
        d
    }
}

impl VirtioGpuDevice {
    /// Copies the bytes of a 2D transfer into a resource. The rectangle must
    /// lie inside the resource and its `width * height * 4` bytes, placed at
    /// `offset`, inside the resource's pixels; otherwise the request is an
    /// invalid parameter. The bytes are gathered from guest memory through
    /// the resource's backing entries in order and land in the pixels from
    /// `offset` on. A missing resource, an entry outside guest memory, or
    /// too little backing is an invalid resource; bytes copied before such
    /// a failure stay. On success the renderer, if any, shows the resource.
    pub fn transfer_to_host(&mut self, req: ResourceTransferToHost2D) -> (r: Result<(), DeviceError>)
        requires
            old(self)@.wf(),
        ensures
            final(self)@.wf(),
            (final(self)@, r) == old(self)@.transfer(req),
    {
        let id = req.resource_id;
        if !self.resources.contains_key(&id) {
            return Err(DeviceError::InvalidResource);
        }
        let mut resource = self.take_resource(id);
        let ghost res0 = resource@;
        let ghost base = self@;
        let checked = validate_transfer_2d(
            resource.width,
            resource.height,
            req.rect,
            req.offset,
            resource.data.len() as u64,
        );
        let want: usize = match checked {
            Ok(w) => w as usize,
            Err(_) => {
                self.put_resource(id, resource);
                proof {
                    assert(self@.resources =~= old(self)@.resources);
                }
                return Err(DeviceError::InvalidParameter);
            },
        };
        let at: usize = req.offset as usize;
        let n = resource.backing.len();
        let mut copied: usize = 0;
        let mut k: usize = 0;
        while k < n && copied < want
            invariant
                n == resource.backing@.len(),
                spec_validate_transfer_2d(res0.width, res0.height, req.rect, req.offset, res0.data.len() as u64)
                    == Ok::<u64, ValidationError>(want as u64),
                at == req.offset,
                at + want <= resource@.data.len(),
                old(self)@.wf(),
                id == req.resource_id,
                old(self)@.resources.contains_key(id),
                res0 == old(self)@.resources[id],
                base == (DeviceModel { resources: old(self)@.resources.remove(id), ..old(self)@ }),
                k <= n,
                copied <= want,
                self@ == base,
                resource@ == (ResourceModel { data: resource@.data, ..res0 }),
                resource@.data.len() == res0.data.len(),
                gather_from(self@.memory, res0.backing, want as nat, k as nat, copied as nat, at as nat, resource@.data)
                    == gather_from(self@.memory, res0.backing, want as nat, 0, 0, at as nat, res0.data),
            decreases n - k,
        {
            let entry = resource.backing[k];
            let remaining = want - copied;
            let size: usize = if (entry.length as usize) < remaining {
                entry.length as usize
            } else {
                remaining
            };
            proof {
                assert(entry == res0.backing[k as int]);
                assert(size == min_nat(entry.length as nat, (want - copied) as nat));
            }
            let buffer = match self.memory.read_slice(GuestAddress::new(entry.addr), size) {
                Ok(b) => b,
                Err(_) => {
                    self.put_resource(id, resource);
                    proof {
                        assert(self@.resources =~= old(self)@.resources.insert(id, resource@));
                    }
                    return Err(DeviceError::InvalidResource);
                },
            };
            copy_into(&mut resource.data, at + copied, buffer.as_slice());
            copied = copied + size;
            k = k + 1;
        }
        if copied != want {
            self.put_resource(id, resource);
            proof {
                assert(self@.resources =~= old(self)@.resources.insert(id, resource@));
                lemma_resource_update_wf(old(self)@, id, resource@);
            }
            return Err(DeviceError::InvalidResource);
        }
        proof {
            assert(resource_wf(id, res0));
        }
        if self.renderer.is_some() {
            let mut rd = self.renderer.take().unwrap();
            let _ = rd.transfer_resource(&resource);
            self.renderer = Some(rd);
        }
        self.put_resource(id, resource);
        proof {
            assert(self@.resources =~= old(self)@.resources.insert(id, resource@));
            lemma_resource_update_wf(old(self)@, id, resource@);
        }
        Ok(())
    }

    /// Records the flushed rectangle of a resource; when a scanout shows the
    /// resource, the renderer, if any, redraws it.
    pub fn resource_flush(&mut self, req: ResourceFlush) -> (r: Result<(), DeviceError>)
        requires
            old(self)@.wf(),
        ensures
            final(self)@.wf(),
            match old(self)@.flush(req) {
                Ok(m) => r is Ok && final(self)@ == m,
                Err(e) => r == Err::<(), DeviceError>(e) && final(self)@ == old(self)@,
            },
    {
        let id = req.resource_id;
        if !self.resources.contains_key(&id) {
            return Err(DeviceError::InvalidResource);
        }
        let mut resource = self.take_resource(id);
        resource.dirty = Some(req.rect);
        let mut visible = false;
        let mut i: usize = 0;
        while i < 16
            invariant
                i <= 16,
                old(self)@.wf(),
                old(self)@.resources.contains_key(id),
                self@ == (DeviceModel { resources: old(self)@.resources.remove(id), ..old(self)@ }),
                resource@ == (ResourceModel { dirty: Some(req.rect), ..old(self)@.resources[id] }),
                visible == exists|j: int| 0 <= j < i && #[trigger] old(self)@.scanouts[j].enabled && old(self)@.scanouts[j].resource_id == id,
            decreases 16 - i,
        {
            let s = self.scanouts[i];
            assert(s == old(self)@.scanouts[i as int]);
            if s.enabled && s.resource_id == id {
                visible = true;
            }
            i = i + 1;
        }
        proof {
            assert(resource_wf(id, old(self)@.resources[id]));
            assert(visible == shown(old(self)@.scanouts, id));
        }
        if visible && self.renderer.is_some() {
            let mut rd = self.renderer.take().unwrap();
            let _ = rd.flush_resource(&resource);
            self.renderer = Some(rd);
        }
        self.put_resource(id, resource);
        proof {
            lemma_resource_update_wf(old(self)@, id, resource@);
            assert(old(self)@.resources.remove(id).insert(id, resource@) =~= old(self)@.resources.insert(id, resource@));
        }
        Ok(())
    }

    /// Copies each flushed resource shown on an enabled scanout over the
    /// renderer's image; an enabled scanout without its resource is an invalid
    /// resource, after the scanouts before it were rendered.
    pub fn render(&mut self) -> (r: Result<(), DeviceError>)
        requires
            old(self)@.wf(),
        ensures
            final(self)@.wf(),
            ({
                let (frame, res) = old(self)@.render_from(0, old(self)@.renderer);
                r == res && final(self)@ == (DeviceModel { renderer: frame, ..old(self)@ })
            }),
    {
        let mut i: usize = 0;
        while i < 16
            invariant
                i <= 16,
                old(self)@.wf(),
                self@ == (DeviceModel { renderer: self@.renderer, ..old(self)@ }),
                old(self)@.render_from(i as nat, self@.renderer) == old(self)@.render_from(0, old(self)@.renderer),
            decreases 16 - i,
        {
            let s = self.scanouts[i];
            if s.enabled {
                let dirty = match self.resources.get(&s.resource_id) {
                    None => return Err(DeviceError::InvalidResource),
                    Some(resource) => resource.dirty.is_some(),
                };
                if dirty && self.renderer.is_some() {
                    let mut rd = self.renderer.take().unwrap();
                    let resource = self.resources.get(&s.resource_id).unwrap();
                    rd.upload(resource.data.as_slice());
                    self.renderer = Some(rd);
                }
            }
            i = i + 1;
        }
        Ok(())
    }

    /// The image to present, once there is a renderer and a window is wanted.
    pub fn present(&self) -> (f: Option<&FrameBuffer>)
        ensures
            match f {
                Some(fb) => self@.renderer == Some(fb@) && self@.display is Some,
                None => self@.renderer is None || self@.display is None,
            },
    {
        match (&self.renderer, &self.display) {
            (Some(rd), Some(_)) => Some(rd.framebuffer()),
            _ => None,
        }
    }

    /// The image to present for a new frame: the same as `present`.
    pub fn render_frame(&self) -> (f: Option<&FrameBuffer>)
        ensures
            match f {
                Some(fb) => self@.renderer == Some(fb@) && self@.display is Some,
                None => self@.renderer is None || self@.display is None,
            },
    {
        self.present()
    }
}

impl VirtioGpuDevice {
    /// The memory entries listed after an attach-backing request.
    fn read_backing_entries(request: &[u8], nr: u32) -> (r: Option<Vec<MemEntry>>)
        ensures
            match backing_entries(request@, nr) {
                Some(e) => r matches Some(v) && v@ == e,
                None => r is None,
            },
    {
        let need: u64 = 32 + 16 * (nr as u64);
        if (request.len() as u64) < need {
            return None;
        }
        let mut entries: Vec<MemEntry> = Vec::new();
        let mut i: usize = 0;
        let n = nr as usize;
        let total = request.len();
        while i < n
            invariant
                n == nr,
                total == request@.len(),
                i <= n,
                request@.len() >= 32 + 16 * nr,
                entries@ == Seq::new(i as nat, |j: int| MemEntry::spec_parse(request@.subrange(32 + 16 * j, 48 + 16 * j))),
            decreases n - i,
        {
            let off = 32 + 16 * i;
            let e = MemEntry::decode_le(&request[off..off + 16]).unwrap();
            entries.push(e);
            proof {
                assert(entries@ =~= Seq::new((i + 1) as nat, |j: int| MemEntry::spec_parse(request@.subrange(32 + 16 * j, 48 + 16 * j))));
            }
            i = i + 1;
        }
        Some(entries)
    }

    /// Processes one control request: decodes it, applies it and answers it.
    /// Resource creation, display info, backing attachment, transfer, flush
    /// and scanout setting are handled; any other command is unsupported.
    pub fn process_command(&mut self, request: &[u8]) -> (r: Result<Vec<u8>, DeviceError>)
        requires
            old(self)@.wf(),
            request@.len() >= 24,
            command_sizes_fit(request@),
        ensures
            final(self)@.wf(),
            ({
                let (m, res) = old(self)@.process_command(request@);
                &&& final(self)@ == m
                &&& match res {
                    Ok(b) => r matches Ok(v) && v@ == b,
                    Err(e) => r == Err::<Vec<u8>, DeviceError>(e),
                }
            }),
    {
        let header = CtrlHeader::decode_le(request).unwrap();
        let typ = header.typ;
        if typ == CMD_RESOURCE_CREATE_2D {
            let req = match ResourceCreate2D::decode(request) {
                Ok(req) => req,
                Err(e) => return Err(e),
            };
            match self.create_resource_2d(req) {
                Ok(()) => {},
                Err(e) => return Err(e),
            }
            Ok(RespOkNoData::new().encode_le())
        } else if typ == CMD_GET_DISPLAY_INFO {
            Ok(self.get_display_info().encode_le())
        } else if typ == CMD_RESOURCE_ATTACH_BACKING {
            let req = match ResourceAttachBacking::decode(request) {
                Some(req) => req,
                None => return Err(DeviceError::InvalidRequest),
            };
            let entries = match Self::read_backing_entries(request, req.nr_entries) {
                Some(e) => e,
                None => return Err(DeviceError::InvalidRequest),
            };
            match self.attach_backing(req.resource_id, entries) {
                Ok(()) => {},
                Err(e) => return Err(e),
            }
            Ok(RespOkNoData::new().encode_le())
        } else if typ == CMD_TRANSFER_TO_HOST_2D {
            let req = match ResourceTransferToHost2D::decode(request) {
                Some(req) => req,
                None => return Err(DeviceError::InvalidRequest),
            };
            match self.transfer_to_host(req) {
                Ok(()) => {},
                Err(e) => return Err(e),
            }
            Ok(RespOkNoData::new().encode_le())
        } else if typ == CMD_RESOURCE_FLUSH {
            let req = match ResourceFlush::decode(request) {
                Some(req) => req,
                None => return Err(DeviceError::InvalidRequest),
            };
            match self.resource_flush(req) {
                Ok(()) => {},
                Err(e) => return Err(e),
            }
            Ok(RespOkNoData::new().encode_le())
        } else if typ == CMD_SET_SCANOUT {
            let req = match ResourceSetScanout::decode(request) {
                Some(req) => req,
                None => return Err(DeviceError::InvalidRequest),
            };
            match self.set_scanout(req) {
                Ok(()) => {},
                Err(e) => return Err(e),
            }
            Ok(RespOkNoData::new().encode_le())
        } else {
            Err(DeviceError::UnsupportedCommand)
        }
    }
}

/// The EDID response for a request header and a display size: the header
/// answered as OK_EDID, the EDID size and padding, the block, and zeros up to
/// the full EDID area.
pub open spec fn edid_response_bytes(header: CtrlHeader, width: u32, height: u32) -> Seq<u8> {
    (CtrlHeader { typ: RESP_OK_EDID, ..header }).spec_encode() + le32(128) + le32(0) + spec_edid_block(
        width,
        height,
    ) + Seq::new(896, |i: int| 0u8)
}

impl DeviceModel {
    /// The EDID answer to a request: the size of the resource on its scanout.
    pub open spec fn get_edid(self, request: Seq<u8>) -> Result<Seq<u8>, DeviceError> {
        match GetEdid::spec_decode(request) {
            None => Err(DeviceError::InvalidRequest),
            Some(req) => if req.scanout >= 16 || !self.scanouts[req.scanout as int].enabled
                || !self.resources.contains_key(self.scanouts[req.scanout as int].resource_id) {
                Err(DeviceError::InvalidResource)
            } else {
                let res = self.resources[self.scanouts[req.scanout as int].resource_id];
                Ok(edid_response_bytes(req.header, res.width, res.height))
            },
        }
    }

    /// Showing part of a blob resource on a scanout: the size must be nonzero
    /// and within the resource, the first plane's stride must hold a row, and
    /// the plane must end inside the resource's pixels.
    pub open spec fn set_scanout_blob(self, req: SetScanoutBlob) -> Result<DeviceModel, DeviceError> {
        if req.scanout_id >= 16 || req.width == 0 || req.height == 0 {
            Err(DeviceError::InvalidResource)
        } else if !self.resources.contains_key(req.resource_id) {
            Err(DeviceError::InvalidResource)
        } else {
            let res = self.resources[req.resource_id];
            let stride = req.strides[0] as int;
            let required = stride * req.height + req.offsets[0];
            if req.width > res.width || req.height > res.height {
                Err(DeviceError::InvalidResource)
            } else if required > usize::MAX {
                Err(DeviceError::InvalidResource)
            } else if stride < req.width * 4 || required > res.data.len() {
                Err(DeviceError::InvalidResource)
            } else {
                Ok(
                    DeviceModel {
                        scanouts: self.scanouts.update(
                            req.scanout_id as int,
                            Scanout { enabled: true, resource_id: req.resource_id, width: req.width, height: req.height },
                        ),
                        display: if self.display is None {
                            Some((req.width as usize, req.height as usize))
                        } else {
                            self.display
                        },
                        ..self
                    },
                )
            }
        }
    }
}

impl VirtioGpuDevice {
    /// Answers GET_EDID with an EDID block for the size of the resource shown
    /// on the requested scanout.
    pub fn handle_get_edid(&self, request: &[u8]) -> (r: Result<Vec<u8>, DeviceError>)
        requires
            self@.wf(),
        ensures
            match self@.get_edid(request@) {
                Ok(b) => r matches Ok(v) && v@ == b,
                Err(e) => r == Err::<Vec<u8>, DeviceError>(e),
            },
    {
        let request = match GetEdid::decode_le(request) {
            Some(req) => req,
            None => return Err(DeviceError::InvalidRequest),
        };
        if request.scanout >= 16 {
            return Err(DeviceError::InvalidResource);
        }
        let scanout = self.scanouts[request.scanout as usize];
        if !scanout.enabled {
            return Err(DeviceError::InvalidResource);
        }
        let (width, height) = match self.resources.get(&scanout.resource_id) {
            None => return Err(DeviceError::InvalidResource),
            Some(resource) => (resource.width, resource.height),
        };
        let edid = edid_block(width, height);
        let header = CtrlHeader { typ: RESP_OK_EDID, ..request.header };
        let mut bytes: Vec<u8> = Vec::new();
        put_bytes(&mut bytes, header.encode_le().as_slice());
        put_u32(&mut bytes, 128);
        put_u32(&mut bytes, 0);
        put_bytes(&mut bytes, edid.as_slice());
        let zeros = vec![0u8; 896];
        put_bytes(&mut bytes, zeros.as_slice());
        proof {
            assert(zeros@ =~= Seq::new(896, |i: int| 0u8));
        }
        Ok(bytes)
    }

    /// Shows part of a resource on a scanout, as SET_SCANOUT_BLOB asks, and
    /// asks for a window of that size if none is wanted yet.
    pub fn handle_set_scanout_blob(&mut self, request: &[u8]) -> (r: Result<(), DeviceError>)
        requires
            old(self)@.wf(),
        ensures
            final(self)@.wf(),
            match SetScanoutBlob::spec_decode(request@) {
                None => r == Err::<(), DeviceError>(DeviceError::InvalidRequest) && final(self)@ == old(self)@,
                Some(req) => match old(self)@.set_scanout_blob(req) {
                    Ok(m) => r is Ok && final(self)@ == m,
                    Err(e) => r == Err::<(), DeviceError>(e) && final(self)@ == old(self)@,
                },
            },
    {
        let request = match SetScanoutBlob::decode_le(request) {
            Some(req) => req,
            None => return Err(DeviceError::InvalidRequest),
        };
        if request.scanout_id >= 16 || request.width == 0 || request.height == 0 {
            return Err(DeviceError::InvalidResource);
        }
        let (res_width, res_height, len) = match self.resources.get(&request.resource_id) {
            None => return Err(DeviceError::InvalidResource),
            Some(resource) => (resource.width, resource.height, resource.data.len()),
        };
        if request.width > res_width || request.height > res_height {
            return Err(DeviceError::InvalidResource);
        }
        let stride = request.strides[0];
        let height = request.height;
        assert((stride as u128) * (height as u128) <= 0xffff_ffff_ffff_ffffu128) by (nonlinear_arith)
            requires
                stride <= 0xffff_ffffu32,
                height <= 0xffff_ffffu32,
        ;
        let required: u128 = (stride as u128) * (request.height as u128) + (request.offsets[0] as u128);
        if required > usize::MAX as u128 {
            return Err(DeviceError::InvalidResource);
        }
        if (stride as u64) < (request.width as u64) * 4 || required > len as u128 {
            return Err(DeviceError::InvalidResource);
        }
        self.scanouts[request.scanout_id as usize] = Scanout {
            enabled: true,
            resource_id: request.resource_id,
            width: request.width,
            height: request.height,
        };
        if self.display.is_none() {
            self.display = Some((request.width as usize, request.height as usize));
        }
        Ok(())
    }

    /// The OK_NODATA answer to a request, keeping its fence, context and ring.
    pub fn ok_no_data_response(request: CtrlHeader) -> (v: Vec<u8>)
        ensures
            v@ == (CtrlHeader { typ: RESP_OK_NODATA, ..request }).spec_encode(),
    {
        let header = CtrlHeader { typ: RESP_OK_NODATA, ..request };
        let mut v: Vec<u8> = Vec::new();
        put_bytes(&mut v, header.encode_le().as_slice());
        v
    }
}

impl Default for VirtioGpuDevice {
    fn default() -> (d: Self)
        ensures
            d@.wf(),
            d@.status == 0,
            d@.resources.is_empty(),
    {
        Self::new()
    }
}

} // verus!
