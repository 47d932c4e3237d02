//! The VirtIO PCI transport of the GPU: its BARs, its capability list, the
//! common configuration registers, the device configuration window and the
//! shared-memory regions.

use crate::virtio_gpu::device::{DeviceError, DeviceModel, VirtioGpuDevice};
use crate::virtio_gpu::transport::pci::common::CommonConfig;
use crate::virtio_gpu::transport::pci::{
    PciBar, VirtioPciCap64, VirtioPciCapability, VIRTIO_PCI_CAP_COMMON_CFG, VIRTIO_PCI_CAP_DEVICE_CFG,
    VIRTIO_PCI_CAP_ISR_CFG, VIRTIO_PCI_CAP_NOTIFY_CFG,
};
use crate::virtio_gpu::transport::pci_config_space::{
    le_bytes_of, le_value, lemma_le_bytes_of, lemma_le_value_bound, lemma_pow256_monotone, pow256,
};
use vstd::prelude::*;

verus! {

/// Where the device configuration window starts in BAR 0.
pub const DEVICE_CONFIG_OFFSET: u64 = 0x300;

/// Bytes of the device configuration window.
pub const DEVICE_CONFIG_SIZE: usize = 0x100;

/// Base address of BAR 0, which holds the configuration structures.
pub const BAR0_BASE: u64 = 0xfe00_0000;

/// Base address of BAR 2, which holds the host-visible shared memory.
pub const BAR2_BASE: u64 = 0x2000_0000;

/// Bytes of the host-visible shared-memory region.
pub const SHARED_MEMORY_SIZE: u64 = 0x0400_0000;

/// The "no vector" value of the MSI-X vector registers.
pub const NO_VECTOR: u64 = 0xffff;

#[derive(Debug, Clone, PartialEq, Eq)]
pub enum PciTransportError {
    /// A register offset or width the common configuration does not have.
    InvalidAccess,
    /// An access outside the device configuration window.
    OutOfRange,
    /// No shared-memory region has the id.
    SharedMemoryNotFound,
    /// The device refused a register write.
    Device(DeviceError),
}

/// The registers of one virtqueue.
#[derive(Debug, Clone, Copy, PartialEq, Eq, Structural)]
pub struct QueueRegisters {
    pub size: u16,
    pub enable: u16,
    pub desc: u64,
    pub driver: u64,
    pub device: u64,
}

impl QueueRegisters {
    pub open spec fn cleared() -> QueueRegisters {
        QueueRegisters { size: 0, enable: 0, desc: 0, driver: 0, device: 0 }
    }

    pub fn clear() -> (q: QueueRegisters)
        ensures
            q == Self::cleared(),
    {
        QueueRegisters { size: 0, enable: 0, desc: 0, driver: 0, device: 0 }
    }
}

/// A shared-memory region: its id, guest-physical base and contents.
#[derive(Debug, Clone)]
pub struct SharedMemoryRegion {
    pub id: u32,
    pub base: u64,
    pub bytes: Vec<u8>,
}

/// The abstract value of a shared-memory region.
pub struct RegionModel {
    pub id: u32,
    pub base: u64,
    pub bytes: Seq<u8>,
}

impl View for SharedMemoryRegion {
    type V = RegionModel;

    open spec fn view(&self) -> RegionModel {
        RegionModel { id: self.id, base: self.base, bytes: self.bytes@ }
    }
}

/// The abstract state of the transport.
pub struct TransportModel {
    pub device: DeviceModel,
    pub bars: Seq<PciBar>,
    pub capabilities: Seq<VirtioPciCapability>,
    pub shared: Seq<VirtioPciCap64>,
    pub regions: Seq<RegionModel>,
    pub notify_off_multiplier: u32,
    pub device_config: Seq<u8>,
    pub device_feature_select: u32,
    pub driver_feature_select: u32,
    pub queue_select: u16,
    pub shm_select: u32,
    pub queues: Seq<QueueRegisters>,
}

/// The index of the first region with id `id`, if any.
pub open spec fn region_index(regions: Seq<RegionModel>, id: u32) -> Option<int> {
    if exists|i: int| 0 <= i < regions.len() && #[trigger] regions[i].id == id {
        Some(choose|i: int| 0 <= i < regions.len() && #[trigger] regions[i].id == id && forall|j: int| 0 <= j < i ==> regions[j].id != id)
    } else {
        None
    }
}

/// The position of the first element of `s` that satisfies `p`, if any.
pub open spec fn first_match<A>(s: Seq<A>, p: spec_fn(A) -> bool) -> Option<int> {
    if exists|i: int| 0 <= i < s.len() && #[trigger] p(s[i]) {
        Some(choose|i: int| 0 <= i < s.len() && #[trigger] p(s[i]) && forall|j: int| 0 <= j < i ==> !p(s[j]))
    } else {
        None
    }
}

/// An element that satisfies `p` with none before it is the first match.
pub proof fn lemma_first_match<A>(s: Seq<A>, p: spec_fn(A) -> bool, i: int)
    requires
        0 <= i < s.len(),
        p(s[i]),
        forall|j: int| 0 <= j < i ==> !p(#[trigger] s[j]),
    ensures
        first_match(s, p) == Some(i),
{
    let c = choose|x: int| 0 <= x < s.len() && #[trigger] p(s[x]) && forall|j: int| 0 <= j < x ==> !p(s[j]);
    assert(c == i) by {
        if c < i {
            assert(!p(s[c]));
        } else if c > i {
            assert(!p(s[i]));
        }
    }
}

/// The first match satisfies the predicate.
pub proof fn lemma_first_match_valid<A>(s: Seq<A>, p: spec_fn(A) -> bool)
    ensures
        first_match(s, p) matches Some(j) ==> 0 <= j < s.len() && p(s[j]),
{
    if exists|i: int| 0 <= i < s.len() && #[trigger] p(s[i]) {
        let w = choose|i: int| 0 <= i < s.len() && #[trigger] p(s[i]);
        lemma_first_exists(s, p, w);
    }
}

/// When some element satisfies `p`, a first one does.
proof fn lemma_first_exists<A>(s: Seq<A>, p: spec_fn(A) -> bool, w: int)
    requires
        0 <= w < s.len(),
        p(s[w]),
    ensures
        exists|i: int| 0 <= i < s.len() && #[trigger] p(s[i]) && forall|j: int| 0 <= j < i ==> !p(s[j]),
    decreases w,
{
    if exists|j: int| 0 <= j < w && #[trigger] p(s[j]) {
        let v = choose|j: int| 0 <= j < w && #[trigger] p(s[j]);
        lemma_first_exists(s, p, v);
    }
}

/// The position of the first BAR with index `index`.
pub open spec fn bar_position(bars: Seq<PciBar>, index: u8) -> Option<int> {
    first_match(bars, |b: PciBar| b.index == index)
}

/// The 32-bit half `select` of a 64-bit feature set; zero past the second.
pub open spec fn feature_word(features: u64, select: u32) -> u64 {
    if select == 0 {
        features & 0xffff_ffff
    } else if select == 1 {
        features >> 32
    } else {
        0
    }
}

/// The feature set with its 32-bit half `select` replaced by `word`.
pub open spec fn with_feature_word(features: u64, select: u32, word: u32) -> u64 {
    if select == 0 {
        (features & 0xffff_ffff_0000_0000) | (word as u64)
    } else {
        (features & 0xffff_ffff) | ((word as u64) << 32)
    }
}

impl TransportModel {
    /// The registers of the selected queue, when it exists.
    pub open spec fn selected_queue(self) -> Option<QueueRegisters> {
        if self.queue_select < 2 {
            Some(self.queues[self.queue_select as int])
        } else {
            None
        }
    }

    /// A value of the selected shared-memory region, or all ones when no
    /// region has the selected id.
    pub open spec fn shm_value(self, f: spec_fn(RegionModel) -> u64) -> u64 {
        match region_index(self.regions, self.shm_select) {
            Some(i) => f(self.regions[i]),
            None => 0xffff_ffff,
        }
    }

    /// Reading `len` bytes of the common configuration at `offset`. An offset
    /// and width that name no register is an invalid access.
    pub open spec fn read_common(self, offset: u64, len: usize) -> Result<u64, PciTransportError> {
        let q = self.selected_queue();
        if offset == CommonConfig::DEVICE_FEATURE_SELECT && len == 4 {
            Ok(self.device_feature_select as u64)
        } else if offset == CommonConfig::DEVICE_FEATURE && len == 4 {
            Ok(feature_word(self.device.device_features, self.device_feature_select))
        } else if offset == CommonConfig::DRIVER_FEATURE_SELECT && len == 4 {
            Ok(self.driver_feature_select as u64)
        } else if offset == CommonConfig::DRIVER_FEATURE && len == 4 {
            Ok(feature_word(self.device.driver_features, self.driver_feature_select))
        } else if offset == CommonConfig::MSIX_CONFIG && len == 2 {
            Ok(NO_VECTOR)
        } else if offset == CommonConfig::NUM_QUEUES && len == 2 {
            Ok(2)
        } else if offset == CommonConfig::DEVICE_STATUS && len == 1 {
            Ok(self.device.status as u64)
        } else if offset == CommonConfig::CONFIG_GENERATION && len == 1 {
            Ok(self.device.config_generation as u64)
        } else if offset == CommonConfig::QUEUE_SELECT && len == 2 {
            Ok(self.queue_select as u64)
        } else if offset == CommonConfig::QUEUE_SIZE && len == 2 {
            Ok(if q is Some { q->0.size as u64 } else { 0 })
        } else if offset == CommonConfig::QUEUE_MSIX_VECTOR && len == 2 {
            Ok(NO_VECTOR)
        } else if offset == CommonConfig::QUEUE_ENABLE && len == 2 {
            Ok(if q is Some { q->0.enable as u64 } else { 0 })
        } else if offset == CommonConfig::QUEUE_NOTIFY_OFF && len == 2 {
            Ok(self.queue_select as u64)
        } else if offset == CommonConfig::QUEUE_DESC && len == 8 {
            Ok(if q is Some { q->0.desc } else { 0 })
        } else if offset == CommonConfig::QUEUE_DRIVER && len == 8 {
            Ok(if q is Some { q->0.driver } else { 0 })
        } else if offset == CommonConfig::QUEUE_DEVICE && len == 8 {
            Ok(if q is Some { q->0.device } else { 0 })
        } else if offset == CommonConfig::QUEUE_RESET && len == 2 {
            Ok(0)
        } else if offset == CommonConfig::SHM_SEL && len == 4 {
            Ok(self.shm_select as u64)
        } else if offset == CommonConfig::SHM_LEN_LOW && len == 4 {
            Ok(self.shm_value(|r: RegionModel| (r.bytes.len() as u64) & 0xffff_ffff))
        } else if offset == CommonConfig::SHM_LEN_HIGH && len == 4 {
            Ok(self.shm_value(|r: RegionModel| (r.bytes.len() as u64) >> 32))
        } else if offset == CommonConfig::SHM_BASE_LOW && len == 4 {
            Ok(self.shm_value(|r: RegionModel| r.base & 0xffff_ffff))
        } else if offset == CommonConfig::SHM_BASE_HIGH && len == 4 {
            Ok(self.shm_value(|r: RegionModel| r.base >> 32))
        } else {
            Err(PciTransportError::InvalidAccess)
        }
    }

    /// The state after a write to a register of the selected queue; a write
    /// while no queue is selected changes nothing.
    pub open spec fn with_queue(self, f: spec_fn(QueueRegisters) -> QueueRegisters) -> TransportModel {
        if self.queue_select < 2 {
            TransportModel {
                queues: self.queues.update(self.queue_select as int, f(self.queues[self.queue_select as int])),
                ..self
            }
        } else {
            self
        }
    }

    /// Writing `value` as `len` bytes of the common configuration at `offset`.
    /// Feature and status writes go to the device, which may refuse them;
    /// read-only registers ignore writes.
    pub open spec fn write_common(self, offset: u64, len: usize, value: u64) -> Result<TransportModel, PciTransportError> {
        if offset == CommonConfig::DEVICE_FEATURE_SELECT && len == 4 {
            Ok(TransportModel { device_feature_select: value as u32, ..self })
        } else if offset == CommonConfig::DRIVER_FEATURE_SELECT && len == 4 {
            Ok(TransportModel { driver_feature_select: value as u32, ..self })
        } else if offset == CommonConfig::DRIVER_FEATURE && len == 4 {
            if self.driver_feature_select > 1 {
                Ok(self)
            } else {
                let features = with_feature_word(self.device.driver_features, self.driver_feature_select, value as u32);
                match self.device.set_driver_features_result(features) {
                    Err(e) => Err(PciTransportError::Device(e)),
                    Ok(_) => Ok(TransportModel { device: self.device.after_set_driver_features(features), ..self }),
                }
            }
        } else if offset == CommonConfig::DEVICE_STATUS && len == 1 {
            match self.device.set_status_result(value as u8) {
                Err(e) => Err(PciTransportError::Device(e)),
                Ok(_) => Ok(TransportModel { device: self.device.after_set_status(value as u8), ..self }),
            }
        } else if offset == CommonConfig::QUEUE_SELECT && len == 2 {
            Ok(TransportModel { queue_select: value as u16, ..self })
        } else if offset == CommonConfig::QUEUE_SIZE && len == 2 {
            Ok(self.with_queue(|q: QueueRegisters| QueueRegisters { size: value as u16, ..q }))
        } else if offset == CommonConfig::QUEUE_ENABLE && len == 2 {
            Ok(self.with_queue(|q: QueueRegisters| QueueRegisters { enable: value as u16, ..q }))
        } else if offset == CommonConfig::QUEUE_DESC && len == 8 {
            Ok(self.with_queue(|q: QueueRegisters| QueueRegisters { desc: value, ..q }))
        } else if offset == CommonConfig::QUEUE_DRIVER && len == 8 {
            Ok(self.with_queue(|q: QueueRegisters| QueueRegisters { driver: value, ..q }))
        } else if offset == CommonConfig::QUEUE_DEVICE && len == 8 {
            Ok(self.with_queue(|q: QueueRegisters| QueueRegisters { device: value, ..q }))
        } else if offset == CommonConfig::QUEUE_RESET && len == 2 {
            if value == 1 {
                Ok(self.with_queue(|q: QueueRegisters| QueueRegisters::cleared()))
            } else {
                Ok(self)
            }
        } else if offset == CommonConfig::SHM_SEL && len == 4 {
            Ok(TransportModel { shm_select: value as u32, ..self })
        } else if (offset == CommonConfig::DEVICE_FEATURE && len == 4) || ((offset == CommonConfig::MSIX_CONFIG
            || offset == CommonConfig::NUM_QUEUES || offset == CommonConfig::QUEUE_MSIX_VECTOR
            || offset == CommonConfig::QUEUE_NOTIFY_OFF) && len == 2) || (offset == CommonConfig::CONFIG_GENERATION
            && len == 1) || ((offset == CommonConfig::SHM_LEN_LOW || offset == CommonConfig::SHM_LEN_HIGH
            || offset == CommonConfig::SHM_BASE_LOW || offset == CommonConfig::SHM_BASE_HIGH) && len == 4) {
            Ok(self)
        } else {
            Err(PciTransportError::InvalidAccess)
        }
    }
}

/// The registers of the selected queue the driver programs.
pub open spec fn queue_register(offset: u64, len: usize) -> bool {
    ||| offset == CommonConfig::QUEUE_SIZE && len == 2
    ||| offset == CommonConfig::QUEUE_ENABLE && len == 2
    ||| offset == CommonConfig::QUEUE_DESC && len == 8
    ||| offset == CommonConfig::QUEUE_DRIVER && len == 8
    ||| offset == CommonConfig::QUEUE_DEVICE && len == 8
}

/// The registers that read back what the driver wrote: the feature, queue
/// and shared-memory selectors and the selected queue's registers.
pub open spec fn read_write_register(offset: u64, len: usize) -> bool {
    ||| offset == CommonConfig::DEVICE_FEATURE_SELECT && len == 4
    ||| offset == CommonConfig::DRIVER_FEATURE_SELECT && len == 4
    ||| offset == CommonConfig::QUEUE_SELECT && len == 2
    ||| offset == CommonConfig::SHM_SEL && len == 4
    ||| queue_register(offset, len)
}

/// `value` cut to a register of `len` bytes.
pub open spec fn register_value(value: u64, len: usize) -> u64 {
    if len == 2 {
        value as u16 as u64
    } else if len == 4 {
        value as u32 as u64
    } else {
        value
    }
}

/// A register the driver programs reads back what was written to it, cut
/// to the register's width; the queue registers need a selected queue.
pub proof fn lemma_register_read_back(t: TransportModel, offset: u64, len: usize, value: u64)
    requires
        t.queues.len() == 2,
        read_write_register(offset, len),
        queue_register(offset, len) ==> t.queue_select < 2,
    ensures
        t.write_common(offset, len, value) is Ok,
        t.write_common(offset, len, value)->Ok_0.read_common(offset, len) == Ok::<u64, PciTransportError>(
            register_value(value, len),
        ),
{
}

/// Writing 1 to the queue-reset register clears every register of the
/// selected queue.
pub proof fn lemma_queue_reset_clears(t: TransportModel, offset: u64, len: usize)
    requires
        t.queues.len() == 2,
        t.queue_select < 2,
        queue_register(offset, len),
    ensures
        t.write_common(CommonConfig::QUEUE_RESET, 2, 1) is Ok,
        t.write_common(CommonConfig::QUEUE_RESET, 2, 1)->Ok_0.read_common(offset, len) == Ok::<u64, PciTransportError>(0),
{
}

/// The little-endian value of `width` bytes at `offset`.
pub fn read_le(bytes: &[u8], offset: usize, width: usize) -> (v: u64)
    requires
        width <= 8,
        offset + width <= bytes@.len(),
    ensures
        v == le_value(bytes@.subrange(offset as int, offset + width)),
{
    let _n = bytes.len();
    let end = offset + width;
    let mut value: u64 = 0;
    let mut i: usize = width;
    proof {
        assert(bytes@.subrange(end as int, end as int) =~= Seq::<u8>::empty());
    }
    while i > 0
        invariant
            i <= width <= 8,
            end == offset + width,
            end <= bytes@.len(),
            value == le_value(bytes@.subrange(offset + i, end as int)),
        decreases i,
    {
        let b = bytes[offset + i - 1];
        proof {
            let s = bytes@.subrange(offset + i, end as int);
            lemma_le_value_bound(s);
            lemma_pow256_monotone(s.len(), 7);
            let t = bytes@.subrange(offset + i - 1, end as int);
            assert(t.drop_first() =~= s);
        }
        value = value * 256 + b as u64;
        i = i - 1;
    }
    value
}

/// Writes the `width` low bytes of `value` little-endian at `offset`.
pub fn write_le(bytes: &mut Vec<u8>, offset: usize, width: usize, value: u64)
    requires
        width <= 8,
        offset + width <= old(bytes)@.len(),
    ensures
        final(bytes)@ == old(bytes)@.subrange(0, offset as int) + le_bytes_of(value as nat, width as nat)
            + old(bytes)@.subrange(offset + width, old(bytes)@.len() as int),
{
    let total = bytes.len();
    let mut v: u64 = value;
    let mut i: usize = 0;
    proof {
        lemma_le_bytes_of(value as nat, width as nat);
    }
    while i < width
        invariant
            i <= width <= 8,
            total == bytes@.len(),
            total == old(bytes)@.len(),
            offset + width <= total,
            le_bytes_of(value as nat, width as nat).subrange(i as int, width as int) == le_bytes_of(
                v as nat,
                (width - i) as nat,
            ),
            le_bytes_of(value as nat, width as nat).len() == width,
            forall|j: int| 0 <= j < i ==> bytes@[offset + j] == le_bytes_of(value as nat, width as nat)[j],
            forall|j: int| 0 <= j < total && !(offset <= j < offset + i) ==> bytes@[j] == old(bytes)@[j],
        decreases width - i,
    {
        proof {
            let all = le_bytes_of(value as nat, width as nat);
            let rest = le_bytes_of(v as nat, (width - i) as nat);
            assert(rest[0] == (v % 256) as u8);
            assert(all[i as int] == all.subrange(i as int, width as int)[0]);
            assert(rest.drop_first() =~= le_bytes_of((v / 256) as nat, (width - i - 1) as nat));
            assert(all.subrange(i + 1, width as int) =~= all.subrange(i as int, width as int).drop_first());
        }
        bytes.set(offset + i, (v % 256) as u8);
        v = v / 256;
        i = i + 1;
    }
    assert(bytes@ =~= old(bytes)@.subrange(0, offset as int) + le_bytes_of(value as nat, width as nat)
        + old(bytes)@.subrange(offset + width, old(bytes)@.len() as int));
}

/// The VirtIO PCI transport of the GPU device.
pub struct VirtioPciTransport {
    pub device: VirtioGpuDevice,
    bars: Vec<PciBar>,
    capabilities: Vec<VirtioPciCapability>,
    shared: Vec<VirtioPciCap64>,
    regions: Vec<SharedMemoryRegion>,
    notify_off_multiplier: u32,
    device_config: Vec<u8>,
    device_feature_select: u32,
    driver_feature_select: u32,
    queue_select: u16,
    shm_select: u32,
    queues: [QueueRegisters; 2],
}

impl View for VirtioPciTransport {
    type V = TransportModel;

    closed spec fn view(&self) -> TransportModel {
        TransportModel {
            device: self.device@,
            bars: self.bars@,
            capabilities: self.capabilities@,
            shared: self.shared@,
            regions: self.regions@.map_values(|r: SharedMemoryRegion| r@),
            notify_off_multiplier: self.notify_off_multiplier,
            device_config: self.device_config@,
            device_feature_select: self.device_feature_select,
            driver_feature_select: self.driver_feature_select,
            queue_select: self.queue_select,
            shm_select: self.shm_select,
            queues: self.queues@,
        }
    }
}

impl VirtioPciTransport {
    /// What the transport keeps true: a well-formed device, two queues, and
    /// a device configuration window of its full size.
    pub open spec fn wf(&self) -> bool {
        &&& self@.device.wf()
        &&& self@.queues.len() == 2
        &&& self@.device_config.len() == DEVICE_CONFIG_SIZE
    }

    /// A transport for a fresh device: BAR 0 only, no capabilities yet, a
    /// device configuration window announcing one scanout and one capability
    /// set, notification offsets four bytes apart.
    pub fn new() -> (t: Self)
        ensures
            t.wf(),
            t@.bars == seq![PciBar { index: 0, base: BAR0_BASE, size: 0x1000 }],
            t@.capabilities.len() == 0,
            t@.shared.len() == 0,
            t@.regions.len() == 0,
            t@.notify_off_multiplier == 4,
            t@.device.status == 0,
    {
        let mut device_config: Vec<u8> = vec![0u8; DEVICE_CONFIG_SIZE];
        device_config.set(8, 1);
        device_config.set(12, 1);
        let mut bars: Vec<PciBar> = Vec::new();
        bars.push(PciBar { index: 0, base: BAR0_BASE, size: 0x1000 });
        let t = VirtioPciTransport {
            device: VirtioGpuDevice::new(),
            bars,
            capabilities: Vec::new(),
            shared: Vec::new(),
            regions: Vec::new(),
            notify_off_multiplier: 4,
            device_config,
            device_feature_select: 0,
            driver_feature_select: 0,
            queue_select: 0,
            shm_select: 0,
            queues: [QueueRegisters::clear(), QueueRegisters::clear()],
        };
        assert(t@.bars =~= seq![PciBar { index: 0, base: BAR0_BASE, size: 0x1000 }]);
        assert(t@.regions =~= Seq::<RegionModel>::empty());
        t
    }

    /// Announces the configuration structures in BAR 0 (common at 0, notify
    /// at 0x100, ISR at 0x200, device at 0x300) and the host-visible shared
    /// memory, region 1, as all of BAR 2.
    pub fn initialize_default_capabilities(&mut self) -> (r: Result<(), PciTransportError>)
        requires
            old(self).wf(),
        ensures
            r is Ok,
            final(self).wf(),
            final(self)@.capabilities == seq![
                VirtioPciCapability { cap_next: 0, cap_len: 16, cfg_type: VIRTIO_PCI_CAP_COMMON_CFG, bar: 0, id: 0, offset: 0, length: CommonConfig::SIZE as u32 },
                VirtioPciCapability { cap_next: 0, cap_len: 16, cfg_type: VIRTIO_PCI_CAP_NOTIFY_CFG, bar: 0, id: 0, offset: 0x100, length: 0x100 },
                VirtioPciCapability { cap_next: 0, cap_len: 16, cfg_type: VIRTIO_PCI_CAP_ISR_CFG, bar: 0, id: 0, offset: 0x200, length: 4 },
                VirtioPciCapability { cap_next: 0, cap_len: 16, cfg_type: VIRTIO_PCI_CAP_DEVICE_CFG, bar: 0, id: 0, offset: 0x300, length: DEVICE_CONFIG_SIZE as u32 },
            ],
            final(self)@.shared.len() == 1,
            final(self)@.shared[0].cap.bar == 2,
            final(self)@.shared[0].cap.id == 1,
            final(self)@.shared[0].spec_offset() == 0,
            final(self)@.shared[0].spec_length() == SHARED_MEMORY_SIZE,
            final(self)@.regions.len() == 1,
            final(self)@.regions[0].id == 1,
            final(self)@.regions[0].base == BAR2_BASE,
            final(self)@.regions[0].bytes == Seq::new(SHARED_MEMORY_SIZE as nat, |i: int| 0u8),
            final(self)@.bars == old(self)@.bars.push(PciBar { index: 2, base: BAR2_BASE, size: SHARED_MEMORY_SIZE }),
            final(self)@.device == old(self)@.device,
    {
        let mut caps: Vec<VirtioPciCapability> = Vec::new();
        caps.push(VirtioPciCapability::new(VIRTIO_PCI_CAP_COMMON_CFG, 0, 0, 80));
        caps.push(VirtioPciCapability::new(VIRTIO_PCI_CAP_NOTIFY_CFG, 0, 0x100, 0x100));
        caps.push(VirtioPciCapability::new(VIRTIO_PCI_CAP_ISR_CFG, 0, 0x200, 4));
        caps.push(VirtioPciCapability::new(VIRTIO_PCI_CAP_DEVICE_CFG, 0, 0x300, 0x100));
        self.capabilities = caps;
        let mut shared: Vec<VirtioPciCap64> = Vec::new();
        shared.push(VirtioPciCap64::new(2, 1, 0, SHARED_MEMORY_SIZE));
        self.shared = shared;
        let bytes = vec![0u8; 0x0400_0000];
        let mut regions: Vec<SharedMemoryRegion> = Vec::new();
        regions.push(SharedMemoryRegion { id: 1, base: BAR2_BASE, bytes });
        self.regions = regions;
        self.bars.push(PciBar { index: 2, base: BAR2_BASE, size: SHARED_MEMORY_SIZE });
        assert(self@.capabilities =~= seq![
            VirtioPciCapability { cap_next: 0, cap_len: 16, cfg_type: VIRTIO_PCI_CAP_COMMON_CFG, bar: 0, id: 0, offset: 0, length: CommonConfig::SIZE as u32 },
            VirtioPciCapability { cap_next: 0, cap_len: 16, cfg_type: VIRTIO_PCI_CAP_NOTIFY_CFG, bar: 0, id: 0, offset: 0x100, length: 0x100 },
            VirtioPciCapability { cap_next: 0, cap_len: 16, cfg_type: VIRTIO_PCI_CAP_ISR_CFG, bar: 0, id: 0, offset: 0x200, length: 4 },
            VirtioPciCapability { cap_next: 0, cap_len: 16, cfg_type: VIRTIO_PCI_CAP_DEVICE_CFG, bar: 0, id: 0, offset: 0x300, length: DEVICE_CONFIG_SIZE as u32 },
        ]);
        assert(self@.regions[0].bytes =~= Seq::new(SHARED_MEMORY_SIZE as nat, |i: int| 0u8));
        Ok(())
    }

    /// The first BAR with index `index`.
    pub fn bar(&self, index: u8) -> (r: Option<PciBar>)
        ensures
            r == (match bar_position(self@.bars, index) {
                Some(i) => Some(self@.bars[i]),
                None => None::<PciBar>,
            }),
    {
        let ghost p = |b: PciBar| b.index == index;
        let mut i: usize = 0;
        while i < self.bars.len()
            invariant
                i <= self@.bars.len(),
                p == (|b: PciBar| b.index == index),
                forall|j: int| 0 <= j < i ==> !p(#[trigger] self@.bars[j]),
            decreases self@.bars.len() - i,
        {
            if self.bars[i].index == index {
                proof {
                    lemma_first_match(self@.bars, p, i as int);
                }
                return Some(self.bars[i]);
            }
            i = i + 1;
        }
        proof {
            assert(!(exists|k: int| 0 <= k < self@.bars.len() && #[trigger] p(self@.bars[k])));
        }
        None
    }

    pub fn capabilities(&self) -> (c: &[VirtioPciCapability])
        ensures
            c@ == self@.capabilities,
    {
        self.capabilities.as_slice()
    }

    /// The first capability of type `cfg_type`.
    pub fn capability(&self, cfg_type: u8) -> (r: Option<VirtioPciCapability>)
        ensures
            match r {
                Some(c) => c.cfg_type == cfg_type && self@.capabilities.contains(c),
                None => forall|i: int| 0 <= i < self@.capabilities.len() ==> #[trigger] self@.capabilities[i].cfg_type != cfg_type,
            },
    {
        let mut i: usize = 0;
        while i < self.capabilities.len()
            invariant
                i <= self@.capabilities.len(),
                forall|j: int| 0 <= j < i ==> #[trigger] self@.capabilities[j].cfg_type != cfg_type,
            decreases self@.capabilities.len() - i,
        {
            if self.capabilities[i].cfg_type == cfg_type {
                return Some(self.capabilities[i]);
            }
            i = i + 1;
        }
        None
    }

    pub fn shared_memory_capabilities(&self) -> (c: &[VirtioPciCap64])
        ensures
            c@ == self@.shared,
    {
        self.shared.as_slice()
    }

    /// The shared-memory capability of region `id`.
    pub fn shared_memory_capability(&self, id: u8) -> (r: Option<VirtioPciCap64>)
        ensures
            match r {
                Some(c) => c.cap.id == id && self@.shared.contains(c),
                None => forall|i: int| 0 <= i < self@.shared.len() ==> #[trigger] self@.shared[i].cap.id != id,
            },
    {
        let mut i: usize = 0;
        while i < self.shared.len()
            invariant
                i <= self@.shared.len(),
                forall|j: int| 0 <= j < i ==> #[trigger] self@.shared[j].cap.id != id,
            decreases self@.shared.len() - i,
        {
            if self.shared[i].cap.id == id {
                return Some(self.shared[i]);
            }
            i = i + 1;
        }
        None
    }

    pub fn notify_off_multiplier(&self) -> (m: u32)
        ensures
            m == self@.notify_off_multiplier,
    {
        self.notify_off_multiplier
    }

    /// The position of the first region with id `id`.
    fn find_region(&self, id: u32) -> (r: Option<usize>)
        ensures
            match r {
                Some(i) => region_index(self@.regions, id) == Some(i as int) && i < self@.regions.len(),
                None => region_index(self@.regions, id) is None,
            },
    {
        let mut i: usize = 0;
        while i < self.regions.len()
            invariant
                i <= self@.regions.len(),
                forall|j: int| 0 <= j < i ==> #[trigger] self@.regions[j].id != id,
            decreases self@.regions.len() - i,
        {
            if self.regions[i].id == id {
                proof {
                    let k = i as int;
                    assert(self@.regions[k].id == id);
                    let c = choose|x: int| 0 <= x < self@.regions.len() && #[trigger] self@.regions[x].id == id
                        && forall|j: int| 0 <= j < x ==> self@.regions[j].id != id;
                    assert(c == k) by {
                        if c < k {
                            assert(self@.regions[c].id != id);
                        } else if c > k {
                            assert(self@.regions[k].id != id);
                        }
                    }
                }
                return Some(i);
            }
            i = i + 1;
        }
        None
    }

    /// The contents of shared-memory region `id`.
    pub fn shared_memory_region_bytes(&self, id: u32) -> (r: Result<&[u8], PciTransportError>)
        ensures
            match region_index(self@.regions, id) {
                Some(i) => r matches Ok(b) && b@ == self@.regions[i].bytes,
                None => r == Err::<&[u8], PciTransportError>(PciTransportError::SharedMemoryNotFound),
            },
    {
        match self.find_region(id) {
            Some(i) => Ok(self.regions[i].bytes.as_slice()),
            None => Err(PciTransportError::SharedMemoryNotFound),
        }
    }
}

impl VirtioPciTransport {
    /// The contents of shared-memory region `id`, to be changed in place.
    pub fn shared_memory_region_bytes_mut(&mut self, id: u32) -> (r: Result<&mut [u8], PciTransportError>)
        ensures
            match region_index(old(self)@.regions, id) {
                Some(i) => r matches Ok(b) && b@ == old(self)@.regions[i].bytes && final(self)@ == (TransportModel {
                    regions: old(self)@.regions.update(i, RegionModel { bytes: final(b)@, ..old(self)@.regions[i] }),
                    ..old(self)@
                }),
                None => r == Err::<&mut [u8], PciTransportError>(PciTransportError::SharedMemoryNotFound)
                    && final(self)@ == old(self)@,
            },
    {
        match self.find_region(id) {
            Some(i) => {
                let region = &mut self.regions[i];
                let slice = region.bytes.as_mut_slice();
                proof {
                    assert(after_borrow(self.regions)@.map_values(|r: SharedMemoryRegion| r@) =~= old(self)@.regions.update(
                        i as int,
                        RegionModel { bytes: final(slice)@, ..old(self)@.regions[i as int] },
                    ));
                }
                Ok(slice)
            },
            None => Err(PciTransportError::SharedMemoryNotFound),
        }
    }
}

impl VirtioPciTransport {
    /// The selected queue's registers, if a queue is selected.
    fn selected(&self) -> (q: Option<QueueRegisters>)
        requires
            self.wf(),
        ensures
            q == self@.selected_queue(),
    {
        if self.queue_select < 2 {
            Some(self.queues[self.queue_select as usize])
        } else {
            None
        }
    }

    /// A value of the selected shared-memory region: its length or base, low
    /// or high half; all ones when no region has the selected id.
    fn shm_register(&self, offset: u64) -> (v: u64)
        requires
            offset == CommonConfig::SHM_LEN_LOW || offset == CommonConfig::SHM_LEN_HIGH
                || offset == CommonConfig::SHM_BASE_LOW || offset == CommonConfig::SHM_BASE_HIGH,
        ensures
            offset == CommonConfig::SHM_LEN_LOW ==> v == self@.shm_value(|r: RegionModel| (r.bytes.len() as u64) & 0xffff_ffff),
            offset == CommonConfig::SHM_LEN_HIGH ==> v == self@.shm_value(|r: RegionModel| (r.bytes.len() as u64) >> 32),
            offset == CommonConfig::SHM_BASE_LOW ==> v == self@.shm_value(|r: RegionModel| r.base & 0xffff_ffff),
            offset == CommonConfig::SHM_BASE_HIGH ==> v == self@.shm_value(|r: RegionModel| r.base >> 32),
    {
        match self.find_region(self.shm_select) {
            None => 0xffff_ffff,
            Some(i) => {
                let len = self.regions[i].bytes.len() as u64;
                let base = self.regions[i].base;
                if offset == CommonConfig::SHM_LEN_LOW {
                    len & 0xffff_ffff
                } else if offset == CommonConfig::SHM_LEN_HIGH {
                    len >> 32
                } else if offset == CommonConfig::SHM_BASE_LOW {
                    base & 0xffff_ffff
                } else {
                    base >> 32
                }
            },
        }
    }

    /// Reads `len` bytes of the common configuration at `offset`.
    pub fn read_common(&self, offset: u64, len: usize) -> (r: Result<u64, PciTransportError>)
        requires
            self.wf(),
        ensures
            r == self@.read_common(offset, len),
    {
        let q = self.selected();
        if offset == CommonConfig::DEVICE_FEATURE_SELECT && len == 4 {
            Ok(self.device_feature_select as u64)
        } else if offset == CommonConfig::DEVICE_FEATURE && len == 4 {
            let f = self.device.device_features().bits();
            Ok(if self.device_feature_select == 0 { f & 0xffff_ffff } else if self.device_feature_select == 1 { f >> 32 } else { 0 })
        } else if offset == CommonConfig::DRIVER_FEATURE_SELECT && len == 4 {
            Ok(self.driver_feature_select as u64)
        } else if offset == CommonConfig::DRIVER_FEATURE && len == 4 {
            let f = self.device.driver_features().bits();
            Ok(if self.driver_feature_select == 0 { f & 0xffff_ffff } else if self.driver_feature_select == 1 { f >> 32 } else { 0 })
        } else if offset == CommonConfig::MSIX_CONFIG && len == 2 {
            Ok(NO_VECTOR)
        } else if offset == CommonConfig::NUM_QUEUES && len == 2 {
            Ok(2)
        } else if offset == CommonConfig::DEVICE_STATUS && len == 1 {
            Ok(self.device.status().bits() as u64)
        } else if offset == CommonConfig::CONFIG_GENERATION && len == 1 {
            Ok(self.device.config_generation() as u64)
        } else if offset == CommonConfig::QUEUE_SELECT && len == 2 {
            Ok(self.queue_select as u64)
        } else if offset == CommonConfig::QUEUE_SIZE && len == 2 {
            Ok(match q { Some(q) => q.size as u64, None => 0 })
        } else if offset == CommonConfig::QUEUE_MSIX_VECTOR && len == 2 {
            Ok(NO_VECTOR)
        } else if offset == CommonConfig::QUEUE_ENABLE && len == 2 {
            Ok(match q { Some(q) => q.enable as u64, None => 0 })
        } else if offset == CommonConfig::QUEUE_NOTIFY_OFF && len == 2 {
            Ok(self.queue_select as u64)
        } else if offset == CommonConfig::QUEUE_DESC && len == 8 {
            Ok(match q { Some(q) => q.desc, None => 0 })
        } else if offset == CommonConfig::QUEUE_DRIVER && len == 8 {
            Ok(match q { Some(q) => q.driver, None => 0 })
        } else if offset == CommonConfig::QUEUE_DEVICE && len == 8 {
            Ok(match q { Some(q) => q.device, None => 0 })
        } else if offset == CommonConfig::QUEUE_RESET && len == 2 {
            Ok(0)
        } else if offset == CommonConfig::SHM_SEL && len == 4 {
            Ok(self.shm_select as u64)
        } else if (offset == CommonConfig::SHM_LEN_LOW || offset == CommonConfig::SHM_LEN_HIGH
            || offset == CommonConfig::SHM_BASE_LOW || offset == CommonConfig::SHM_BASE_HIGH) && len == 4 {
            Ok(self.shm_register(offset))
        } else {
            Err(PciTransportError::InvalidAccess)
        }
    }

    /// Updates the registers of the selected queue, if a queue is selected.
    fn update_queue(&mut self, q: QueueRegisters)
        requires
            old(self).wf(),
        ensures
            final(self).wf(),
            old(self)@.queue_select < 2 ==> final(self)@ == (TransportModel {
                queues: old(self)@.queues.update(old(self)@.queue_select as int, q),
                ..old(self)@
            }),
            old(self)@.queue_select >= 2 ==> final(self)@ == old(self)@,
    {
        if self.queue_select < 2 {
            self.queues[self.queue_select as usize] = q;
        }
    }

    /// Writes `value` as `len` bytes of the common configuration at `offset`.
    pub fn write_common(&mut self, offset: u64, len: usize, value: u64) -> (r: Result<(), PciTransportError>)
        requires
            old(self).wf(),
        ensures
            final(self).wf(),
            match old(self)@.write_common(offset, len, value) {
                Ok(m) => r is Ok && final(self)@ == m,
                Err(e) => r == Err::<(), PciTransportError>(e) && final(self)@ == old(self)@,
            },
    {
        let q = self.selected();
        let current = match q {
            Some(q) => q,
            None => QueueRegisters::clear(),
        };
        if offset == CommonConfig::DEVICE_FEATURE_SELECT && len == 4 {
            self.device_feature_select = value as u32;
            Ok(())
        } else if offset == CommonConfig::DRIVER_FEATURE_SELECT && len == 4 {
            self.driver_feature_select = value as u32;
            Ok(())
        } else if offset == CommonConfig::DRIVER_FEATURE && len == 4 {
            if self.driver_feature_select > 1 {
                return Ok(());
            }
            let old_features = self.device.driver_features().bits();
            let word = value as u32;
            let features = if self.driver_feature_select == 0 {
                (old_features & 0xffff_ffff_0000_0000) | (word as u64)
            } else {
                (old_features & 0xffff_ffff) | ((word as u64) << 32)
            };
            match self.device.set_driver_features(features) {
                Ok(()) => Ok(()),
                Err(e) => Err(PciTransportError::Device(e)),
            }
        } else if offset == CommonConfig::DEVICE_STATUS && len == 1 {
            match self.device.set_status(value as u8) {
                Ok(()) => Ok(()),
                Err(e) => Err(PciTransportError::Device(e)),
            }
        } else if offset == CommonConfig::QUEUE_SELECT && len == 2 {
            self.queue_select = value as u16;
            Ok(())
        } else if offset == CommonConfig::QUEUE_SIZE && len == 2 {
            self.update_queue(QueueRegisters { size: value as u16, ..current });
            Ok(())
        } else if offset == CommonConfig::QUEUE_ENABLE && len == 2 {
            self.update_queue(QueueRegisters { enable: value as u16, ..current });
            Ok(())
        } else if offset == CommonConfig::QUEUE_DESC && len == 8 {
            self.update_queue(QueueRegisters { desc: value, ..current });
            Ok(())
        } else if offset == CommonConfig::QUEUE_DRIVER && len == 8 {
            self.update_queue(QueueRegisters { driver: value, ..current });
            Ok(())
        } else if offset == CommonConfig::QUEUE_DEVICE && len == 8 {
            self.update_queue(QueueRegisters { device: value, ..current });
            Ok(())
        } else if offset == CommonConfig::QUEUE_RESET && len == 2 {
            if value == 1 {
                self.update_queue(QueueRegisters::clear());
            }
            Ok(())
        } else if offset == CommonConfig::SHM_SEL && len == 4 {
            self.shm_select = value as u32;
            Ok(())
        } else if (offset == CommonConfig::DEVICE_FEATURE && len == 4) || ((offset == CommonConfig::MSIX_CONFIG
            || offset == CommonConfig::NUM_QUEUES || offset == CommonConfig::QUEUE_MSIX_VECTOR
            || offset == CommonConfig::QUEUE_NOTIFY_OFF) && len == 2) || (offset == CommonConfig::CONFIG_GENERATION
            && len == 1) || ((offset == CommonConfig::SHM_LEN_LOW || offset == CommonConfig::SHM_LEN_HIGH
            || offset == CommonConfig::SHM_BASE_LOW || offset == CommonConfig::SHM_BASE_HIGH) && len == 4) {
            Ok(())
        } else {
            Err(PciTransportError::InvalidAccess)
        }
    }

    /// Reads `len` bytes, at most eight, of the device configuration window at `offset`.
    pub fn read_device_config(&self, offset: u64, len: usize) -> (r: Result<u64, PciTransportError>)
        requires
            self.wf(),
        ensures
            len <= 8 && offset + len <= DEVICE_CONFIG_SIZE ==> r == Ok::<u64, PciTransportError>(
                le_value(self@.device_config.subrange(offset as int, offset + len)) as u64,
            ),
            !(len <= 8 && offset + len <= DEVICE_CONFIG_SIZE) ==> r == Err::<u64, PciTransportError>(
                PciTransportError::OutOfRange,
            ),
    {
        if len > 8 || offset > 0x100 || offset + (len as u64) > 0x100 {
            return Err(PciTransportError::OutOfRange);
        }
        let v = read_le(self.device_config.as_slice(), offset as usize, len);
        proof {
            lemma_le_value_bound(self@.device_config.subrange(offset as int, offset + len));
            lemma_pow256_monotone(len as nat, 8);
        }
        Ok(v)
    }

    /// Writes the `len` low bytes of `value` into the device configuration window at `offset`.
    pub fn write_device_config(&mut self, offset: u64, len: usize, value: u64) -> (r: Result<(), PciTransportError>)
        requires
            old(self).wf(),
        ensures
            final(self).wf(),
            len <= 8 && offset + len <= DEVICE_CONFIG_SIZE ==> r is Ok && final(self)@ == (TransportModel {
                device_config: old(self)@.device_config.subrange(0, offset as int) + le_bytes_of(value as nat, len as nat)
                    + old(self)@.device_config.subrange(offset + len, DEVICE_CONFIG_SIZE as int),
                ..old(self)@
            }),
            !(len <= 8 && offset + len <= DEVICE_CONFIG_SIZE) ==> r == Err::<(), PciTransportError>(
                PciTransportError::OutOfRange,
            ) && final(self)@ == old(self)@,
    {
        if len > 8 || offset > 0x100 || offset + (len as u64) > 0x100 {
            return Err(PciTransportError::OutOfRange);
        }
        write_le(&mut self.device_config, offset as usize, len, value);
        proof {
            lemma_le_bytes_of(value as nat, len as nat);
        }
        Ok(())
    }

    /// Copies `data` into shared-memory region `id` at `offset`.
    #[verifier::rlimit(30)]
    pub fn write_shared_memory(&mut self, id: u32, offset: usize, data: &[u8]) -> (r: Result<(), PciTransportError>)
        requires
            old(self).wf(),
        ensures
            final(self).wf(),
            match region_index(old(self)@.regions, id) {
                None => r == Err::<(), PciTransportError>(PciTransportError::SharedMemoryNotFound) && final(self)@ == old(self)@,
                Some(i) => if offset + data@.len() > old(self)@.regions[i].bytes.len() {
                    r == Err::<(), PciTransportError>(PciTransportError::OutOfRange) && final(self)@ == old(self)@
                } else {
                    r is Ok && final(self)@ == (TransportModel {
                        regions: old(self)@.regions.update(
                            i,
                            RegionModel {
                                bytes: old(self)@.regions[i].bytes.subrange(0, offset as int) + data@
                                    + old(self)@.regions[i].bytes.subrange(
                                    offset + data@.len(),
                                    old(self)@.regions[i].bytes.len() as int,
                                ),
                                ..old(self)@.regions[i]
                            },
                        ),
                        ..old(self)@
                    })
                },
            },
    {
        let i = match self.find_region(id) {
            Some(i) => i,
            None => return Err(PciTransportError::SharedMemoryNotFound),
        };
        let len = self.regions[i].bytes.len();
        if offset > len || data.len() > len - offset {
            return Err(PciTransportError::OutOfRange);
        }
        let mut region = self.regions.remove(i);
        let ghost before = region@;
        let n = data.len();
        let total = region.bytes.len();
        let mut k: usize = 0;
        while k < n
            invariant
                n == data@.len(),
                total == region.bytes@.len(),
                offset + n <= region.bytes@.len(),
                region.bytes@.len() == before.bytes.len(),
                region.id == before.id,
                region.base == before.base,
                k <= n,
                forall|j: int| 0 <= j < k ==> region.bytes@[offset + j] == data@[j],
                forall|j: int| 0 <= j < region.bytes@.len() && !(offset <= j < offset + k) ==> region.bytes@[j] == before.bytes[j],
            decreases n - k,
        {
            region.bytes.set(offset + k, data[k]);
            k = k + 1;
        }
        proof {
            assert(region.bytes@ =~= before.bytes.subrange(0, offset as int) + data@ + before.bytes.subrange(
                offset + data@.len(),
                before.bytes.len() as int,
            ));
        }
        self.regions.insert(i, region);
        proof {
            assert(self@.regions =~= old(self)@.regions.update(i as int, region@));
        }
        Ok(())
    }
}

impl Default for VirtioPciTransport {
    fn default() -> (t: Self)
        ensures
            t.wf(),
            t@.capabilities.len() == 0,
            t@.shared.len() == 0,
            t@.regions.len() == 0,
    {
        Self::new()
    }
}

} // verus!
