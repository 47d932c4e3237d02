//! The PCI configuration space of a transport, and the configuration-access
//! capability (`VIRTIO_PCI_CAP_PCI_CFG`) through which a driver reaches the
//! registers and shared memory of the BARs without mapping them.

use crate::virtio_gpu::transport::pci::{
    PciBar, VirtioPciCapability, VirtioPciNotifyCapability, PCI_DEVICE_ID_GPU, PCI_VENDOR_ID_VIRTIO,
    VIRTIO_PCI_CAP_NOTIFY_CFG, VIRTIO_PCI_CAP_PCI_CFG,
};
use crate::virtio_gpu::transport::pci::common::CommonConfig;
use crate::virtio_gpu::transport::pci::VirtioPciCap64;
use crate::virtio_gpu::transport::pci_config_space::{
    all_fit, capability_images, capability_types, image_lens, installed, le_bytes_of, le_value, lemma_le_bytes_of,
    lemma_le_value_bound, lemma_pow256_monotone, walks_chain, PciConfigSpace, VirtioPciCfgCapability,
    CAPABILITIES_TOO_LARGE,
};
use crate::virtio_gpu::transport::pci_transport::{
    bar_position, first_match, lemma_first_match, lemma_first_match_valid, read_le, region_index, PciTransportError,
    RegionModel, TransportModel, VirtioPciTransport, DEVICE_CONFIG_OFFSET, DEVICE_CONFIG_SIZE, write_le,
};
use crate::virtio_gpu::protocol::wire::to_array;
use vstd::prelude::*;

verus! {

/// Error text when a BAR lies above the 32-bit conventional PCI address space.
pub const BAR_ABOVE_4G: &'static str = "BAR address cannot be represented in conventional PCI space";

#[derive(Debug, PartialEq, Eq)]
pub enum PciCfgAccessError {
    /// The access width is not 1, 2 or 4 bytes, or the data does not match it.
    InvalidLength,
    /// The offset is not a multiple of the access width.
    Misaligned,
    /// No shared-memory region of the BAR covers the access.
    InvalidBar,
    /// No advertised structure covers the access.
    OutsideAdvertisedRegion,
    /// The transport refused the access.
    Transport(PciTransportError),
}

impl vstd::std_specs::convert::FromSpecImpl<PciTransportError> for PciCfgAccessError {
    open spec fn obeys_from_spec() -> bool {
        true
    }

    open spec fn from_spec(v: PciTransportError) -> Self {
        PciCfgAccessError::Transport(v)
    }
}

impl From<PciTransportError> for PciCfgAccessError {
    fn from(value: PciTransportError) -> (r: Self) {
        PciCfgAccessError::Transport(value)
    }
}

/// The configuration space after programming BARs `0..n` from `bars` (the
/// first BAR of each index), or `None` when one of them lies above 4 GiB.
pub open spec fn with_bars(bytes: Seq<u8>, bars: Seq<PciBar>, n: nat) -> Option<Seq<u8>>
    decreases n,
{
    if n == 0 {
        Some(bytes)
    } else {
        match with_bars(bytes, bars, (n - 1) as nat) {
            None => None,
            Some(s) => {
                let k = (n - 1) as int;
                match bar_position(bars, k as u8) {
                    None => Some(s),
                    Some(i) => if bars[i].base <= u32::MAX {
                        Some(
                            s.subrange(0, 0x10 + 4 * k) + le_bytes_of(bars[i].base as nat, 4) + s.subrange(
                                0x10 + 4 * k + 4,
                                4096,
                            ),
                        )
                    } else {
                        None
                    },
                }
            },
        }
    }
}

/// Once a BAR cannot be programmed, no longer prefix can be either.
proof fn lemma_with_bars_none(bytes: Seq<u8>, bars: Seq<PciBar>, n: nat, m: nat)
    requires
        n <= m,
        with_bars(bytes, bars, n) is None,
    ensures
        with_bars(bytes, bars, m) is None,
    decreases m - n,
{
    if n < m {
        lemma_with_bars_none(bytes, bars, n, (m - 1) as nat);
    }
}

/// The capabilities chained as ordinary ones: all but the notification ones.
pub open spec fn common_part(caps: Seq<VirtioPciCapability>) -> Seq<VirtioPciCapability>
    decreases caps.len(),
{
    if caps.len() == 0 {
        caps
    } else {
        let rest = common_part(caps.drop_last());
        if caps.last().cfg_type != VIRTIO_PCI_CAP_NOTIFY_CFG {
            rest.push(caps.last())
        } else {
            rest
        }
    }
}

/// The notification capability built from `c` with the transport's multiplier.
pub open spec fn notify_capability(c: VirtioPciCapability, multiplier: u32) -> VirtioPciNotifyCapability {
    VirtioPciNotifyCapability {
        cap: VirtioPciCapability {
            cap_next: 0,
            cap_len: 20,
            cfg_type: VIRTIO_PCI_CAP_NOTIFY_CFG,
            bar: c.bar,
            id: 0,
            offset: c.offset,
            length: c.length,
        },
        notify_off_multiplier: multiplier,
    }
}

/// The notification capabilities, with the multiplier attached.
pub open spec fn notify_part(caps: Seq<VirtioPciCapability>, multiplier: u32) -> Seq<VirtioPciNotifyCapability>
    decreases caps.len(),
{
    if caps.len() == 0 {
        Seq::<VirtioPciNotifyCapability>::empty()
    } else {
        let rest = notify_part(caps.drop_last(), multiplier);
        if caps.last().cfg_type == VIRTIO_PCI_CAP_NOTIFY_CFG {
            rest.push(notify_capability(caps.last(), multiplier))
        } else {
            rest
        }
    }
}

/// The configuration-access capability the builder appends: four bytes of
/// the device configuration window in BAR 0, data window zero.
pub open spec fn pci_cfg_image() -> Seq<u8> {
    (VirtioPciCapability {
        cap_next: 0,
        cap_len: 20,
        cfg_type: VIRTIO_PCI_CAP_PCI_CFG,
        bar: 0,
        id: 0,
        offset: 0x300,
        length: 4,
    }).spec_encode() + seq![0u8, 0u8, 0u8, 0u8]
}

/// The capability images the builder chains for transport `t`.
pub open spec fn builder_images(t: TransportModel) -> Seq<Seq<u8>> {
    capability_images(
        common_part(t.capabilities),
        notify_part(t.capabilities, t.notify_off_multiplier),
        t.shared,
        None,
    ) + seq![pci_cfg_image()]
}

/// The types of the capabilities the builder chains for transport `t`, in order.
pub open spec fn builder_types(t: TransportModel) -> Seq<u8> {
    capability_types(
        common_part(t.capabilities),
        notify_part(t.capabilities, t.notify_off_multiplier),
        t.shared,
        None,
    ) + seq![VIRTIO_PCI_CAP_PCI_CFG]
}

/// The header and BARs of the configuration space for transport `t`.
pub open spec fn builder_header(t: TransportModel) -> Option<Seq<u8>> {
    with_bars(PciConfigSpace::spec_new(PCI_VENDOR_ID_VIRTIO, PCI_DEVICE_ID_GPU), t.bars, 6)
}

/// Builds the configuration space of `transport`: the VirtIO GPU identity,
/// BARs 0 to 5 as the transport has them, and the capability chain of its
/// ordinary, notification and shared-memory capabilities followed by a
/// configuration-access capability.
pub fn build_pci_config_space(transport: &VirtioPciTransport) -> (r: Result<PciConfigSpace, &'static str>)
    ensures
        match builder_header(transport@) {
            None => r == Err::<PciConfigSpace, &'static str>(BAR_ABOVE_4G),
            Some(header) => if all_fit(image_lens(builder_images(transport@))) {
                r matches Ok(c) && installed(header, c@, builder_images(transport@)) && walks_chain(
                    c@,
                    builder_images(transport@),
                    builder_types(transport@),
                )
            } else {
                r == Err::<PciConfigSpace, &'static str>(CAPABILITIES_TOO_LARGE)
            },
        },
{
    let mut config = PciConfigSpace::new(PCI_VENDOR_ID_VIRTIO, PCI_DEVICE_ID_GPU);
    let ghost start = config@;
    let mut index: u8 = 0;
    while index < 6
        invariant
            index <= 6,
            start == PciConfigSpace::spec_new(PCI_VENDOR_ID_VIRTIO, PCI_DEVICE_ID_GPU),
            with_bars(start, transport@.bars, index as nat) == Some(config@),
        decreases 6 - index,
    {
        proof {
            lemma_bars_len(start, transport@.bars, index as nat);
        }
        match transport.bar(index) {
            Some(bar) => {
                if !config.set_bar_memory(index, bar.base) {
                    proof {
                        lemma_with_bars_none(start, transport@.bars, (index + 1) as nat, 6);
                    }
                    return Err(BAR_ABOVE_4G);
                }
            },
            None => {},
        }
        index = index + 1;
    }
    let mut common: Vec<VirtioPciCapability> = Vec::new();
    let mut notify: Vec<VirtioPciNotifyCapability> = Vec::new();
    let caps = transport.capabilities();
    let multiplier = transport.notify_off_multiplier();
    let mut i: usize = 0;
    while i < caps.len()
        invariant
            i <= caps@.len(),
            caps@ == transport@.capabilities,
            multiplier == transport@.notify_off_multiplier,
            common@ == common_part(caps@.subrange(0, i as int)),
            notify@ == notify_part(caps@.subrange(0, i as int), multiplier),
        decreases caps@.len() - i,
    {
        proof {
            assert(caps@.subrange(0, i + 1).drop_last() =~= caps@.subrange(0, i as int));
        }
        let cap = caps[i];
        if cap.cfg_type == VIRTIO_PCI_CAP_NOTIFY_CFG {
            notify.push(VirtioPciNotifyCapability::new(cap.bar, cap.offset, cap.length, multiplier));
        } else {
            common.push(cap);
        }
        i = i + 1;
    }
    proof {
        assert(caps@.subrange(0, caps@.len() as int) =~= caps@);
    }
    let pci_cfg = VirtioPciCfgCapability::new(0, 0x300, 4);
    proof {
        assert(capability_images(common@, notify@, transport@.shared, Some(pci_cfg)) =~= builder_images(
            transport@,
        ));
        assert(capability_types(common@, notify@, transport@.shared, Some(pci_cfg)) =~= builder_types(
            transport@,
        ));
    }
    let shared = transport.shared_memory_capabilities();
    match config.install_capabilities_with_pci_cfg(common.as_slice(), notify.as_slice(), shared, Some(pci_cfg)) {
        Ok(()) => Ok(config),
        Err(e) => Err(e),
    }
}

/// Programming BARs keeps the configuration space 4096 bytes long.
proof fn lemma_bars_len(bytes: Seq<u8>, bars: Seq<PciBar>, n: nat)
    requires
        bytes.len() == 4096,
        n <= 6,
    ensures
        with_bars(bytes, bars, n) matches Some(s) ==> s.len() == 4096,
    decreases n,
{
    if n > 0 {
        lemma_bars_len(bytes, bars, (n - 1) as nat);
        lemma_le_bytes_of(0, 4);
        let k = (n - 1) as int;
        match bar_position(bars, k as u8) {
            Some(i) => lemma_le_bytes_of(bars[i].base as nat, 4),
            None => {},
        }
    }
}

/// Whether capability `c` is a structure of BAR `bar` that covers the bytes
/// `offset .. offset + len` (the configuration-access capability itself excluded).
pub open spec fn covers(c: VirtioPciCapability, bar: u8, offset: int, len: int) -> bool {
    &&& c.bar == bar
    &&& c.cfg_type != VIRTIO_PCI_CAP_PCI_CFG
    &&& c.offset <= offset
    &&& offset + len <= c.offset + c.length
}

/// Whether shared-memory capability `c` covers the bytes `offset .. offset + len` of BAR `bar`.
pub open spec fn shared_covers(c: VirtioPciCap64, bar: u8, offset: int, len: int) -> bool {
    &&& c.cap.bar == bar
    &&& c.spec_offset() <= offset
    &&& offset + len <= c.spec_offset() + c.spec_length()
}

/// The first shared-memory capability that covers the access.
pub open spec fn shared_target(shared: Seq<VirtioPciCap64>, bar: u8, offset: int, len: int) -> Option<int> {
    first_match(shared, |c: VirtioPciCap64| shared_covers(c, bar, offset, len))
}

/// The width of the access `cfg` selects, when it is 1, 2 or 4 bytes,
/// aligned to itself, and inside a structure or shared-memory region the
/// transport advertises.
pub open spec fn cfg_target(t: TransportModel, cfg: VirtioPciCfgCapability) -> Result<usize, PciCfgAccessError> {
    match cfg.spec_access_length() {
        None => Err(PciCfgAccessError::InvalidLength),
        Some(len) => {
            let bar = cfg.cap.bar;
            let offset = cfg.cap.offset as int;
            if offset % (len as int) != 0 {
                Err(PciCfgAccessError::Misaligned)
            } else if !(exists|i: int| 0 <= i < t.capabilities.len() && #[trigger] covers(t.capabilities[i], bar, offset, len as int))
                && !(exists|i: int| 0 <= i < t.shared.len() && #[trigger] shared_covers(t.shared[i], bar, offset, len as int)) {
                Err(PciCfgAccessError::OutsideAdvertisedRegion)
            } else {
                Ok(len)
            }
        },
    }
}

/// A read of the common configuration, seen from the configuration-access capability.
#[verifier::opaque]
pub open spec fn common_read(t: TransportModel, offset: int, len: usize) -> Result<u64, PciCfgAccessError> {
    match t.read_common(offset as u64, len) {
        Ok(v) => Ok(v),
        Err(e) => Err(PciCfgAccessError::Transport(e)),
    }
}

/// A write of the common configuration, seen from the configuration-access capability.
#[verifier::opaque]
pub open spec fn common_write(t: TransportModel, offset: int, len: usize, value: u64) -> Result<TransportModel, PciCfgAccessError> {
    match t.write_common(offset as u64, len, value) {
        Ok(m) => Ok(m),
        Err(e) => Err(PciCfgAccessError::Transport(e)),
    }
}

/// The value a configuration access of `len` bytes at `offset` of BAR `bar`
/// reads: from the common configuration or the device configuration window
/// in BAR 0, or from the shared memory of another BAR.
pub open spec fn cfg_read_value(t: TransportModel, bar: u8, offset: int, len: usize) -> Result<u64, PciCfgAccessError> {
    if bar == 0 {
        if offset < CommonConfig::SIZE {
            common_read(t, offset, len)
        } else if offset >= DEVICE_CONFIG_OFFSET {
            let at = offset - DEVICE_CONFIG_OFFSET;
            if at + len <= DEVICE_CONFIG_SIZE {
                Ok(le_value(t.device_config.subrange(at, at + len)) as u64)
            } else {
                Err(PciCfgAccessError::Transport(PciTransportError::OutOfRange))
            }
        } else {
            Err(PciCfgAccessError::OutsideAdvertisedRegion)
        }
    } else {
        match shared_target(t.shared, bar, offset, len as int) {
            None => Err(PciCfgAccessError::InvalidBar),
            Some(j) => {
                let at = offset - t.shared[j].spec_offset();
                match region_index(t.regions, t.shared[j].cap.id as u32) {
                    None => Err(PciCfgAccessError::Transport(PciTransportError::SharedMemoryNotFound)),
                    Some(k) => if at + len > t.regions[k].bytes.len() {
                        Err(PciCfgAccessError::OutsideAdvertisedRegion)
                    } else {
                        Ok(le_value(t.regions[k].bytes.subrange(at, at + len)) as u64)
                    },
                }
            },
        }
    }
}

/// What a configuration read through `cfg` returns: the value's low bytes,
/// as many as the access width, then zeros up to four bytes.
pub open spec fn cfg_read(t: TransportModel, cfg: VirtioPciCfgCapability) -> Result<Seq<u8>, PciCfgAccessError> {
    match cfg_target(t, cfg) {
        Err(e) => Err(e),
        Ok(len) => match cfg_read_value(t, cfg.cap.bar, cfg.cap.offset as int, len) {
            Err(e) => Err(e),
            Ok(v) => Ok(le_bytes_of(v as nat, len as nat) + Seq::new((4 - len) as nat, |i: int| 0u8)),
        },
    }
}

/// The transport after a configuration write of `data` (`len` bytes) at
/// `offset` of BAR `bar`.
pub open spec fn cfg_write_state(t: TransportModel, bar: u8, offset: int, len: usize, data: Seq<u8>) -> Result<TransportModel, PciCfgAccessError> {
    if bar == 0 {
        if offset < CommonConfig::SIZE {
            common_write(t, offset, len, le_value(data) as u64)
        } else if offset >= DEVICE_CONFIG_OFFSET {
            let at = offset - DEVICE_CONFIG_OFFSET;
            if at + len <= DEVICE_CONFIG_SIZE {
                Ok(TransportModel {
                    device_config: t.device_config.subrange(0, at) + le_bytes_of(le_value(data), len as nat)
                        + t.device_config.subrange(at + len, DEVICE_CONFIG_SIZE as int),
                    ..t
                })
            } else {
                Err(PciCfgAccessError::Transport(PciTransportError::OutOfRange))
            }
        } else {
            Err(PciCfgAccessError::OutsideAdvertisedRegion)
        }
    } else {
        match shared_target(t.shared, bar, offset, len as int) {
            None => Err(PciCfgAccessError::InvalidBar),
            Some(j) => {
                let at = offset - t.shared[j].spec_offset();
                match region_index(t.regions, t.shared[j].cap.id as u32) {
                    None => Err(PciCfgAccessError::Transport(PciTransportError::SharedMemoryNotFound)),
                    Some(k) => if at + len > t.regions[k].bytes.len() {
                        Err(PciCfgAccessError::OutsideAdvertisedRegion)
                    } else {
                        Ok(TransportModel {
                            regions: t.regions.update(
                                k,
                                RegionModel {
                                    bytes: t.regions[k].bytes.subrange(0, at) + data + t.regions[k].bytes.subrange(
                                        at + len,
                                        t.regions[k].bytes.len() as int,
                                    ),
                                    ..t.regions[k]
                                },
                            ),
                            ..t
                        })
                    },
                }
            },
        }
    }
}

/// The transport after a configuration write of `data` through `cfg`; the
/// data must be exactly as long as the access.
pub open spec fn cfg_write(t: TransportModel, cfg: VirtioPciCfgCapability, data: Seq<u8>) -> Result<TransportModel, PciCfgAccessError> {
    match cfg_target(t, cfg) {
        Err(e) => Err(e),
        Ok(len) => if data.len() != len {
            Err(PciCfgAccessError::InvalidLength)
        } else {
            cfg_write_state(t, cfg.cap.bar, cfg.cap.offset as int, len, data)
        },
    }
}

/// Whether `c` covers the access, computed without overflow.
fn shared_covers_exec(c: &VirtioPciCap64, bar: u8, offset: u64, len: u64) -> (b: bool)
    requires
        len <= 4,
        offset <= u32::MAX,
    ensures
        b == shared_covers(*c, bar, offset as int, len as int),
{
    let start = c.offset();
    let length = c.length();
    c.cap.bar == bar && start <= offset && offset - start + len <= length
}

/// Checks the access `cfg` selects and returns its width.
fn validate_target(transport: &VirtioPciTransport, cfg: &VirtioPciCfgCapability) -> (r: Result<usize, PciCfgAccessError>)
    ensures
        r == cfg_target(transport@, *cfg),
{
    let length = match cfg.access_length() {
        Some(l) => l,
        None => return Err(PciCfgAccessError::InvalidLength),
    };
    if cfg.cap.offset % (length as u32) != 0 {
        return Err(PciCfgAccessError::Misaligned);
    }
    let bar = cfg.cap.bar;
    let offset = cfg.cap.offset as u64;
    let len = length as u64;
    let caps = transport.capabilities();
    let mut advertised = false;
    let mut i: usize = 0;
    while i < caps.len()
        invariant
            i <= caps@.len(),
            caps@ == transport@.capabilities,
            len == length <= 4,
            offset == cfg.cap.offset,
            bar == cfg.cap.bar,
            advertised == exists|j: int| 0 <= j < i && #[trigger] covers(caps@[j], bar, offset as int, len as int),
        decreases caps@.len() - i,
    {
        let c = caps[i];
        if c.bar == bar && c.cfg_type != VIRTIO_PCI_CAP_PCI_CFG && c.offset as u64 <= offset && offset + len
            <= c.offset as u64 + c.length as u64 {
            advertised = true;
            assert(covers(caps@[i as int], bar, offset as int, len as int));
        }
        i = i + 1;
    }
    let shared = transport.shared_memory_capabilities();
    let mut in_shared = false;
    let mut k: usize = 0;
    while k < shared.len()
        invariant
            k <= shared@.len(),
            shared@ == transport@.shared,
            len == length <= 4,
            offset == cfg.cap.offset,
            bar == cfg.cap.bar,
            in_shared == exists|j: int| 0 <= j < k && #[trigger] shared_covers(shared@[j], bar, offset as int, len as int),
        decreases shared@.len() - k,
    {
        if shared_covers_exec(&shared[k], bar, offset, len) {
            in_shared = true;
        }
        k = k + 1;
    }
    if !advertised && !in_shared {
        return Err(PciCfgAccessError::OutsideAdvertisedRegion);
    }
    Ok(length)
}

/// The position of the first shared-memory capability that covers the access.
fn find_shared_target(transport: &VirtioPciTransport, bar: u8, offset: u64, len: u64) -> (r: Option<usize>)
    requires
        len <= 4,
        offset <= u32::MAX,
    ensures
        r matches Some(j) ==> shared_target(transport@.shared, bar, offset as int, len as int) == Some(j as int)
            && j < transport@.shared.len() && shared_covers(transport@.shared[j as int], bar, offset as int, len as int),
        r is None ==> shared_target(transport@.shared, bar, offset as int, len as int) is None,
{
    let shared = transport.shared_memory_capabilities();
    let ghost p = |c: VirtioPciCap64| shared_covers(c, bar, offset as int, len as int);
    let mut k: usize = 0;
    while k < shared.len()
        invariant
            k <= shared@.len(),
            shared@ == transport@.shared,
            len <= 4,
            offset <= u32::MAX,
            p == (|c: VirtioPciCap64| shared_covers(c, bar, offset as int, len as int)),
            forall|j: int| 0 <= j < k ==> !p(#[trigger] shared@[j]),
        decreases shared@.len() - k,
    {
        if shared_covers_exec(&shared[k], bar, offset, len) {
            proof {
                lemma_first_match(shared@, p, k as int);
            }
            return Some(k);
        }
        k = k + 1;
    }
    proof {
        assert(!(exists|j: int| 0 <= j < shared@.len() && #[trigger] p(shared@[j])));
    }
    None
}

impl VirtioPciTransport {
    /// The configuration space of this transport; see [`build_pci_config_space`].
    pub fn build_pci_config_space(&self) -> (r: Result<PciConfigSpace, &'static str>)
        ensures
            match builder_header(self@) {
                None => r == Err::<PciConfigSpace, &'static str>(BAR_ABOVE_4G),
                Some(header) => if all_fit(image_lens(builder_images(self@))) {
                    r matches Ok(c) && installed(header, c@, builder_images(self@)) && walks_chain(
                        c@,
                        builder_images(self@),
                        builder_types(self@),
                    )
                } else {
                    r == Err::<PciConfigSpace, &'static str>(CAPABILITIES_TOO_LARGE)
                },
            },
    {
        build_pci_config_space(self)
    }

    /// The value a configuration access of `len` bytes at `offset` of BAR `bar` reads.
    #[verifier::spinoff_prover]
    #[verifier::rlimit(50)]
    fn cfg_value(&self, bar: u8, offset: u64, len: usize) -> (r: Result<u64, PciCfgAccessError>)
        requires
            self.wf(),
            len == 1 || len == 2 || len == 4,
            offset <= u32::MAX,
        ensures
            r == cfg_read_value(self@, bar, offset as int, len),
    {
        if bar == 0 {
            if offset < CommonConfig::SIZE {
                reveal(common_read);
                match self.read_common(offset, len) {
                    Ok(v) => Ok(v),
                    Err(e) => Err(PciCfgAccessError::Transport(e)),
                }
            } else if offset >= DEVICE_CONFIG_OFFSET {
                match self.read_device_config(offset - DEVICE_CONFIG_OFFSET, len) {
                    Ok(v) => Ok(v),
                    Err(e) => Err(PciCfgAccessError::Transport(e)),
                }
            } else {
                Err(PciCfgAccessError::OutsideAdvertisedRegion)
            }
        } else {
            let j = match find_shared_target(self, bar, offset, len as u64) {
                Some(j) => j,
                None => return Err(PciCfgAccessError::InvalidBar),
            };
            let region = self.shared_memory_capabilities()[j];
            let at = offset - region.offset();
            let bytes = match self.shared_memory_region_bytes(region.cap.id as u32) {
                Ok(b) => b,
                Err(e) => return Err(PciCfgAccessError::Transport(e)),
            };
            let n = bytes.len() as u64;
            if at > n || len as u64 > n - at {
                return Err(PciCfgAccessError::OutsideAdvertisedRegion);
            }
            let v = read_le(bytes, at as usize, len);
            proof {
                lemma_le_value_bound(bytes@.subrange(at as int, at + len));
                lemma_pow256_monotone(len as nat, 8);
            }
            Ok(v)
        }
    }

    /// Reads through the configuration-access capability: the access must
    /// be 1, 2 or 4 bytes wide, aligned, and inside an advertised structure;
    /// the result holds the value's low bytes followed by zeros.
    #[verifier::spinoff_prover]
    #[verifier::rlimit(30)]
    pub fn pci_cfg_read(&self, cfg: &VirtioPciCfgCapability) -> (r: Result<[u8; 4], PciCfgAccessError>)
        requires
            self.wf(),
        ensures
            match cfg_read(self@, *cfg) {
                Ok(s) => r matches Ok(a) && a@ == s,
                Err(e) => r == Err::<[u8; 4], PciCfgAccessError>(e),
            },
    {
        let length = match validate_target(self, cfg) {
            Ok(l) => l,
            Err(e) => return Err(e),
        };
        let value = match self.cfg_value(cfg.cap.bar, cfg.cap.offset as u64, length) {
            Ok(v) => v,
            Err(e) => return Err(e),
        };
        let mut out: Vec<u8> = vec![0u8; 4];
        write_le(&mut out, 0, length, value);
        proof {
            lemma_le_bytes_of(value as nat, length as nat);
            assert(out@ =~= le_bytes_of(value as nat, length as nat) + Seq::new((4 - length) as nat, |i: int| 0u8));
        }
        Ok(to_array::<4>(&out))
    }

    /// Writes `data` through the configuration-access capability: the
    /// access must be valid as for a read and `data` exactly as long as it.
    #[verifier::spinoff_prover]
    #[verifier::rlimit(30)]
    pub fn pci_cfg_write(&mut self, cfg: &VirtioPciCfgCapability, data: &[u8]) -> (r: Result<(), PciCfgAccessError>)
        requires
            old(self).wf(),
        ensures
            final(self).wf(),
            match cfg_write(old(self)@, *cfg, data@) {
                Ok(m) => r is Ok && final(self)@ == m,
                Err(e) => r == Err::<(), PciCfgAccessError>(e) && final(self)@ == old(self)@,
            },
    {
        let length = match validate_target(self, cfg) {
            Ok(l) => l,
            Err(e) => return Err(e),
        };
        if data.len() != length {
            return Err(PciCfgAccessError::InvalidLength);
        }
        let value = read_le(data, 0, length);
        proof {
            assert(data@.subrange(0, length as int) =~= data@);
        }
        let bar = cfg.cap.bar;
        let offset = cfg.cap.offset as u64;
        if bar == 0 {
            if offset < CommonConfig::SIZE {
                reveal(common_write);
                match self.write_common(offset, length, value) {
                    Ok(()) => Ok(()),
                    Err(e) => Err(PciCfgAccessError::Transport(e)),
                }
            } else if offset >= DEVICE_CONFIG_OFFSET {
                match self.write_device_config(offset - DEVICE_CONFIG_OFFSET, length, value) {
                    Ok(()) => Ok(()),
                    Err(e) => Err(PciCfgAccessError::Transport(e)),
                }
            } else {
                Err(PciCfgAccessError::OutsideAdvertisedRegion)
            }
        } else {
            self.cfg_write_shared(bar, offset, data)
        }
    }

    /// Writes `data` into the shared memory that covers `offset` of BAR `bar`.
    #[verifier::spinoff_prover]
    #[verifier::rlimit(30)]
    fn cfg_write_shared(&mut self, bar: u8, offset: u64, data: &[u8]) -> (r: Result<(), PciCfgAccessError>)
        requires
            old(self).wf(),
            bar != 0,
            offset <= u32::MAX,
            data@.len() == 1 || data@.len() == 2 || data@.len() == 4,
        ensures
            final(self).wf(),
            match cfg_write_state(old(self)@, bar, offset as int, data@.len() as usize, data@) {
                Ok(m) => r is Ok && final(self)@ == m,
                Err(e) => r == Err::<(), PciCfgAccessError>(e) && final(self)@ == old(self)@,
            },
    {
        let len = data.len();
        let j = match find_shared_target(self, bar, offset, len as u64) {
            Some(j) => j,
            None => return Err(PciCfgAccessError::InvalidBar),
        };
        let region = self.shared_memory_capabilities()[j];
        let at = offset - region.offset();
        let id = region.cap.id as u32;
        let n = match self.shared_memory_region_bytes(id) {
            Ok(b) => b.len() as u64,
            Err(e) => return Err(PciCfgAccessError::Transport(e)),
        };
        if at > n || len as u64 > n - at {
            return Err(PciCfgAccessError::OutsideAdvertisedRegion);
        }
        match self.write_shared_memory(id, at as usize, data) {
            Ok(()) => Ok(()),
            Err(e) => Err(PciCfgAccessError::Transport(e)),
        }
    }
}

/// Little-endian bytes read back as a value and written out again are the same bytes.
pub proof fn lemma_le_round_trip(s: Seq<u8>)
    ensures
        le_bytes_of(le_value(s), s.len()) == s,
    decreases s.len(),
{
    if s.len() > 0 {
        let rest = s.drop_first();
        lemma_le_round_trip(rest);
        let a = s[0] as int;
        let b = le_value(rest) as int;
        assert((a + 256 * b) % 256 == a && (a + 256 * b) / 256 == b) by (nonlinear_arith)
            requires
                0 <= a < 256,
                b >= 0,
        ;
        assert(le_bytes_of(le_value(s), s.len()) =~= s);
    }
}

/// Region positions depend only on the regions' ids.
pub proof fn lemma_region_index_ids(r1: Seq<RegionModel>, r2: Seq<RegionModel>, id: u32)
    requires
        r1.len() == r2.len(),
        forall|i: int| 0 <= i < r1.len() ==> #[trigger] r1[i].id == r2[i].id,
    ensures
        region_index(r1, id) == region_index(r2, id),
{
    if exists|i: int| 0 <= i < r1.len() && #[trigger] r1[i].id == id {
        let c1 = choose|i: int| 0 <= i < r1.len() && #[trigger] r1[i].id == id && forall|j: int| 0 <= j < i ==> r1[j].id != id;
        let w = choose|i: int| 0 <= i < r1.len() && #[trigger] r1[i].id == id;
        assert(r2[w].id == id);
        let c2 = choose|i: int| 0 <= i < r2.len() && #[trigger] r2[i].id == id && forall|j: int| 0 <= j < i ==> r2[j].id != id;
        assert(exists|i: int| 0 <= i < r1.len() && #[trigger] r1[i].id == id && forall|j: int| 0 <= j < i ==> r1[j].id != id) by {
            lemma_first_id(r1, id, w);
        }
        assert(exists|i: int| 0 <= i < r2.len() && #[trigger] r2[i].id == id && forall|j: int| 0 <= j < i ==> r2[j].id != id) by {
            lemma_first_id(r2, id, w);
        }
        assert(c1 == c2) by {
            if c1 < c2 {
                assert(r2[c1].id == id);
            } else if c2 < c1 {
                assert(r1[c2].id == id);
            }
        }
    } else {
        assert(!(exists|i: int| 0 <= i < r2.len() && #[trigger] r2[i].id == id)) by {
            if exists|i: int| 0 <= i < r2.len() && #[trigger] r2[i].id == id {
                let w = choose|i: int| 0 <= i < r2.len() && #[trigger] r2[i].id == id;
                assert(r1[w].id == id);
            }
        }
    }
}

/// When some region has the id, a first one does.
pub proof fn lemma_first_id(r: Seq<RegionModel>, id: u32, w: int)
    requires
        0 <= w < r.len(),
        r[w].id == id,
    ensures
        exists|i: int| 0 <= i < r.len() && #[trigger] r[i].id == id && forall|j: int| 0 <= j < i ==> r[j].id != id,
    decreases w,
{
    if exists|j: int| 0 <= j < w && #[trigger] r[j].id == id {
        let v = choose|j: int| 0 <= j < w && #[trigger] r[j].id == id;
        lemma_first_id(r, id, v);
    } else {
        assert(forall|j: int| 0 <= j < w ==> r[j].id != id);
    }
}

/// A region position names a region with the id.
pub proof fn lemma_region_index_valid(r: Seq<RegionModel>, id: u32)
    ensures
        region_index(r, id) matches Some(k) ==> 0 <= k < r.len() && r[k].id == id,
{
    if exists|i: int| 0 <= i < r.len() && #[trigger] r[i].id == id {
        let w = choose|i: int| 0 <= i < r.len() && #[trigger] r[i].id == id;
        lemma_first_id(r, id, w);
    }
}

/// A shared-memory target covers the access.
pub proof fn lemma_shared_target_valid(shared: Seq<VirtioPciCap64>, bar: u8, offset: int, len: int)
    ensures
        shared_target(shared, bar, offset, len) matches Some(j) ==> 0 <= j < shared.len() && shared_covers(
            shared[j],
            bar,
            offset,
            len,
        ),
{
    lemma_first_match_valid(shared, |c: VirtioPciCap64| shared_covers(c, bar, offset, len));
}

/// What is written through the configuration-access capability into the
/// device configuration window or into shared memory is read back through
/// the same capability, followed by zeros up to four bytes.
#[verifier::spinoff_prover]
#[verifier::rlimit(80)]
pub proof fn lemma_cfg_write_read_back(t: TransportModel, cfg: VirtioPciCfgCapability, data: Seq<u8>)
    requires
        t.device_config.len() == DEVICE_CONFIG_SIZE,
        cfg_write(t, cfg, data) is Ok,
        cfg.cap.bar != 0 || cfg.cap.offset >= DEVICE_CONFIG_OFFSET,
    ensures
        cfg_read(cfg_write(t, cfg, data)->Ok_0, cfg) == Ok::<Seq<u8>, PciCfgAccessError>(
            data + Seq::new((4 - data.len()) as nat, |i: int| 0u8),
        ),
{
    let m = cfg_write(t, cfg, data)->Ok_0;
    let len = cfg_target(t, cfg)->Ok_0;
    assert(data.len() == len);
    assert(m.capabilities == t.capabilities && m.shared == t.shared);
    assert(cfg_target(m, cfg) == cfg_target(t, cfg));
    lemma_le_round_trip(data);
    lemma_le_value_bound(data);
    lemma_pow256_monotone(data.len(), 8);
    lemma_le_bytes_of(le_value(data), len as nat);
    let offset = cfg.cap.offset as int;
    if cfg.cap.bar == 0 {
        let at = offset - DEVICE_CONFIG_OFFSET;
        assert(m.device_config == t.device_config.subrange(0, at) + le_bytes_of(le_value(data), len as nat)
            + t.device_config.subrange(at + len, DEVICE_CONFIG_SIZE as int));
        assert(m.device_config.subrange(at, at + len) =~= le_bytes_of(le_value(data), len as nat));
    } else {
        lemma_shared_target_valid(t.shared, cfg.cap.bar, offset, len as int);
        let j = shared_target(t.shared, cfg.cap.bar, offset, len as int)->0;
        let id = t.shared[j].cap.id as u32;
        lemma_region_index_valid(t.regions, id);
        let k = region_index(t.regions, id)->0;
        let at = offset - t.shared[j].spec_offset();
        let bytes = t.regions[k].bytes;
        assert(m.regions == t.regions.update(
            k,
            RegionModel { bytes: bytes.subrange(0, at) + data + bytes.subrange(at + len, bytes.len() as int), ..t.regions[k] },
        ));
        lemma_region_index_ids(t.regions, m.regions, id);
        assert(m.regions[k].bytes.subrange(at, at + len) =~= data);
    }
}

} // verus!
