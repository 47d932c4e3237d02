//! Conventional PCI configuration space with the VirtIO capability list.

use crate::virtio_gpu::transport::pci::{
    PciBar, VirtioPciCap64, VirtioPciCapability, VirtioPciNotifyCapability, VIRTIO_PCI_CAP_PCI_CFG,
};
use crate::virtio_gpu::protocol::wire::{lemma_words, put_bytes};
use vstd::prelude::*;

verus! {

/// The value of little-endian bytes.
pub open spec fn le_value(s: Seq<u8>) -> nat
    decreases s.len(),
{
    if s.len() == 0 {
        0
    } else {
        s[0] as nat + 256 * le_value(s.drop_first())
    }
}

/// The `w` low little-endian bytes of `v`.
pub open spec fn le_bytes_of(v: nat, w: nat) -> Seq<u8>
    decreases w,
{
    if w == 0 {
        Seq::<u8>::empty()
    } else {
        seq![(v % 256) as u8] + le_bytes_of(v / 256, (w - 1) as nat)
    }
}

/// `256` to the power `n`.
pub open spec fn pow256(n: nat) -> nat
    decreases n,
{
    if n == 0 {
        1
    } else {
        256 * pow256((n - 1) as nat)
    }
}

/// The access widths the configuration space supports.
pub open spec fn valid_width(width: usize) -> bool {
    width == 1 || width == 2 || width == 4 || width == 8
}

/// `le_bytes_of` has `w` bytes, and their value is `v` modulo `256^w`.
pub proof fn lemma_le_bytes_of(v: nat, w: nat)
    ensures
        le_bytes_of(v, w).len() == w,
        pow256(w) > 0,
        le_value(le_bytes_of(v, w)) == v % pow256(w),
    decreases w,
{
    if w > 0 {
        lemma_le_bytes_of(v / 256, (w - 1) as nat);
        let s = le_bytes_of(v, w);
        assert(s.drop_first() =~= le_bytes_of(v / 256, (w - 1) as nat));
        vstd::arithmetic::div_mod::lemma_mod_breakdown(v as int, 256, pow256((w - 1) as nat) as int);
    }
}

/// The value of `n` little-endian bytes is below `256^n`.
pub proof fn lemma_le_value_bound(s: Seq<u8>)
    ensures
        le_value(s) < pow256(s.len()),
    decreases s.len(),
{
    if s.len() > 0 {
        lemma_le_value_bound(s.drop_first());
    }
}

/// `VIRTIO_PCI_CAP_PCI_CFG` capability and its four-byte access window.
#[derive(Debug, Clone, Copy, PartialEq, Eq)]
pub struct VirtioPciCfgCapability {
    pub cap: VirtioPciCapability,
    pub pci_cfg_data: [u8; 4],
}

impl VirtioPciCfgCapability {
    pub const SIZE: usize = 20;

    pub open spec fn spec_encode(self) -> Seq<u8> {
        self.cap.spec_encode() + self.pci_cfg_data@
    }

    /// The access width the capability selects, when it is 1, 2 or 4 bytes.
    pub open spec fn spec_access_length(self) -> Option<usize> {
        if self.cap.length == 1 || self.cap.length == 2 || self.cap.length == 4 {
            Some(self.cap.length as usize)
        } else {
            None
        }
    }

    pub fn new(bar: u8, offset: u32, length: u32) -> (c: Self)
        ensures
            c.cap == (VirtioPciCapability {
                cap_next: 0,
                cap_len: 20,
                cfg_type: VIRTIO_PCI_CAP_PCI_CFG,
                bar,
                id: 0,
                offset,
                length,
            }),
            c.pci_cfg_data@ == seq![0u8, 0u8, 0u8, 0u8],
    {
        VirtioPciCfgCapability {
            cap: VirtioPciCapability {
                cap_next: 0,
                cap_len: 20,
                cfg_type: VIRTIO_PCI_CAP_PCI_CFG,
                bar,
                id: 0,
                offset,
                length,
            },
            pci_cfg_data: [0u8; 4],
        }
    }

    pub fn encode_le(self) -> (out: [u8; 20])
        ensures
            out@ == self.spec_encode(),
    {
        let c = self.cap.encode_le();
        let mut v: Vec<u8> = Vec::new();
        put_bytes(&mut v, c.as_slice());
        put_bytes(&mut v, self.pci_cfg_data.as_slice());
        proof {
            self.cap.lemma_round_trip(Seq::<u8>::empty());
        }
        crate::virtio_gpu::protocol::wire::to_array::<20>(&v)
    }

    /// Reads a PCI-configuration-access capability: it must be long enough,
    /// carry the right type and announce a length of at least 20 bytes.
    pub fn decode_le(bytes: &[u8]) -> (r: Option<Self>)
        ensures
            bytes@.len() < 20 ==> r is None,
            bytes@.len() >= 20 ==> {
                let cap = VirtioPciCapability::spec_parse(bytes@);
                if cap.cfg_type != VIRTIO_PCI_CAP_PCI_CFG || cap.cap_len < 20 {
                    r is None
                } else {
                    r matches Some(c) && c.cap == cap && c.pci_cfg_data@ == bytes@.subrange(16, 20)
                }
            },
    {
        if bytes.len() < 20 {
            return None;
        }
        let cap = VirtioPciCapability::decode_le(bytes).unwrap();
        if cap.cfg_type != VIRTIO_PCI_CAP_PCI_CFG || cap.cap_len < 20 {
            return None;
        }
        let pci_cfg_data = [bytes[16], bytes[17], bytes[18], bytes[19]];
        assert(pci_cfg_data@ =~= bytes@.subrange(16, 20));
        Some(VirtioPciCfgCapability { cap, pci_cfg_data })
    }

    pub fn access_length(&self) -> (r: Option<usize>)
        ensures
            r == self.spec_access_length(),
    {
        if self.cap.length == 1 || self.cap.length == 2 || self.cap.length == 4 {
            Some(self.cap.length as usize)
        } else {
            None
        }
    }

    /// Selects a 1-, 2- or 4-byte access aligned to its width.
    pub fn set_access(&mut self, bar: u8, length: u32, offset: u32) -> (ok: bool)
        ensures
            ok == ((length == 1 || length == 2 || length == 4) && offset % length == 0),
            ok ==> final(self).cap == (VirtioPciCapability {
                bar,
                length,
                offset,
                ..old(self).cap
            }) && final(self).pci_cfg_data == old(self).pci_cfg_data,
            !ok ==> *final(self) == *old(self),
    {
        if !(length == 1 || length == 2 || length == 4) || offset % length != 0 {
            return false;
        }
        self.cap.bar = bar;
        self.cap.length = length;
        self.cap.offset = offset;
        true
    }

    /// Stores exactly access-width bytes into the data window.
    pub fn set_data(&mut self, data: &[u8]) -> (ok: bool)
        ensures
            ok == (old(self).spec_access_length() matches Some(n) && data@.len() == n),
            ok ==> final(self).cap == old(self).cap && final(self).pci_cfg_data@ == data@
                + old(self).pci_cfg_data@.subrange(data@.len() as int, 4),
            !ok ==> *final(self) == *old(self),
    {
        let length = match self.access_length() {
            Some(l) => l,
            None => return false,
        };
        if data.len() != length {
            return false;
        }
        let mut i: usize = 0;
        while i < length
            invariant
                i <= length <= 4,
                length == data@.len(),
                self.cap == old(self).cap,
                forall|j: int| 0 <= j < i ==> self.pci_cfg_data@[j] == data@[j],
                forall|j: int| i <= j < 4 ==> self.pci_cfg_data@[j] == old(self).pci_cfg_data@[j],
            decreases length - i,
        {
            self.pci_cfg_data[i] = data[i];
            i = i + 1;
        }
        assert(self.pci_cfg_data@ =~= data@ + old(self).pci_cfg_data@.subrange(length as int, 4));
        true
    }

    /// The bytes of the data window that the access width covers.
    pub fn data(&self) -> (r: Option<&[u8]>)
        ensures
            match self.spec_access_length() {
                Some(n) => r matches Some(d) && d@ == self.pci_cfg_data@.subrange(0, n as int),
                None => r is None,
            },
    {
        match self.access_length() {
            Some(length) => Some(&self.pci_cfg_data.as_slice()[0..length]),
            None => None,
        }
    }
}

/// Where a capability is placed: the cursor rounded up to a multiple of four.
pub open spec fn align4(c: int) -> int {
    (c + 3) / 4 * 4
}

/// The configuration-space offset of capability `i` when capabilities of the
/// given lengths are laid out one after another from the first capability slot.
pub open spec fn cap_location(lens: Seq<nat>, i: nat) -> int
    decreases i,
{
    if i == 0 {
        align4(0x50)
    } else {
        align4(cap_location(lens, (i - 1) as nat) + lens[i - 1])
    }
}

/// Whether capability `i` fits: its offset is a byte and its end inside the space.
pub open spec fn cap_fits(lens: Seq<nat>, i: nat) -> bool {
    cap_location(lens, i) <= 255 && cap_location(lens, i) + lens[i as int] <= 4096
}

/// The bytes written for capability `i`: its encoding with the link to the
/// next capability and its own length filled in.
pub open spec fn linked_cap(caps: Seq<Seq<u8>>, i: int) -> Seq<u8> {
    let next: u8 = if i + 1 < caps.len() {
        cap_location(image_lens(caps), (i + 1) as nat) as u8
    } else {
        0
    };
    caps[i].update(1, next).update(2, caps[i].len() as u8)
}

/// Error text when no capability is given.
pub const NO_CAPABILITY: &'static str = "a VirtIO PCI device must expose at least one capability";

/// Error text when the capability list does not fit.
pub const CAPABILITIES_TOO_LARGE: &'static str = "capability list does not fit in PCI configuration space";

/// Minimal conventional PCI configuration-space model used by the VirtIO PCI
/// transport implementation. It keeps the header, BARs and VirtIO capability
/// list in a 4 KiB configuration-space image.
#[derive(Debug, Clone, PartialEq, Eq)]
pub struct PciConfigSpace {
    bytes: [u8; 4096],
}

impl View for PciConfigSpace {
    type V = Seq<u8>;

    closed spec fn view(&self) -> Seq<u8> {
        self.bytes@
    }
}

impl PciConfigSpace {
    pub const SIZE: usize = 4096;
    pub const CAPABILITY_POINTER: usize = 0x34;
    pub const FIRST_CAPABILITY: u8 = 0x50;

    /// The header of a fresh configuration space.
    pub open spec fn spec_new(vendor_id: u16, device_id: u16) -> Seq<u8> {
        Seq::new(
            4096,
            |i: int|
                if i == 0 {
                    (vendor_id % 256) as u8
                } else if i == 1 {
                    (vendor_id / 256) as u8
                } else if i == 2 {
                    (device_id % 256) as u8
                } else if i == 3 {
                    (device_id / 256) as u8
                } else if i == 6 {
                    0x10u8
                } else if i == 0x0a {
                    0x02u8
                } else if i == 0x0b {
                    0xffu8
                } else if i == 0x34 {
                    0x50u8
                } else {
                    0u8
                },
        )
    }

    /// Vendor and device id, the capability-list status bit, the display
    /// controller class, and the capability pointer at the first slot.
    pub fn new(vendor_id: u16, device_id: u16) -> (c: Self)
        ensures
            c@ == Self::spec_new(vendor_id, device_id),
    {
        let mut bytes = [0u8; 4096];
        bytes[0] = (vendor_id % 256) as u8;
        bytes[1] = (vendor_id / 256) as u8;
        bytes[2] = (device_id % 256) as u8;
        bytes[3] = (device_id / 256) as u8;
        bytes[0x06] = 0x10;
        bytes[0x07] = 0x00;
        bytes[0x08] = 0x00;
        bytes[0x09] = 0x00;
        bytes[0x0a] = 0x02;
        bytes[0x0b] = 0xff;
        bytes[0x34] = 0x50;
        let c = PciConfigSpace { bytes };
        assert(c@ =~= Self::spec_new(vendor_id, device_id));
        c
    }

    /// Reads a 1-, 2-, 4- or 8-byte little-endian value.
    pub fn read(&self, offset: usize, width: usize) -> (r: Option<u64>)
        ensures
            r == (if valid_width(width) && offset + width <= 4096 {
                Some(le_value(self@.subrange(offset as int, offset + width)) as u64)
            } else {
                None::<u64>
            }),
    {
        if !(width == 1 || width == 2 || width == 4 || width == 8) {
            return None;
        }
        let end = match offset.checked_add(width) {
            Some(e) => e,
            None => return None,
        };
        if end > 4096 {
            return None;
        }
        let mut value: u64 = 0;
        let mut i: usize = width;
        proof {
            assert(self@.subrange(end as int, end as int) =~= Seq::<u8>::empty());
        }
        while i > 0
            invariant
                i <= width <= 8,
                end == offset + width,
                end <= 4096,
                self@.len() == 4096,
                value == le_value(self@.subrange(offset + i, end as int)),
            decreases i,
        {
            let b = self.bytes[offset + i - 1];
            proof {
                let s = self@.subrange(offset + i, end as int);
                lemma_le_value_bound(s);
                lemma_pow256_monotone(s.len(), 7);
                let t = self@.subrange(offset + i - 1, end as int);
                assert(t.drop_first() =~= s);
            }
            value = value * 256 + b as u64;
            i = i - 1;
        }
        proof {
            lemma_le_value_bound(self@.subrange(offset as int, end as int));
            lemma_pow256_monotone(width as nat, 8);
        }
        Some(value)
    }

    /// Writes the `width` low bytes of `value` little-endian.
    pub fn write(&mut self, offset: usize, width: usize, value: u64) -> (ok: bool)
        ensures
            ok == (valid_width(width) && offset + width <= 4096),
            ok ==> final(self)@ == old(self)@.subrange(0, offset as int) + le_bytes_of(
                value as nat,
                width as nat,
            ) + old(self)@.subrange(offset + width, 4096),
            !ok ==> final(self)@ == old(self)@,
    {
        if !(width == 1 || width == 2 || width == 4 || width == 8) {
            return false;
        }
        let end = match offset.checked_add(width) {
            Some(e) => e,
            None => return false,
        };
        if end > 4096 {
            return false;
        }
        let mut v: u64 = value;
        let mut i: usize = 0;
        proof {
            lemma_le_bytes_of(value as nat, width as nat);
        }
        while i < width
            invariant
                i <= width <= 8,
                end == offset + width,
                end <= 4096,
                self@.len() == 4096,
                le_bytes_of(value as nat, width as nat).subrange(i as int, width as int)
                    == le_bytes_of(v as nat, (width - i) as nat),
                le_bytes_of(value as nat, width as nat).len() == width,
                forall|j: int| 0 <= j < i ==> self@[offset + j] == le_bytes_of(
                    value as nat,
                    width as nat,
                )[j],
                forall|j: int|
                    0 <= j < 4096 && !(offset <= j < offset + i) ==> self@[j] == old(self)@[j],
            decreases width - i,
        {
            proof {
                let all = le_bytes_of(value as nat, width as nat);
                let rest = le_bytes_of(v as nat, (width - i) as nat);
                assert(rest[0] == (v % 256) as u8);
                assert(all[i as int] == all.subrange(i as int, width as int)[0]);
                assert(rest.drop_first() =~= le_bytes_of((v / 256) as nat, (width - i - 1) as nat));
                assert(all.subrange(i + 1, width as int) =~= all.subrange(i as int, width as int).drop_first());
            }
            self.bytes[offset + i] = (v % 256) as u8;
            v = v / 256;
            i = i + 1;
        }
        assert(self@ =~= old(self)@.subrange(0, offset as int) + le_bytes_of(
            value as nat,
            width as nat,
        ) + old(self)@.subrange(offset + width, 4096));
        true
    }

    /// The 32-bit base address of BAR `index`.
    pub fn bar(&self, index: u8) -> (r: Option<u64>)
        ensures
            r == (if index < 6 {
                Some(le_value(self@.subrange(0x10 + 4 * index, 0x10 + 4 * index + 4)) as u64)
            } else {
                None::<u64>
            }),
    {
        if index >= 6 {
            return None;
        }
        let offset = 0x10 + (index as usize) * 4;
        self.read(offset, 4)
    }

    /// Programs BAR `index` with a 32-bit memory base address.
    pub fn set_bar_memory(&mut self, index: u8, base: u64) -> (ok: bool)
        ensures
            ok == (index < 6 && base <= u32::MAX),
            ok ==> final(self)@ == old(self)@.subrange(0, 0x10 + 4 * index) + le_bytes_of(
                base as nat,
                4,
            ) + old(self)@.subrange(0x10 + 4 * index + 4, 4096),
            !ok ==> final(self)@ == old(self)@,
    {
        if index >= 6 || base > 0xffff_ffffu64 {
            return false;
        }
        let offset = 0x10 + (index as usize) * 4;
        self.write(offset, 4, base)
    }

    pub fn capability_pointer(&self) -> (p: u8)
        ensures
            p == self@[0x34],
    {
        self.bytes[0x34]
    }

    pub fn bytes(&self) -> (b: &[u8; 4096])
        ensures
            b@ == self@,
    {
        &self.bytes
    }

    /// Whether BAR `bar.index` holds exactly `bar.base`.
    pub fn validate_bar(&self, bar: PciBar) -> (ok: bool)
        ensures
            ok == (bar.index < 6 && le_value(
                self@.subrange(0x10 + 4 * bar.index, 0x10 + 4 * bar.index + 4),
            ) == bar.base),
    {
        match self.bar(bar.index) {
            Some(base) => {
                proof {
                    lemma_le_value_bound(self@.subrange(0x10 + 4 * bar.index, 0x10 + 4 * bar.index + 4));
                    lemma_pow256_monotone(4, 8);
                }
                base == bar.base
            },
            None => false,
        }
    }
}

/// `pow256` grows with its exponent.
pub proof fn lemma_pow256_monotone(a: nat, b: nat)
    requires
        a <= b,
    ensures
        pow256(a) <= pow256(b),
        pow256(8) == 0x1_0000_0000_0000_0000,
        pow256(7) == 0x0100_0000_0000_0000,
        pow256(4) == 0x1_0000_0000,
    decreases b,
{
    if a < b {
        lemma_pow256_monotone(a, (b - 1) as nat);
    }
    reveal_with_fuel(pow256, 9);
}

/// Reading back a value just written gives it modulo the access width.
pub proof fn lemma_read_after_write(old_bytes: Seq<u8>, offset: int, width: nat, value: u64)
    requires
        old_bytes.len() == 4096,
        0 <= offset,
        offset + width <= 4096,
    ensures
        ({
            let new_bytes = old_bytes.subrange(0, offset) + le_bytes_of(value as nat, width)
                + old_bytes.subrange(offset + width, 4096);
            &&& new_bytes.len() == 4096
            &&& le_value(new_bytes.subrange(offset, offset + width)) == value as nat % pow256(width)
            &&& forall|j: int|
                0 <= j < 4096 && !(offset <= j < offset + width) ==> new_bytes[j] == old_bytes[j]
        }),
{
    lemma_le_bytes_of(value as nat, width);
    let new_bytes = old_bytes.subrange(0, offset) + le_bytes_of(value as nat, width)
        + old_bytes.subrange(offset + width, 4096);
    assert(new_bytes.subrange(offset, offset + width) =~= le_bytes_of(value as nat, width));
}


impl PciConfigSpace {
    /// Copies one capability encoding to `offset`, with its next-link and
    /// its own length filled in.
    fn write_capability(&mut self, offset: usize, image: &[u8], next: u8)
        requires
            offset + image@.len() <= 4096,
            3 <= image@.len() <= 255,
        ensures
            final(self)@ == old(self)@.subrange(0, offset as int) + image@.update(1, next).update(
                2,
                image@.len() as u8,
            ) + old(self)@.subrange(offset + image@.len(), 4096),
    {
        let len = image.len();
        let ghost linked = image@.update(1, next).update(2, len as u8);
        let mut k: usize = 0;
        while k < len
            invariant
                len == image@.len(),
                3 <= len <= 255,
                offset + len <= 4096,
                linked == image@.update(1, next).update(2, len as u8),
                k <= len,
                self@.len() == 4096,
                forall|kk: int| 0 <= kk < k ==> self@[offset + kk] == linked[kk],
                forall|j: int| 0 <= j < 4096 && !(offset <= j < offset + k) ==> self@[j] == old(self)@[j],
            decreases len - k,
        {
            let b: u8 = if k == 1 {
                next
            } else if k == 2 {
                len as u8
            } else {
                image[k]
            };
            self.bytes[offset + k] = b;
            k = k + 1;
        }
        assert(self@ =~= old(self)@.subrange(0, offset as int) + linked + old(self)@.subrange(offset + len, 4096));
    }

    /// Chains the common, notification and shared-memory capabilities from
    /// the capability pointer.
    pub fn install_capabilities(
        &mut self,
        common: &[VirtioPciCapability],
        notify: &[VirtioPciNotifyCapability],
        shared: &[VirtioPciCap64],
    ) -> (r: Result<(), &'static str>)
        ensures
            ({
                let caps = capability_images(common@, notify@, shared@, None);
                &&& caps.len() == 0 ==> r == Err::<(), &'static str>(NO_CAPABILITY) && final(self)@
                    == old(self)@
                &&& caps.len() > 0 && !all_fit(image_lens(caps)) ==> r == Err::<(), &'static str>(
                    CAPABILITIES_TOO_LARGE,
                ) && final(self)@ == old(self)@
                &&& caps.len() > 0 && all_fit(image_lens(caps)) ==> r is Ok && installed(
                    old(self)@,
                    final(self)@,
                    caps,
                ) && walks_chain(final(self)@, caps, capability_types(common@, notify@, shared@, None))
            }),
    {
        self.install_capabilities_with_pci_cfg(common, notify, shared, None)
    }

    /// Lays the capabilities out from offset 0x50, each at a multiple of
    /// four, and links them: the capability pointer names the first, each
    /// next-link the following one, the last link is zero. Nothing is written
    /// unless every capability starts at a byte offset and ends inside the space.
    pub fn install_capabilities_with_pci_cfg(
        &mut self,
        common: &[VirtioPciCapability],
        notify: &[VirtioPciNotifyCapability],
        shared: &[VirtioPciCap64],
        pci_cfg: Option<VirtioPciCfgCapability>,
    ) -> (r: Result<(), &'static str>)
        ensures
            ({
                let caps = capability_images(common@, notify@, shared@, pci_cfg);
                &&& caps.len() == 0 ==> r == Err::<(), &'static str>(NO_CAPABILITY) && final(self)@
                    == old(self)@
                &&& caps.len() > 0 && !all_fit(image_lens(caps)) ==> r == Err::<(), &'static str>(
                    CAPABILITIES_TOO_LARGE,
                ) && final(self)@ == old(self)@
                &&& caps.len() > 0 && all_fit(image_lens(caps)) ==> r is Ok && installed(
                    old(self)@,
                    final(self)@,
                    caps,
                ) && walks_chain(final(self)@, caps, capability_types(common@, notify@, shared@, pci_cfg))
            }),
    {
        let ghost caps = capability_images(common@, notify@, shared@, pci_cfg);
        let ghost lens = image_lens(caps);
        let mut encoded: Vec<Vec<u8>> = Vec::new();
        let mut t: usize = 0;
        while t < common.len()
            invariant
                t <= common@.len(),
                encoded@.len() == t,
                caps == capability_images(common@, notify@, shared@, pci_cfg),
                forall|u: int| 0 <= u < t ==> #[trigger] encoded@[u]@ == caps[u],
            decreases common@.len() - t,
        {
            let a = common[t].encode_le();
            let mut v: Vec<u8> = Vec::new();
            put_bytes(&mut v, a.as_slice());
            encoded.push(v);
            t = t + 1;
        }
        let base_n = t;
        t = 0;
        while t < notify.len()
            invariant
                t <= notify@.len(),
                base_n == common@.len(),
                encoded@.len() == base_n + t,
                caps == capability_images(common@, notify@, shared@, pci_cfg),
                forall|u: int| 0 <= u < base_n + t ==> #[trigger] encoded@[u]@ == caps[u],
            decreases notify@.len() - t,
        {
            let a = notify[t].encode_le();
            let mut v: Vec<u8> = Vec::new();
            put_bytes(&mut v, a.as_slice());
            encoded.push(v);
            t = t + 1;
        }
        let base_s = encoded.len();
        t = 0;
        while t < shared.len()
            invariant
                t <= shared@.len(),
                base_s == common@.len() + notify@.len(),
                encoded@.len() == base_s + t,
                caps == capability_images(common@, notify@, shared@, pci_cfg),
                forall|u: int| 0 <= u < base_s + t ==> #[trigger] encoded@[u]@ == caps[u],
            decreases shared@.len() - t,
        {
            let a = shared[t].encode_le();
            let mut v: Vec<u8> = Vec::new();
            put_bytes(&mut v, a.as_slice());
            encoded.push(v);
            t = t + 1;
        }
        if let Some(cap) = pci_cfg {
            let a = cap.encode_le();
            let mut v: Vec<u8> = Vec::new();
            put_bytes(&mut v, a.as_slice());
            encoded.push(v);
        }
        let n = encoded.len();
        proof {
            assert(n == caps.len());
            assert forall|u: int| 0 <= u < n implies #[trigger] encoded@[u]@ == caps[u] by {}
            lemma_image_lens(common@, notify@, shared@, pci_cfg);
        }
        if n == 0 {
            return Err(NO_CAPABILITY);
        }
        let mut locations: Vec<usize> = Vec::new();
        let mut cursor: usize = 0x50;
        let mut i: usize = 0;
        while i < n
            invariant
                n == encoded@.len(),
                n == caps.len(),
                caps == capability_images(common@, notify@, shared@, pci_cfg),
                lens == image_lens(caps),
                i <= n,
                locations@.len() == i,
                forall|u: int| 0 <= u < n ==> #[trigger] encoded@[u]@ == caps[u],
                forall|u: int| 0 <= u < n ==> 16 <= #[trigger] caps[u].len() <= 24,
                i == 0 ==> cursor == 0x50,
                i > 0 ==> cursor == cap_location(lens, (i - 1) as nat) + lens[i - 1],
                cursor <= 4096,
                forall|u: int| 0 <= u < i ==> #[trigger] locations@[u] == cap_location(lens, u as nat),
                forall|u: nat| u < i ==> #[trigger] cap_fits(lens, u),
                self@ == old(self)@,
            decreases n - i,
        {
            cursor = (cursor + 3) / 4 * 4;
            let len = encoded[i].len();
            proof {
                assert(encoded@[i as int]@ == caps[i as int]);
                assert(cursor == cap_location(lens, i as nat));
            }
            let end = cursor + len;
            if end > 4096 || cursor > 255 {
                proof {
                    assert(!cap_fits(lens, i as nat));
                }
                return Err(CAPABILITIES_TOO_LARGE);
            }
            locations.push(cursor);
            cursor = end;
            i = i + 1;
        }
        proof {
            assert forall|u: nat| u < lens.len() implies #[trigger] cap_fits(lens, u) by {}
            assert(all_fit(lens));
        }
        self.bytes[0x34] = locations[0] as u8;
        proof {
            assert(installed_upto(old(self)@, self@, caps, 0));
        }
        i = 0;
        while i < n
            invariant
                n == encoded@.len(),
                n == caps.len(),
                caps == capability_images(common@, notify@, shared@, pci_cfg),
                lens == image_lens(caps),
                i <= n,
                locations@.len() == n,
                all_fit(lens),
                forall|u: int| 0 <= u < n ==> #[trigger] encoded@[u]@ == caps[u],
                forall|u: int| 0 <= u < n ==> 16 <= #[trigger] caps[u].len() <= 24,
                forall|u: int| 0 <= u < n ==> #[trigger] locations@[u] == cap_location(lens, u as nat),
                installed_upto(old(self)@, self@, caps, i as int),
            decreases n - i,
        {
            let offset = locations[i];
            let next: u8 = if i + 1 < n {
                locations[i + 1] as u8
            } else {
                0
            };
            proof {
                assert(encoded@[i as int]@ == caps[i as int]);
                assert(cap_fits(lens, i as nat));
                assert(lens[i as int] == caps[i as int].len());
                if i + 1 < n {
                    assert(cap_fits(lens, (i + 1) as nat));
                }
            }
            let ghost start = self@;
            self.write_capability(offset, encoded[i].as_slice(), next);
            proof {
                let img = caps[i as int].update(1, next).update(2, caps[i as int].len() as u8);
                assert(img == linked_cap(caps, i as int));
                lemma_install_step(old(self)@, start, self@, caps, i as int);
            }
            i = i + 1;
        }
        proof {
            assert(installed(old(self)@, self@, caps));
            lemma_capability_walk(old(self)@, self@, common@, notify@, shared@, pci_cfg);
        }
        Ok(())
    }
}

/// The encodings of the capabilities in the order they are chained: common
/// ones, notification ones, shared-memory ones, then the configuration-access one.
pub open spec fn capability_images(
    common: Seq<VirtioPciCapability>,
    notify: Seq<VirtioPciNotifyCapability>,
    shared: Seq<VirtioPciCap64>,
    pci_cfg: Option<VirtioPciCfgCapability>,
) -> Seq<Seq<u8>> {
    common.map_values(|c: VirtioPciCapability| c.spec_encode()) + notify.map_values(
        |c: VirtioPciNotifyCapability| c.spec_encode(),
    ) + shared.map_values(|c: VirtioPciCap64| c.spec_encode()) + match pci_cfg {
        Some(c) => seq![c.spec_encode()],
        None => Seq::<Seq<u8>>::empty(),
    }
}

/// The lengths of the capability encodings.
pub open spec fn image_lens(caps: Seq<Seq<u8>>) -> Seq<nat> {
    caps.map_values(|c: Seq<u8>| c.len())
}

/// Whether every capability fits.
pub open spec fn all_fit(lens: Seq<nat>) -> bool {
    forall|i: nat| i < lens.len() ==> #[trigger] cap_fits(lens, i)
}

/// `new` is `old` with the first `m` capabilities of `caps` chained from the
/// capability pointer: each at its place with its links filled in, every byte
/// from the place of capability `m` on, and every byte before the first slot
/// but the pointer, as in `old`.
pub open spec fn installed_upto(old: Seq<u8>, new: Seq<u8>, caps: Seq<Seq<u8>>, m: int) -> bool {
    let lens = image_lens(caps);
    &&& new.len() == 4096
    &&& new[0x34] == cap_location(lens, 0) as u8
    &&& forall|i: int, k: int|
        #![trigger linked_cap(caps, i)[k]]
        0 <= i < m && 0 <= k < caps[i].len() ==> new[cap_location(lens, i as nat) + k]
            == linked_cap(caps, i)[k]
    &&& forall|j: int|
        0 <= j < 4096 && j != 0x34 && (j < 0x50 || j >= cap_location(lens, m as nat))
            ==> new[j] == old[j]
}

/// `new` is `old` with all of `caps` chained from the capability pointer.
pub open spec fn installed(old: Seq<u8>, new: Seq<u8>, caps: Seq<Seq<u8>>) -> bool {
    installed_upto(old, new, caps, caps.len() as int)
}

/// Writing capability `i` at its place extends a chain of `i` capabilities to `i + 1`.
proof fn lemma_install_step(old: Seq<u8>, start: Seq<u8>, after: Seq<u8>, caps: Seq<Seq<u8>>, i: int)
    requires
        0 <= i < caps.len(),
        all_fit(image_lens(caps)),
        forall|u: int| 0 <= u < caps.len() ==> #[trigger] caps[u].len() >= 3,
        installed_upto(old, start, caps, i),
        after == start.subrange(0, cap_location(image_lens(caps), i as nat)) + linked_cap(caps, i)
            + start.subrange(
            cap_location(image_lens(caps), i as nat) + caps[i].len(),
            4096,
        ),
    ensures
        installed_upto(old, after, caps, i + 1),
{
    let lens = image_lens(caps);
    let loc = cap_location(lens, i as nat);
    assert(cap_fits(lens, i as nat));
    assert(lens[i] == caps[i].len());
    lemma_cap_location_monotone(lens, i as nat, (i + 1) as nat);
    if i > 0 {
        lemma_cap_location_monotone(lens, 0, i as nat);
    }
    let len = caps[i].len() as int;
    let head = start.subrange(0, loc);
    let tail = start.subrange(loc + len, 4096);
    let l = linked_cap(caps, i);
    assert(l.len() == len);
    assert(head.len() == loc);
    assert(after.len() == 4096);
    assert forall|x: int| 0 <= x < loc implies after[x] == start[x] by {
        assert(after[x] == head[x]);
    }
    assert forall|x: int| loc + len <= x < 4096 implies after[x] == start[x] by {
        assert(after[x] == tail[x - loc - len]);
    }
    assert forall|k: int| 0 <= k < len implies after[loc + k] == l[k] by {
        assert(after[loc + k] == (head + l)[loc + k]);
    }
    assert forall|v: int, k: int|
        #![trigger linked_cap(caps, v)[k]]
        0 <= v < i + 1 && 0 <= k < caps[v].len() implies after[cap_location(lens, v as nat) + k]
        == linked_cap(caps, v)[k] by {
        if v < i {
            lemma_cap_location_monotone(lens, v as nat, i as nat);
            if v > 0 {
                lemma_cap_location_monotone(lens, 0, v as nat);
            }
            assert(lens[v] == caps[v].len());
            let x = cap_location(lens, v as nat) + k;
            assert(0 <= x < loc);
            assert(after[x] == start[x]);
        } else {
            assert(after[loc + k] == l[k]);
        }
    }
}

/// The capability offset reached from the capability pointer after
/// following `steps` next-links.
pub open spec fn follow_chain(bytes: Seq<u8>, steps: nat) -> int
    decreases steps,
{
    if steps == 0 {
        bytes[0x34] as int
    } else {
        bytes[follow_chain(bytes, (steps - 1) as nat) + 1] as int
    }
}

/// Each capability encoding is 16, 20 or 24 bytes long.
pub proof fn lemma_image_lens(
    common: Seq<VirtioPciCapability>,
    notify: Seq<VirtioPciNotifyCapability>,
    shared: Seq<VirtioPciCap64>,
    pci_cfg: Option<VirtioPciCfgCapability>,
)
    ensures
        forall|i: int|
            0 <= i < capability_images(common, notify, shared, pci_cfg).len() ==> {
                let l = #[trigger] capability_images(common, notify, shared, pci_cfg)[i].len();
                16 <= l <= 24 && l % 4 == 0
            },
{
    lemma_words(seq![0u32, 0u32]);
    lemma_words(seq![0u32]);
    assert forall|c: VirtioPciCapability| #[trigger] c.spec_encode().len() == 16 by {
        lemma_words(seq![c.offset, c.length]);
    }
    assert forall|c: VirtioPciNotifyCapability| #[trigger] c.spec_encode().len() == 20 by {
        lemma_words(seq![c.cap.offset, c.cap.length]);
        lemma_words(seq![c.notify_off_multiplier]);
    }
    assert forall|c: VirtioPciCap64| #[trigger] c.spec_encode().len() == 24 by {
        lemma_words(seq![c.cap.offset, c.cap.length]);
        lemma_words(seq![c.offset_hi, c.length_hi]);
    }
    assert forall|c: VirtioPciCfgCapability| #[trigger] c.spec_encode().len() == 20 by {
        lemma_words(seq![c.cap.offset, c.cap.length]);
    }
}

/// Capability offsets are multiples of four; with lengths that are
/// multiples of four, each capability starts where the previous one ends.
pub proof fn lemma_cap_location_tiles(lens: Seq<nat>, i: nat)
    requires
        forall|k: int| 0 <= k < lens.len() ==> #[trigger] lens[k] % 4 == 0,
        i < lens.len(),
    ensures
        cap_location(lens, i) % 4 == 0,
        cap_location(lens, i + 1) == cap_location(lens, i) + lens[i as int],
        cap_location(lens, 0) == 0x50,
    decreases i,
{
    if i > 0 {
        lemma_cap_location_tiles(lens, (i - 1) as nat);
    }
}

/// Capability offsets never decrease, and each capability ends before the next begins.
pub proof fn lemma_cap_location_monotone(lens: Seq<nat>, a: nat, b: nat)
    requires
        a < b,
    ensures
        cap_location(lens, a) + lens[a as int] <= cap_location(lens, b),
    decreases b,
{
    if a + 1 < b {
        lemma_cap_location_monotone(lens, a, (b - 1) as nat);
    }
}

/// After installing, following the next-links from the capability pointer
/// visits every capability in order and ends with a zero link.
pub proof fn lemma_capability_chain_linked(old: Seq<u8>, new: Seq<u8>, caps: Seq<Seq<u8>>, i: nat)
    requires
        installed(old, new, caps),
        all_fit(image_lens(caps)),
        forall|k: int| 0 <= k < caps.len() ==> #[trigger] caps[k].len() >= 16,
        i <= caps.len(),
        caps.len() > 0,
    ensures
        i < caps.len() ==> follow_chain(new, i) == cap_location(image_lens(caps), i),
        i == caps.len() ==> follow_chain(new, i) == 0,
    decreases i,
{
    let lens = image_lens(caps);
    assert(cap_fits(lens, 0));
    if i > 0 {
        let p = (i - 1) as nat;
        lemma_capability_chain_linked(old, new, caps, p);
        assert(cap_fits(lens, p));
        assert(new[cap_location(lens, p) + 1] == linked_cap(caps, p as int)[1]);
        if i < caps.len() {
            assert(cap_fits(lens, i));
        }
    }
}

/// The types of the capabilities in the order they are chained.
pub open spec fn capability_types(
    common: Seq<VirtioPciCapability>,
    notify: Seq<VirtioPciNotifyCapability>,
    shared: Seq<VirtioPciCap64>,
    pci_cfg: Option<VirtioPciCfgCapability>,
) -> Seq<u8> {
    common.map_values(|c: VirtioPciCapability| c.cfg_type) + notify.map_values(
        |c: VirtioPciNotifyCapability| c.cap.cfg_type,
    ) + shared.map_values(|c: VirtioPciCap64| c.cap.cfg_type) + match pci_cfg {
        Some(c) => seq![c.cap.cfg_type],
        None => Seq::<u8>::empty(),
    }
}

/// Walking the next-links of `bytes` from the capability pointer visits the
/// capabilities `caps` in order, each at a four-byte aligned offset from
/// 0x50 on and inside the space, with its own length, its type from
/// `types` and the rest of its bytes; the link of the last one is 0.
pub open spec fn walks_chain(bytes: Seq<u8>, caps: Seq<Seq<u8>>, types: Seq<u8>) -> bool {
    &&& forall|i: nat|
        i < caps.len() ==> {
            let p = #[trigger] follow_chain(bytes, i);
            &&& p == cap_location(image_lens(caps), i)
            &&& p % 4 == 0
            &&& 0x50 <= p
            &&& p + caps[i as int].len() <= 4096
            &&& bytes[p + 2] == caps[i as int].len()
            &&& bytes[p + 3] == types[i as int]
            &&& forall|k: int| 3 <= k < caps[i as int].len() ==> bytes[p + k] == caps[i as int][k]
        }
    &&& follow_chain(bytes, caps.len()) == 0
}

/// After the capabilities are installed, walking the chain from the
/// capability pointer visits every one of them in order (common,
/// notification, shared-memory, configuration-access), each at a four-byte
/// aligned offset from 0x50 on, with its type, its own length and the rest
/// of its bytes; the link of the last one is 0.
pub proof fn lemma_capability_walk(
    old: Seq<u8>,
    new: Seq<u8>,
    common: Seq<VirtioPciCapability>,
    notify: Seq<VirtioPciNotifyCapability>,
    shared: Seq<VirtioPciCap64>,
    pci_cfg: Option<VirtioPciCfgCapability>,
)
    requires
        capability_images(common, notify, shared, pci_cfg).len() > 0,
        all_fit(image_lens(capability_images(common, notify, shared, pci_cfg))),
        installed(old, new, capability_images(common, notify, shared, pci_cfg)),
    ensures
        capability_types(common, notify, shared, pci_cfg).len() == capability_images(common, notify, shared, pci_cfg).len(),
        walks_chain(
            new,
            capability_images(common, notify, shared, pci_cfg),
            capability_types(common, notify, shared, pci_cfg),
        ),
{
    let caps = capability_images(common, notify, shared, pci_cfg);
    let types = capability_types(common, notify, shared, pci_cfg);
    let lens = image_lens(caps);
    lemma_image_lens(common, notify, shared, pci_cfg);
    assert forall|k: int| 0 <= k < caps.len() implies #[trigger] caps[k].len() >= 16 by {}
    assert forall|k: int| 0 <= k < lens.len() implies #[trigger] lens[k] % 4 == 0 by {
        assert(lens[k] == caps[k].len());
    }
    let nc = common.len() as int;
    let nn = notify.len() as int;
    let ns = shared.len() as int;
    assert forall|i: int| 0 <= i < caps.len() implies #[trigger] caps[i][3] == types[i] by {
        if i < nc {
            assert(caps[i] == common[i].spec_encode());
            assert(types[i] == common[i].cfg_type);
        } else if i < nc + nn {
            assert(caps[i] == notify[i - nc].spec_encode());
            assert(types[i] == notify[i - nc].cap.cfg_type);
            assert(notify[i - nc].spec_encode()[3] == notify[i - nc].cap.spec_encode()[3]);
        } else if i < nc + nn + ns {
            assert(caps[i] == shared[i - nc - nn].spec_encode());
            assert(types[i] == shared[i - nc - nn].cap.cfg_type);
            assert(shared[i - nc - nn].spec_encode()[3] == shared[i - nc - nn].cap.spec_encode()[3]);
        } else {
            let c = pci_cfg->0;
            assert(caps[i] == c.spec_encode());
            assert(types[i] == c.cap.cfg_type);
            assert(c.spec_encode()[3] == c.cap.spec_encode()[3]);
        }
    }
    assert forall|i: nat| i < caps.len() implies {
        let p = #[trigger] follow_chain(new, i);
        &&& p == cap_location(lens, i)
        &&& p % 4 == 0
        &&& 0x50 <= p
        &&& p + caps[i as int].len() <= 4096
        &&& new[p + 2] == caps[i as int].len()
        &&& new[p + 3] == types[i as int]
        &&& forall|k: int| 3 <= k < caps[i as int].len() ==> new[p + k] == caps[i as int][k]
    } by {
        lemma_capability_chain_linked(old, new, caps, i);
        lemma_cap_location_tiles(lens, i);
        if i > 0 {
            lemma_cap_location_monotone(lens, 0, i);
        }
        assert(cap_fits(lens, i));
        assert(lens[i as int] == caps[i as int].len());
        let l = linked_cap(caps, i as int);
        assert(new[cap_location(lens, i) + 2] == l[2]);
        assert(new[cap_location(lens, i) + 3] == l[3]);
        assert forall|k: int| 3 <= k < caps[i as int].len() implies new[cap_location(lens, i) + k] == caps[i as int][k] by {
            assert(new[cap_location(lens, i) + k] == l[k]);
        }
    }
    lemma_capability_chain_linked(old, new, caps, caps.len());
}
} // verus!
