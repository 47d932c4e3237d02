//! VirtIO PCI capability structures and identifiers.

use crate::virtio_gpu::protocol::wire::{
    get_u32, lemma_le_codec, lemma_u32s_at_words, lemma_u32s_at_words_end, lemma_words, put_bytes,
    put_words, to_array, u32s_at, words,
};
use vstd::prelude::*;

pub mod common;

pub use crate::virtio_gpu::transport::pci_transport::{PciTransportError, VirtioPciTransport};

verus! {

pub const PCI_VENDOR_ID_VIRTIO: u16 = 0x1af4;

/// Modern VirtIO PCI device id of a GPU (0x1040 + device type 16).
pub const PCI_DEVICE_ID_GPU: u16 = 0x1050;

/// Vendor-specific PCI capability id.
pub const PCI_CAP_ID_VNDR: u8 = 0x09;

pub const VIRTIO_PCI_CAP_COMMON_CFG: u8 = 1;
pub const VIRTIO_PCI_CAP_NOTIFY_CFG: u8 = 2;
pub const VIRTIO_PCI_CAP_ISR_CFG: u8 = 3;
pub const VIRTIO_PCI_CAP_DEVICE_CFG: u8 = 4;
pub const VIRTIO_PCI_CAP_PCI_CFG: u8 = 5;
pub const VIRTIO_PCI_CAP_SHARED_MEMORY_CFG: u8 = 8;

/// A memory BAR: its index, absolute base address and size.
#[derive(Debug, Clone, Copy, PartialEq, Eq, Structural)]
pub struct PciBar {
    pub index: u8,
    pub base: u64,
    pub size: u64,
}

impl PciBar {
    pub fn new(index: u8, base: u64, size: u64) -> (b: Self)
        ensures
            b == (PciBar { index, base, size }),
    {
        PciBar { index, base, size }
    }
}

/// `struct virtio_pci_cap`: 16 bytes on the wire, the first being the
/// vendor-specific capability id.
#[derive(Debug, Clone, Copy, PartialEq, Eq, Structural)]
pub struct VirtioPciCapability {
    pub cap_next: u8,
    pub cap_len: u8,
    pub cfg_type: u8,
    pub bar: u8,
    pub id: u8,
    pub offset: u32,
    pub length: u32,
}

impl VirtioPciCapability {
    pub const SIZE: usize = 16;

    pub open spec fn spec_encode(self) -> Seq<u8> {
        seq![PCI_CAP_ID_VNDR, self.cap_next, self.cap_len, self.cfg_type, self.bar, self.id, 0u8, 0u8]
            + words(seq![self.offset, self.length])
    }

    /// The capability stored in the first 16 bytes of `s`.
    pub open spec fn spec_parse(s: Seq<u8>) -> VirtioPciCapability {
        let w = u32s_at(s, 8, 2);
        VirtioPciCapability {
            cap_next: s[1],
            cap_len: s[2],
            cfg_type: s[3],
            bar: s[4],
            id: s[5],
            offset: w[0],
            length: w[1],
        }
    }

    pub fn new(cfg_type: u8, bar: u8, offset: u32, length: u32) -> (c: Self)
        ensures
            c == (VirtioPciCapability { cap_next: 0, cap_len: 16, cfg_type, bar, id: 0, offset, length }),
    {
        Self::new_with_id(cfg_type, bar, 0, offset, length)
    }

    pub fn new_with_id(cfg_type: u8, bar: u8, id: u8, offset: u32, length: u32) -> (c: Self)
        ensures
            c == (VirtioPciCapability { cap_next: 0, cap_len: 16, cfg_type, bar, id, offset, length }),
    {
        VirtioPciCapability { cap_next: 0, cap_len: 16, cfg_type, bar, id, offset, length }
    }

    pub fn encode_le(self) -> (out: [u8; 16])
        ensures
            out@ == self.spec_encode(),
    {
        let head = [PCI_CAP_ID_VNDR, self.cap_next, self.cap_len, self.cfg_type, self.bar, self.id, 0u8, 0u8];
        let mut v: Vec<u8> = Vec::new();
        put_bytes(&mut v, head.as_slice());
        let w = [self.offset, self.length];
        put_words(&mut v, w.as_slice());
        proof {
            assert(head@ =~= seq![PCI_CAP_ID_VNDR, self.cap_next, self.cap_len, self.cfg_type, self.bar, self.id, 0u8, 0u8]);
            assert(w@ =~= seq![self.offset, self.length]);
            lemma_words(seq![self.offset, self.length]);
        }
        to_array::<16>(&v)
    }

    pub fn decode_le(bytes: &[u8]) -> (r: Option<Self>)
        ensures
            r == (if bytes@.len() < 16 {
                None::<VirtioPciCapability>
            } else {
                Some(Self::spec_parse(bytes@))
            }),
    {
        if bytes.len() < 16 {
            return None;
        }
        Some(
            VirtioPciCapability {
                cap_next: bytes[1],
                cap_len: bytes[2],
                cfg_type: bytes[3],
                bar: bytes[4],
                id: bytes[5],
                offset: get_u32(bytes, 8),
                length: get_u32(bytes, 12),
            },
        )
    }

    /// Parsing an encoded capability followed by anything gives it back.
    pub proof fn lemma_round_trip(self, rest: Seq<u8>)
        ensures
            self.spec_encode().len() == 16,
            Self::spec_parse(self.spec_encode() + rest) == self,
    {
        let head = seq![PCI_CAP_ID_VNDR, self.cap_next, self.cap_len, self.cfg_type, self.bar, self.id, 0u8, 0u8];
        lemma_u32s_at_words(head, seq![self.offset, self.length], rest);
    }
}

/// `struct virtio_pci_notify_cap`: a capability and the notify offset
/// multiplier; 20 bytes on the wire.
#[derive(Debug, Clone, Copy, PartialEq, Eq, Structural)]
pub struct VirtioPciNotifyCapability {
    pub cap: VirtioPciCapability,
    pub notify_off_multiplier: u32,
}

impl VirtioPciNotifyCapability {
    pub const SIZE: usize = 20;

    pub open spec fn spec_encode(self) -> Seq<u8> {
        self.cap.spec_encode() + words(seq![self.notify_off_multiplier])
    }

    pub fn new(bar: u8, offset: u32, length: u32, notify_off_multiplier: u32) -> (c: Self)
        ensures
            c.cap == (VirtioPciCapability {
                cap_next: 0,
                cap_len: 20,
                cfg_type: VIRTIO_PCI_CAP_NOTIFY_CFG,
                bar,
                id: 0,
                offset,
                length,
            }),
            c.notify_off_multiplier == notify_off_multiplier,
    {
        VirtioPciNotifyCapability {
            cap: VirtioPciCapability {
                cap_next: 0,
                cap_len: 20,
                cfg_type: VIRTIO_PCI_CAP_NOTIFY_CFG,
                bar,
                id: 0,
                offset,
                length,
            },
            notify_off_multiplier,
        }
    }

    pub fn encode_le(self) -> (out: [u8; 20])
        ensures
            out@ == self.spec_encode(),
    {
        let c = self.cap.encode_le();
        let mut v: Vec<u8> = Vec::new();
        put_bytes(&mut v, c.as_slice());
        let w = [self.notify_off_multiplier];
        put_words(&mut v, w.as_slice());
        proof {
            assert(w@ =~= seq![self.notify_off_multiplier]);
            lemma_words(seq![self.notify_off_multiplier]);
            self.cap.lemma_round_trip(Seq::<u8>::empty());
        }
        to_array::<20>(&v)
    }

    pub fn decode_le(bytes: &[u8]) -> (r: Option<Self>)
        ensures
            r == (if bytes@.len() < 20 {
                None::<VirtioPciNotifyCapability>
            } else {
                Some(
                    VirtioPciNotifyCapability {
                        cap: VirtioPciCapability::spec_parse(bytes@),
                        notify_off_multiplier: u32s_at(bytes@, 16, 1)[0],
                    },
                )
            }),
    {
        if bytes.len() < 20 {
            return None;
        }
        let cap = VirtioPciCapability::decode_le(bytes).unwrap();
        Some(VirtioPciNotifyCapability { cap, notify_off_multiplier: get_u32(bytes, 16) })
    }

    /// Decoding the encoding of a notify capability gives it back.
    pub proof fn lemma_round_trip(self)
        ensures
            self.spec_encode().len() == 20,
            VirtioPciCapability::spec_parse(self.spec_encode()) == self.cap,
            u32s_at(self.spec_encode(), 16, 1)[0] == self.notify_off_multiplier,
    {
        self.cap.lemma_round_trip(words(seq![self.notify_off_multiplier]));
        lemma_u32s_at_words_end(self.cap.spec_encode(), seq![self.notify_off_multiplier]);
    }
}

/// `struct virtio_pci_cap64`: a capability whose offset and length carry 32
/// more high bits each; 24 bytes on the wire.
#[derive(Debug, Clone, Copy, PartialEq, Eq, Structural)]
pub struct VirtioPciCap64 {
    pub cap: VirtioPciCapability,
    pub offset_hi: u32,
    pub length_hi: u32,
}

impl VirtioPciCap64 {
    pub const SIZE: usize = 24;

    pub open spec fn spec_offset(self) -> int {
        self.offset_hi * 0x1_0000_0000 + self.cap.offset
    }

    pub open spec fn spec_length(self) -> int {
        self.length_hi * 0x1_0000_0000 + self.cap.length
    }

    pub open spec fn spec_encode(self) -> Seq<u8> {
        self.cap.spec_encode() + words(seq![self.offset_hi, self.length_hi])
    }

    /// A shared-memory capability for region `id` of `bar`.
    pub fn new(bar: u8, id: u8, offset: u64, length: u64) -> (c: Self)
        ensures
            c.cap.cfg_type == VIRTIO_PCI_CAP_SHARED_MEMORY_CFG,
            c.cap.bar == bar,
            c.cap.id == id,
            c.cap.cap_len == 24,
            c.cap.cap_next == 0,
            c.spec_offset() == offset,
            c.spec_length() == length,
    {
        VirtioPciCap64 {
            cap: VirtioPciCapability {
                cap_next: 0,
                cap_len: 24,
                cfg_type: VIRTIO_PCI_CAP_SHARED_MEMORY_CFG,
                bar,
                id,
                offset: (offset % 0x1_0000_0000) as u32,
                length: (length % 0x1_0000_0000) as u32,
            },
            offset_hi: (offset / 0x1_0000_0000) as u32,
            length_hi: (length / 0x1_0000_0000) as u32,
        }
    }

    pub fn offset(&self) -> (o: u64)
        ensures
            o == self.spec_offset(),
    {
        (self.offset_hi as u64) * 0x1_0000_0000 + (self.cap.offset as u64)
    }

    pub fn length(&self) -> (l: u64)
        ensures
            l == self.spec_length(),
    {
        (self.length_hi as u64) * 0x1_0000_0000 + (self.cap.length as u64)
    }

    pub fn encode_le(self) -> (out: [u8; 24])
        ensures
            out@ == self.spec_encode(),
    {
        let c = self.cap.encode_le();
        let mut v: Vec<u8> = Vec::new();
        put_bytes(&mut v, c.as_slice());
        let w = [self.offset_hi, self.length_hi];
        put_words(&mut v, w.as_slice());
        proof {
            assert(w@ =~= seq![self.offset_hi, self.length_hi]);
            lemma_words(seq![self.offset_hi, self.length_hi]);
            self.cap.lemma_round_trip(Seq::<u8>::empty());
        }
        to_array::<24>(&v)
    }

    pub fn decode_le(bytes: &[u8]) -> (r: Option<Self>)
        ensures
            r == (if bytes@.len() < 24 {
                None::<VirtioPciCap64>
            } else {
                Some(
                    VirtioPciCap64 {
                        cap: VirtioPciCapability::spec_parse(bytes@),
                        offset_hi: u32s_at(bytes@, 16, 2)[0],
                        length_hi: u32s_at(bytes@, 16, 2)[1],
                    },
                )
            }),
    {
        if bytes.len() < 24 {
            return None;
        }
        let cap = VirtioPciCapability::decode_le(bytes).unwrap();
        Some(VirtioPciCap64 { cap, offset_hi: get_u32(bytes, 16), length_hi: get_u32(bytes, 20) })
    }

    /// Decoding the encoding of a 64-bit capability gives it back.
    pub proof fn lemma_round_trip(self)
        ensures
            self.spec_encode().len() == 24,
            VirtioPciCapability::spec_parse(self.spec_encode()) == self.cap,
            u32s_at(self.spec_encode(), 16, 2) == seq![self.offset_hi, self.length_hi],
    {
        self.cap.lemma_round_trip(words(seq![self.offset_hi, self.length_hi]));
        lemma_u32s_at_words_end(self.cap.spec_encode(), seq![self.offset_hi, self.length_hi]);
    }
}

} // verus!
