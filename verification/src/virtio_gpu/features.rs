//! VirtIO-GPU feature bits, including standard transport features that are
//! negotiated through the same 64-bit feature bitmap.

use vstd::prelude::*;

verus! {

/// A set of feature bits.
#[derive(Debug, Clone, Copy, PartialEq, Eq, Structural)]
pub struct GpuFeatures {
    bits: u64,
}

/// Every feature bit this device model knows.
pub open spec fn known_feature_bits() -> u64 {
    0x3fu64 | 0x1_0000_0000u64 | 0x100_0000_0000u64
}

impl View for GpuFeatures {
    type V = u64;

    /// The raw feature bitmap.
    closed spec fn view(&self) -> u64 {
        self.bits
    }
}

impl GpuFeatures {
    /// The set with the bits of either operand.
    pub closed spec fn spec_union(self, other: GpuFeatures) -> GpuFeatures {
        GpuFeatures { bits: self.bits | other.bits }
    }

    /// The set with the bits of both operands.
    pub closed spec fn spec_intersection(self, other: GpuFeatures) -> GpuFeatures {
        GpuFeatures { bits: self.bits & other.bits }
    }

    /// The bits of the union and intersection.
    pub proof fn lemma_set_operations(self, other: GpuFeatures)
        ensures
            self.spec_union(other)@ == self@ | other@,
            self.spec_intersection(other)@ == self@ & other@,
    {
    }

    /// 3D / VirGL mode.
    #[allow(non_snake_case)]
    pub fn VIRGL() -> (f: GpuFeatures)
        ensures
            f@ == 0x1,
    {
        GpuFeatures { bits: 0x1 }
    }

    /// EDID support.
    #[allow(non_snake_case)]
    pub fn EDID() -> (f: GpuFeatures)
        ensures
            f@ == 0x2,
    {
        GpuFeatures { bits: 0x2 }
    }

    /// Resource UUID support.
    #[allow(non_snake_case)]
    pub fn RESOURCE_UUID() -> (f: GpuFeatures)
        ensures
            f@ == 0x4,
    {
        GpuFeatures { bits: 0x4 }
    }

    /// Blob resources.
    #[allow(non_snake_case)]
    pub fn RESOURCE_BLOB() -> (f: GpuFeatures)
        ensures
            f@ == 0x8,
    {
        GpuFeatures { bits: 0x8 }
    }

    /// Multiple context types and synchronization timelines. Requires VIRGL.
    #[allow(non_snake_case)]
    pub fn CONTEXT_INIT() -> (f: GpuFeatures)
        ensures
            f@ == 0x10,
    {
        GpuFeatures { bits: 0x10 }
    }

    /// `blob_alignment` configuration field is valid. Requires RESOURCE_BLOB.
    #[allow(non_snake_case)]
    pub fn BLOB_ALIGNMENT() -> (f: GpuFeatures)
        ensures
            f@ == 0x20,
    {
        GpuFeatures { bits: 0x20 }
    }

    /// VirtIO 1.x transport semantics.
    #[allow(non_snake_case)]
    pub fn VERSION_1() -> (f: GpuFeatures)
        ensures
            f@ == 0x1_0000_0000,
    {
        GpuFeatures { bits: 0x1_0000_0000 }
    }

    /// Queue reset is supported when negotiated.
    #[allow(non_snake_case)]
    pub fn RING_RESET() -> (f: GpuFeatures)
        ensures
            f@ == 0x100_0000_0000,
    {
        GpuFeatures { bits: 0x100_0000_0000 }
    }

    /// Whether every bit of `other` is set in `self`.
    pub open spec fn spec_contains(self, other: GpuFeatures) -> bool {
        self@ & other@ == other@
    }

    /// The dependency rules between feature bits.
    pub open spec fn spec_is_valid(self) -> bool {
        (self@ & 0x10 != 0x10 || self@ & 0x1 == 0x1) && (self@ & 0x20 != 0x20 || self@ & 0x8
            == 0x8)
    }

    pub fn bits(&self) -> (b: u64)
        ensures
            b == self@,
    {
        self.bits
    }

    pub fn empty() -> (f: Self)
        ensures
            f@ == 0,
    {
        GpuFeatures { bits: 0 }
    }

    /// The set of all known feature bits.
    pub fn all() -> (f: Self)
        ensures
            f@ == known_feature_bits(),
    {
        GpuFeatures { bits: 0x3f | 0x1_0000_0000 | 0x100_0000_0000 }
    }

    /// The feature set with exactly these bits; `None` when an unknown bit is set.
    pub fn from_bits(bits: u64) -> (r: Option<Self>)
        ensures
            r is Some <==> bits & !known_feature_bits() == 0,
            r matches Some(f) ==> f@ == bits,
    {
        if bits & !(0x3f | 0x1_0000_0000 | 0x100_0000_0000u64) == 0 {
            Some(GpuFeatures { bits })
        } else {
            None
        }
    }

    /// The known bits of `bits`; unknown bits are dropped.
    pub fn from_bits_truncate(bits: u64) -> (r: Self)
        ensures
            r@ == bits & known_feature_bits(),
    {
        GpuFeatures { bits: bits & (0x3f | 0x1_0000_0000 | 0x100_0000_0000u64) }
    }

    pub fn contains(&self, other: Self) -> (b: bool)
        ensures
            b == self.spec_contains(other),
    {
        self.bits & other.bits == other.bits
    }

    pub fn is_empty(&self) -> (b: bool)
        ensures
            b == (self@ == 0),
    {
        self.bits == 0
    }

    /// Bits set in either set.
    pub fn union(self, other: Self) -> (r: Self)
        ensures
            r@ == self@ | other@,
    {
        GpuFeatures { bits: self.bits | other.bits }
    }

    /// Bits set in both sets.
    pub fn intersection(self, other: Self) -> (r: Self)
        ensures
            r@ == self@ & other@,
    {
        GpuFeatures { bits: self.bits & other.bits }
    }

    /// CONTEXT_INIT requires VIRGL and BLOB_ALIGNMENT requires RESOURCE_BLOB.
    pub fn is_valid(self) -> (b: bool)
        ensures
            b == self.spec_is_valid(),
    {
        (!self.contains(Self::CONTEXT_INIT()) || self.contains(Self::VIRGL())) && (!self.contains(
            Self::BLOB_ALIGNMENT(),
        ) || self.contains(Self::RESOURCE_BLOB()))
    }

    /// The negotiated subset: the features both sides offer.
    pub fn supported_subset(self, offered: Self) -> (r: Self)
        ensures
            r@ == self@ & offered@,
    {
        GpuFeatures { bits: self.bits & offered.bits }
    }

    /// The negotiated subset is contained in both sides, and holds every feature
    /// that both sides hold.
    pub proof fn lemma_subset_is_common_part(requested: u64, offered: u64, f: u64)
        ensures
            requested & (requested & offered) == requested & offered,
            offered & (requested & offered) == requested & offered,
            requested & f == f && offered & f == f ==> (requested & offered) & f == f,
    {
        assert(requested & (requested & offered) == (requested & offered)) by (bit_vector);
        assert(offered & (requested & offered) == (requested & offered)) by (bit_vector);
        assert((requested & f == f && offered & f == f) ==> (requested & offered) & f == f)
            by (bit_vector);
    }
}

impl vstd::std_specs::ops::BitOrSpecImpl for GpuFeatures {
    open spec fn obeys_bitor_spec() -> bool {
        true
    }

    open spec fn bitor_req(self, rhs: GpuFeatures) -> bool {
        true
    }

    open spec fn bitor_spec(self, rhs: GpuFeatures) -> GpuFeatures {
        self.spec_union(rhs)
    }
}

impl vstd::std_specs::ops::BitAndSpecImpl for GpuFeatures {
    open spec fn obeys_bitand_spec() -> bool {
        true
    }

    open spec fn bitand_req(self, rhs: GpuFeatures) -> bool {
        true
    }

    open spec fn bitand_spec(self, rhs: GpuFeatures) -> GpuFeatures {
        self.spec_intersection(rhs)
    }
}

impl core::ops::BitOr for GpuFeatures {
    type Output = GpuFeatures;

    fn bitor(self, rhs: GpuFeatures) -> (r: GpuFeatures)
        ensures
            r@ == self@ | rhs@,
    {
        GpuFeatures { bits: self.bits | rhs.bits }
    }
}

impl core::ops::BitAnd for GpuFeatures {
    type Output = GpuFeatures;

    fn bitand(self, rhs: GpuFeatures) -> (r: GpuFeatures)
        ensures
            r@ == self@ & rhs@,
    {
        GpuFeatures { bits: self.bits & rhs.bits }
    }
}

} // verus!
