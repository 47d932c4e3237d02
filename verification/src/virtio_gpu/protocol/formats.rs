//! Pixel formats of 2D resources.

use vstd::prelude::*;

verus! {

/// `enum virtio_gpu_formats`.
#[derive(Clone, Copy, Debug, PartialEq, Eq)]
pub enum VirtioGpuFormat {
    B8G8R8A8Unorm,
    B8G8R8X8Unorm,
    A8R8G8B8Unorm,
    X8R8G8B8Unorm,
    R8G8B8A8Unorm,
    X8B8G8R8Unorm,
    A8B8G8R8Unorm,
    R8G8B8X8Unorm,
}

impl VirtioGpuFormat {
    /// The wire value of each format.
    pub open spec fn spec_to_u32(self) -> u32 {
        match self {
            VirtioGpuFormat::B8G8R8A8Unorm => 1,
            VirtioGpuFormat::B8G8R8X8Unorm => 2,
            VirtioGpuFormat::A8R8G8B8Unorm => 3,
            VirtioGpuFormat::X8R8G8B8Unorm => 4,
            VirtioGpuFormat::R8G8B8A8Unorm => 67,
            VirtioGpuFormat::X8B8G8R8Unorm => 68,
            VirtioGpuFormat::A8B8G8R8Unorm => 121,
            VirtioGpuFormat::R8G8B8X8Unorm => 134,
        }
    }

    /// The format whose wire value is `value`, if any.
    pub open spec fn spec_from_u32(value: u32) -> Option<VirtioGpuFormat> {
        if value == 1 {
            Some(VirtioGpuFormat::B8G8R8A8Unorm)
        } else if value == 2 {
            Some(VirtioGpuFormat::B8G8R8X8Unorm)
        } else if value == 3 {
            Some(VirtioGpuFormat::A8R8G8B8Unorm)
        } else if value == 4 {
            Some(VirtioGpuFormat::X8R8G8B8Unorm)
        } else if value == 67 {
            Some(VirtioGpuFormat::R8G8B8A8Unorm)
        } else if value == 68 {
            Some(VirtioGpuFormat::X8B8G8R8Unorm)
        } else if value == 121 {
            Some(VirtioGpuFormat::A8B8G8R8Unorm)
        } else if value == 134 {
            Some(VirtioGpuFormat::R8G8B8X8Unorm)
        } else {
            None
        }
    }

    pub fn to_u32(self) -> (v: u32)
        ensures
            v == self.spec_to_u32(),
    {
        match self {
            VirtioGpuFormat::B8G8R8A8Unorm => 1,
            VirtioGpuFormat::B8G8R8X8Unorm => 2,
            VirtioGpuFormat::A8R8G8B8Unorm => 3,
            VirtioGpuFormat::X8R8G8B8Unorm => 4,
            VirtioGpuFormat::R8G8B8A8Unorm => 67,
            VirtioGpuFormat::X8B8G8R8Unorm => 68,
            VirtioGpuFormat::A8B8G8R8Unorm => 121,
            VirtioGpuFormat::R8G8B8X8Unorm => 134,
        }
    }

    pub fn from_u32(value: u32) -> (r: Option<Self>)
        ensures
            r == Self::spec_from_u32(value),
    {
        if value == 1 {
            Some(VirtioGpuFormat::B8G8R8A8Unorm)
        } else if value == 2 {
            Some(VirtioGpuFormat::B8G8R8X8Unorm)
        } else if value == 3 {
            Some(VirtioGpuFormat::A8R8G8B8Unorm)
        } else if value == 4 {
            Some(VirtioGpuFormat::X8R8G8B8Unorm)
        } else if value == 67 {
            Some(VirtioGpuFormat::R8G8B8A8Unorm)
        } else if value == 68 {
            Some(VirtioGpuFormat::X8B8G8R8Unorm)
        } else if value == 121 {
            Some(VirtioGpuFormat::A8B8G8R8Unorm)
        } else if value == 134 {
            Some(VirtioGpuFormat::R8G8B8X8Unorm)
        } else {
            None
        }
    }

    /// A format's wire value maps back to the format, and only known values map
    /// to formats.
    pub proof fn lemma_round_trip(self, value: u32)
        ensures
            Self::spec_from_u32(self.spec_to_u32()) == Some(self),
            Self::spec_from_u32(value) matches Some(f) ==> f.spec_to_u32() == value,
    {
    }
}

} // verus!
