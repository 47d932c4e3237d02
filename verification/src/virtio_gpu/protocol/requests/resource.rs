//! 2D resource creation and backing attachment.

use crate::virtio_gpu::device::DeviceError;
use crate::virtio_gpu::protocol::formats::VirtioGpuFormat;
use crate::virtio_gpu::protocol::header::CtrlHeader;
use crate::virtio_gpu::protocol::wire::{get_u32, u32s_at};
use vstd::prelude::*;

verus! {

/// `VIRTIO_GPU_CMD_RESOURCE_CREATE_2D` request.
#[derive(Debug, Clone, Copy)]
pub struct ResourceCreate2D {
    pub header: CtrlHeader,
    pub resource_id: u32,
    pub format: VirtioGpuFormat,
    pub width: u32,
    pub height: u32,
}

impl ResourceCreate2D {
    pub const SIZE: usize = 40;

    /// Decoding: a short buffer is an invalid request, an unknown pixel format is
    /// an invalid format; otherwise the four words after the header.
    pub open spec fn spec_decode(s: Seq<u8>) -> Result<Self, DeviceError> {
        if s.len() < 40 {
            Err(DeviceError::InvalidRequest)
        } else {
            let w = u32s_at(s, 24, 4);
            match VirtioGpuFormat::spec_from_u32(w[1]) {
                None => Err(DeviceError::InvalidFormat),
                Some(format) => Ok(
                    ResourceCreate2D {
                        header: CtrlHeader::spec_parse(s),
                        resource_id: w[0],
                        format,
                        width: w[2],
                        height: w[3],
                    },
                ),
            }
        }
    }

    pub fn decode(data: &[u8]) -> (r: Result<Self, DeviceError>)
        ensures
            r == Self::spec_decode(data@),
    {
        if data.len() < 40 {
            return Err(DeviceError::InvalidRequest);
        }
        let header = CtrlHeader::decode_le(data).unwrap();
        let resource_id = get_u32(data, 24);
        let format_raw = get_u32(data, 28);
        let format = match VirtioGpuFormat::from_u32(format_raw) {
            Some(f) => f,
            None => return Err(DeviceError::InvalidFormat),
        };
        let width = get_u32(data, 32);
        let height = get_u32(data, 36);
        Ok(ResourceCreate2D { header, resource_id, format, width, height })
    }
}

/// The fixed part of `VIRTIO_GPU_CMD_RESOURCE_ATTACH_BACKING`.
#[derive(Debug, Clone)]
pub struct ResourceAttachBacking {
    pub resource_id: u32,
    pub nr_entries: u32,
}

impl ResourceAttachBacking {
    pub const SIZE: usize = 32;

    pub open spec fn spec_decode(s: Seq<u8>) -> Option<Self> {
        if s.len() < 32 {
            None
        } else {
            let w = u32s_at(s, 24, 2);
            Some(ResourceAttachBacking { resource_id: w[0], nr_entries: w[1] })
        }
    }

    pub fn decode(data: &[u8]) -> (r: Option<Self>)
        ensures
            r == Self::spec_decode(data@),
    {
        if data.len() < 32 {
            return None;
        }
        Some(ResourceAttachBacking { resource_id: get_u32(data, 24), nr_entries: get_u32(data, 28) })
    }
}

} // verus!
