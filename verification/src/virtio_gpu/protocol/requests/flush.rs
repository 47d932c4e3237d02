//! `VIRTIO_GPU_CMD_RESOURCE_FLUSH`.

use crate::virtio_gpu::protocol::wire::{get_u32, u32s_at};
use vstd::prelude::*;

verus! {

/// `VIRTIO_GPU_CMD_RESOURCE_FLUSH` request: the resource after the header,
/// then the rectangle `[x, y, width, height]`.
#[derive(Debug, Clone, Copy, PartialEq, Eq)]
pub struct ResourceFlush {
    pub resource_id: u32,
    pub rect: [u32; 4],
}

impl ResourceFlush {
    pub const SIZE: usize = 48;

    pub open spec fn spec_decode(s: Seq<u8>) -> Option<Self> {
        if s.len() < 48 {
            None
        } else {
            let w = u32s_at(s, 24, 5);
            Some(ResourceFlush { resource_id: w[0], rect: [w[1], w[2], w[3], w[4]] })
        }
    }

    pub fn decode(data: &[u8]) -> (r: Option<Self>)
        ensures
            r == Self::spec_decode(data@),
    {
        if data.len() < 48 {
            return None;
        }
        let r = ResourceFlush {
            resource_id: get_u32(data, 24),
            rect: [get_u32(data, 28), get_u32(data, 32), get_u32(data, 36), get_u32(data, 40)],
        };
        proof {
            let e = Self::spec_decode(data@)->0;
            assert(r.rect =~= e.rect);
        }
        Some(r)
    }
}

} // verus!
