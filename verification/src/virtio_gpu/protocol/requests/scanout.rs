//! `VIRTIO_GPU_CMD_SET_SCANOUT`.

use crate::virtio_gpu::protocol::wire::{get_u32, u32s_at};
use vstd::prelude::*;

verus! {

/// `VIRTIO_GPU_CMD_SET_SCANOUT` request (`struct virtio_gpu_set_scanout`):
/// after the header, the rectangle `[x, y, width, height]` at bytes 24..40,
/// the scanout at 40..44 and the resource at 44..48.
pub struct ResourceSetScanout {
    pub scanout_id: u32,
    pub resource_id: u32,
    pub rect: [u32; 4],
}

impl ResourceSetScanout {
    pub open spec fn spec_decode(s: Seq<u8>) -> Option<Self> {
        if s.len() < 48 {
            None
        } else {
            let w = u32s_at(s, 24, 6);
            Some(ResourceSetScanout { scanout_id: w[4], resource_id: w[5], rect: [w[0], w[1], w[2], w[3]] })
        }
    }

    pub fn decode(data: &[u8]) -> (r: Option<Self>)
        ensures
            r == Self::spec_decode(data@),
    {
        if data.len() < 48 {
            return None;
        }
        let x = get_u32(data, 24);
        let y = get_u32(data, 28);
        let width = get_u32(data, 32);
        let height = get_u32(data, 36);
        let scanout_id = get_u32(data, 40);
        let resource_id = get_u32(data, 44);
        let r = ResourceSetScanout { scanout_id, resource_id, rect: [x, y, width, height] };
        proof {
            let e = Self::spec_decode(data@)->0;
            assert(r.rect =~= e.rect);
        }
        Some(r)
    }
}

} // verus!
