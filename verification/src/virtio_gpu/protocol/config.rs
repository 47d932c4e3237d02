//! The device-specific configuration of a VirtIO-GPU device.

use vstd::prelude::*;

verus! {

/// `virtio_gpu_config`, and the blob alignment the device announces.
#[derive(Debug, Clone, Copy, PartialEq, Eq, Structural)]
pub struct GpuConfig {
    pub events_read: u32,
    pub events_clear: u32,
    pub num_scanouts: u32,
    pub num_capsets: u32,
    pub blob_alignment: Option<u32>,
}

} // verus!
