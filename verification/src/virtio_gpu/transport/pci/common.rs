//! The register layout of the common configuration structure.

use vstd::prelude::*;

verus! {

/// Register offsets of the common configuration structure
/// (`struct virtio_pci_common_cfg`), followed by the shared-memory selection
/// registers: select a region by id, then read its length and base as 32-bit halves.
pub struct CommonConfig;

impl CommonConfig {
    pub const DEVICE_FEATURE_SELECT: u64 = 0;
    pub const DEVICE_FEATURE: u64 = 4;
    pub const DRIVER_FEATURE_SELECT: u64 = 8;
    pub const DRIVER_FEATURE: u64 = 12;
    pub const MSIX_CONFIG: u64 = 16;
    pub const NUM_QUEUES: u64 = 18;
    pub const DEVICE_STATUS: u64 = 20;
    pub const CONFIG_GENERATION: u64 = 21;
    pub const QUEUE_SELECT: u64 = 22;
    pub const QUEUE_SIZE: u64 = 24;
    pub const QUEUE_MSIX_VECTOR: u64 = 26;
    pub const QUEUE_ENABLE: u64 = 28;
    pub const QUEUE_NOTIFY_OFF: u64 = 30;
    pub const QUEUE_DESC: u64 = 32;
    pub const QUEUE_DRIVER: u64 = 40;
    pub const QUEUE_DEVICE: u64 = 48;
    pub const QUEUE_NOTIFY_DATA: u64 = 56;
    pub const QUEUE_RESET: u64 = 58;
    pub const SHM_SEL: u64 = 60;
    pub const SHM_LEN_LOW: u64 = 64;
    pub const SHM_LEN_HIGH: u64 = 68;
    pub const SHM_BASE_LOW: u64 = 72;
    pub const SHM_BASE_HIGH: u64 = 76;
    pub const SIZE: u64 = 80;
}

} // verus!
