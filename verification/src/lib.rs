//! VirtIO-GPU device model: wire protocol, validation rules, transport
//! configuration space, guest memory and the host-side Venus state machine,
//! and the configuration edits of the Waydroid Venus launcher.

pub mod virtio_gpu;
pub mod waydroid;
