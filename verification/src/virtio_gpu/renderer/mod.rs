pub mod display;
pub mod framebuffer;
pub mod memory_type;
pub mod software;

pub use framebuffer::{FrameBuffer, FrameModel};
pub use software::SoftwareRenderer;
