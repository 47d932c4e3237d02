//! A renderer that keeps the presented image in host memory.

use crate::virtio_gpu::device::DeviceError;
use crate::virtio_gpu::renderer::framebuffer::{black_frame, copy_over, FrameBuffer, FrameModel};
use crate::virtio_gpu::resource::Resource;
use vstd::prelude::*;

verus! {

/// The image a resource shows: its size and pixels.
pub open spec fn resource_frame(r: Resource) -> FrameModel {
    FrameModel { width: r.width, height: r.height, data: r.data@ }
}

/// Renders by copying resource pixels into its own frame buffer.
#[derive(Debug)]
pub struct SoftwareRenderer {
    framebuffer: FrameBuffer,
}

impl View for SoftwareRenderer {
    type V = FrameModel;

    /// The frame buffer this renderer presents.
    closed spec fn view(&self) -> FrameModel {
        self.framebuffer@
    }
}

impl SoftwareRenderer {
    pub fn new(width: u32, height: u32) -> (r: Self)
        requires
            width * height * 4 <= usize::MAX,
        ensures
            r@ == black_frame(width, height),
    {
        SoftwareRenderer { framebuffer: FrameBuffer::new(width, height) }
    }

    /// Copies `data` over the start of the frame buffer.
    pub fn upload(&mut self, data: &[u8])
        ensures
            final(self)@ == (FrameModel { data: copy_over(old(self)@.data, data@), ..old(self)@ }),
    {
        self.framebuffer.update(data);
    }

    pub fn pixels(&self) -> (p: &[u8])
        ensures
            p@ == self@.data,
    {
        self.framebuffer.data.as_slice()
    }

    /// Width and height of the frame buffer.
    pub fn size(&self) -> (s: (u32, u32))
        ensures
            s == (self@.width, self@.height),
    {
        (self.framebuffer.width, self.framebuffer.height)
    }

    pub fn framebuffer(&self) -> (f: &FrameBuffer)
        ensures
            f@ == self@,
    {
        &self.framebuffer
    }

    pub fn framebuffer_mut(&mut self) -> (f: &mut FrameBuffer)
        ensures
            f@ == old(self)@,
            final(self)@ == final(f)@,
    {
        &mut self.framebuffer
    }

    /// Resizes the frame buffer to the resource and shows its pixels.
    pub fn transfer_resource(&mut self, resource: &Resource) -> (r: Result<(), DeviceError>)
        requires
            resource.width * resource.height * 4 <= usize::MAX,
            resource.data@.len() == resource.width * resource.height * 4,
        ensures
            r is Ok,
            final(self)@ == resource_frame(*resource),
    {
        self.framebuffer = FrameBuffer::new(resource.width, resource.height);
        self.upload(resource.pixels());
        proof {
            assert(resource.data@.subrange(0, resource.data@.len() as int) =~= resource.data@);
        }
        Ok(())
    }

    /// Shows a flushed resource: the same as a transfer.
    pub fn flush_resource(&mut self, resource: &Resource) -> (r: Result<(), DeviceError>)
        requires
            resource.width * resource.height * 4 <= usize::MAX,
            resource.data@.len() == resource.width * resource.height * 4,
        ensures
            r is Ok,
            final(self)@ == resource_frame(*resource),
    {
        self.transfer_resource(resource)
    }
}

} // verus!
