//! Host-side 2D resources.

use crate::virtio_gpu::protocol::formats::VirtioGpuFormat;
use crate::virtio_gpu::protocol::requests::blob::MemEntry;
use vstd::prelude::*;

verus! {

/// A 2D resource: its size and format, its host pixel copy, the guest
/// memory backing it and the last rectangle flushed.
#[derive(Debug, Clone)]
pub struct Resource {
    pub id: u32,
    pub width: u32,
    pub height: u32,
    pub format: VirtioGpuFormat,
    pub data: Vec<u8>,
    pub backing: Vec<MemEntry>,
    pub dirty: Option<[u32; 4]>,
}

/// The abstract value of a resource.
pub struct ResourceModel {
    pub id: u32,
    pub width: u32,
    pub height: u32,
    pub format: VirtioGpuFormat,
    pub data: Seq<u8>,
    pub backing: Seq<MemEntry>,
    pub dirty: Option<[u32; 4]>,
}

impl View for Resource {
    type V = ResourceModel;

    open spec fn view(&self) -> ResourceModel {
        ResourceModel {
            id: self.id,
            width: self.width,
            height: self.height,
            format: self.format,
            data: self.data@,
            backing: self.backing@,
            dirty: self.dirty,
        }
    }
}

/// A resource as created: the given id, size and format, zeroed pixels, no
/// backing, nothing flushed.
pub open spec fn fresh_resource(id: u32, width: u32, height: u32, format: VirtioGpuFormat) -> ResourceModel {
    ResourceModel {
        id,
        width,
        height,
        format,
        data: Seq::new((width * height * 4) as nat, |i: int| 0u8),
        backing: Seq::empty(),
        dirty: None,
    }
}

/// Bytes of a `width` x `height` image at four bytes per pixel.
pub open spec fn image_size(width: u32, height: u32) -> int {
    width * height * 4
}

impl Resource {
    /// A resource with zeroed pixels, no backing and nothing flushed.
    pub fn new(id: u32, width: u32, height: u32, format: VirtioGpuFormat) -> (r: Self)
        requires
            image_size(width, height) <= usize::MAX,
        ensures
            r@ == fresh_resource(id, width, height, format),
    {
        let size = (width as usize) * (height as usize) * 4;
        let data = vec![0u8; size];
        let r = Resource { id, width, height, format, data, backing: Vec::new(), dirty: None };
        assert(r@.data =~= fresh_resource(id, width, height, format).data);
        assert(r@.backing =~= Seq::<MemEntry>::empty());
        r
    }

    /// The host copy of the pixels.
    pub fn pixels(&self) -> (p: &[u8])
        ensures
            p@ == self.data@,
    {
        self.data.as_slice()
    }
}

} // verus!
