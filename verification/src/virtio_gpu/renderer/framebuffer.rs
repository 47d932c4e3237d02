//! The host-side image a renderer presents.

use vstd::prelude::*;

verus! {

/// The abstract value of a frame buffer: its size and its bytes.
pub struct FrameModel {
    pub width: u32,
    pub height: u32,
    pub data: Seq<u8>,
}

/// A black `width` x `height` image.
pub open spec fn black_frame(width: u32, height: u32) -> FrameModel {
    FrameModel { width, height, data: Seq::new((width * height * 4) as nat, |i: int| 0u8) }
}

/// The bytes after copying `src` over the start of `dst`, as far as both reach.
pub open spec fn copy_over(dst: Seq<u8>, src: Seq<u8>) -> Seq<u8> {
    if src.len() < dst.len() {
        src + dst.subrange(src.len() as int, dst.len() as int)
    } else {
        src.subrange(0, dst.len() as int)
    }
}

/// A `width` x `height` image at four bytes per pixel.
#[derive(Debug, Clone)]
pub struct FrameBuffer {
    pub width: u32,
    pub height: u32,
    pub data: Vec<u8>,
}

impl View for FrameBuffer {
    type V = FrameModel;

    open spec fn view(&self) -> FrameModel {
        FrameModel { width: self.width, height: self.height, data: self.data@ }
    }
}

impl FrameBuffer {
    /// A black image.
    pub fn new(width: u32, height: u32) -> (f: Self)
        requires
            width * height * 4 <= usize::MAX,
        ensures
            f@ == black_frame(width, height),
    {
        let size = (width as usize) * (height as usize) * 4;
        let data = vec![0u8; size];
        let f = FrameBuffer { width, height, data };
        assert(f@.data =~= black_frame(width, height).data);
        f
    }

    /// Copies `data` over the start of the image; bytes past the end of
    /// either are left out.
    pub fn update(&mut self, data: &[u8])
        ensures
            final(self)@ == (FrameModel { data: copy_over(old(self)@.data, data@), ..old(self)@ }),
    {
        let n = if data.len() < self.data.len() {
            data.len()
        } else {
            self.data.len()
        };
        let mut i: usize = 0;
        while i < n
            invariant
                n <= data@.len(),
                n <= self.data@.len(),
                n == (if data@.len() < old(self).data@.len() { data@.len() } else { old(self).data@.len() }),
                i <= n,
                self.width == old(self).width,
                self.height == old(self).height,
                self.data@.len() == old(self).data@.len(),
                forall|j: int| 0 <= j < i ==> self.data@[j] == data@[j],
                forall|j: int| i <= j < self.data@.len() ==> self.data@[j] == old(self).data@[j],
            decreases n - i,
        {
            self.data.set(i, data[i]);
            i = i + 1;
        }
        assert(self.data@ =~= copy_over(old(self)@.data, data@));
    }
}

} // verus!
