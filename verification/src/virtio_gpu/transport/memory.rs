//! Fixed-size guest memory.

use crate::virtio_gpu::protocol::wire::{le16, le32, le64, lemma_le_codec};
use vstd::prelude::*;

verus! {

#[derive(Clone, Copy, Debug, Default, PartialEq, Eq, Structural)]
pub struct GuestAddress(pub u64);

impl GuestAddress {
    pub fn new(value: u64) -> (a: Self)
        ensures
            a.0 == value,
    {
        GuestAddress(value)
    }

    /// The address `offset` bytes further on.
    pub fn offset(self, offset: usize) -> (a: Self)
        requires
            self.0 + offset <= u64::MAX,
        ensures
            a.0 == self.0 + offset,
    {
        GuestAddress(self.0 + offset as u64)
    }
}

#[derive(Debug, PartialEq, Eq, Clone, Copy, Structural)]
pub enum GuestMemoryError {
    OutOfBounds,
    AddressOverflow,
}

/// Where `len` bytes at `addr` start inside a memory of `size` bytes based at
/// `base`: before the base or past the end is out of bounds, an offset that does
/// not fit in `usize` is an overflow.
pub open spec fn spec_offset(base: u64, size: nat, addr: u64, len: nat) -> Result<
    usize,
    GuestMemoryError,
> {
    if addr < base {
        Err(GuestMemoryError::OutOfBounds)
    } else if addr - base > usize::MAX {
        Err(GuestMemoryError::AddressOverflow)
    } else if addr - base + len > usize::MAX {
        Err(GuestMemoryError::AddressOverflow)
    } else if addr - base + len > size {
        Err(GuestMemoryError::OutOfBounds)
    } else {
        Ok((addr - base) as usize)
    }
}

/// The abstract value of guest memory: its base address and its bytes.
pub struct MemoryModel {
    pub base: u64,
    pub bytes: Seq<u8>,
}

impl MemoryModel {
    /// Where `len` bytes at `addr` start, or why they cannot be accessed.
    pub open spec fn offset_of(self, addr: u64, len: nat) -> Result<usize, GuestMemoryError> {
        spec_offset(self.base, self.bytes.len(), addr, len)
    }

    /// The bytes after writing `data` at offset `off`.
    pub open spec fn written(self, off: int, data: Seq<u8>) -> MemoryModel {
        MemoryModel {
            base: self.base,
            bytes: self.bytes.subrange(0, off) + data + self.bytes.subrange(
                off + data.len(),
                self.bytes.len() as int,
            ),
        }
    }
}

/// Fixed-size guest memory.
///
/// The allocation is made once and never resized. A clone is a copy of its
/// own: writes through one are not seen through the other.
#[derive(Clone, Debug)]
pub struct GuestMemory {
    base: GuestAddress,
    data: Vec<u8>,
}

impl View for GuestMemory {
    type V = MemoryModel;

    closed spec fn view(&self) -> MemoryModel {
        MemoryModel { base: self.base.0, bytes: self.data@ }
    }
}

impl GuestMemory {
    /// `size` zero bytes starting at `base`.
    pub fn new(base: GuestAddress, size: usize) -> (m: Self)
        ensures
            m@.base == base.0,
            m@.bytes == Seq::new(size as nat, |i: int| 0u8),
    {
        let data = vec![0u8; size];
        proof {
            assert(data@ =~= Seq::new(size as nat, |i: int| 0u8));
        }
        GuestMemory { base, data }
    }

    pub fn base(&self) -> (a: GuestAddress)
        ensures
            a.0 == self@.base,
    {
        self.base
    }

    pub fn len(&self) -> (n: usize)
        ensures
            n == self@.bytes.len(),
    {
        self.data.len()
    }

    pub fn is_empty(&self) -> (b: bool)
        ensures
            b == (self@.bytes.len() == 0),
    {
        self.len() == 0
    }

    fn offset(&self, addr: GuestAddress, len: usize) -> (r: Result<usize, GuestMemoryError>)
        ensures
            r == self@.offset_of(addr.0, len as nat),
    {
        let offset = match addr.0.checked_sub(self.base.0) {
            Some(o) => o,
            None => return Err(GuestMemoryError::OutOfBounds),
        };
        if offset > usize::MAX as u64 {
            return Err(GuestMemoryError::AddressOverflow);
        }
        let offset = offset as usize;
        let end = match offset.checked_add(len) {
            Some(e) => e,
            None => return Err(GuestMemoryError::AddressOverflow),
        };
        if end > self.data.len() {
            return Err(GuestMemoryError::OutOfBounds);
        }
        Ok(offset)
    }

    /// Copies the bytes at `addr` into `out`.
    pub fn read(&self, addr: GuestAddress, out: &mut [u8]) -> (r: Result<(), GuestMemoryError>)
        ensures
            match self@.offset_of(addr.0, old(out)@.len()) {
                Ok(off) => r is Ok && final(out)@ == self@.bytes.subrange(
                    off as int,
                    off + old(out)@.len(),
                ),
                Err(e) => r == Err::<(), GuestMemoryError>(e) && final(out)@ == old(out)@,
            },
    {
        let n = out.len();
        let offset = self.offset(addr, n)?;
        let size = self.data.len();
        let mut i: usize = 0;
        while i < n
            invariant
                i <= n,
                n == out@.len(),
                size == self.data@.len(),
                offset + n <= self.data@.len(),
                forall|j: int| 0 <= j < i ==> out@[j] == self.data@[offset + j],
            decreases n - i,
        {
            out[i] = self.data[offset + i];
            i = i + 1;
        }
        assert(out@ =~= self@.bytes.subrange(offset as int, offset + n));
        Ok(())
    }

    /// Copies `data` into guest memory at `addr`.
    pub fn write(&mut self, addr: GuestAddress, data: &[u8]) -> (r: Result<(), GuestMemoryError>)
        ensures
            match old(self)@.offset_of(addr.0, data@.len()) {
                Ok(off) => r is Ok && final(self)@ == old(self)@.written(off as int, data@),
                Err(e) => r == Err::<(), GuestMemoryError>(e) && final(self)@ == old(self)@,
            },
    {
        let n = data.len();
        let offset = self.offset(addr, n)?;
        let size = self.data.len();
        let mut i: usize = 0;
        while i < n
            invariant
                i <= n,
                n == data@.len(),
                size == self.data@.len(),
                offset + n <= old(self)@.bytes.len(),
                self.base == old(self).base,
                self.data@.len() == old(self)@.bytes.len(),
                forall|j: int| 0 <= j < i ==> self.data@[offset + j] == data@[j],
                forall|j: int|
                    0 <= j < self.data@.len() && !(offset <= j < offset + i) ==> self.data@[j]
                        == old(self)@.bytes[j],
            decreases n - i,
        {
            self.data.set(offset + i, data[i]);
            i = i + 1;
        }
        assert(self@.bytes =~= old(self)@.written(offset as int, data@).bytes);
        Ok(())
    }

    /// The `len` bytes at `addr`.
    pub fn read_slice(&self, addr: GuestAddress, len: usize) -> (r: Result<Vec<u8>, GuestMemoryError>)
        ensures
            match self@.offset_of(addr.0, len as nat) {
                Ok(off) => r matches Ok(v) && v@ == self@.bytes.subrange(off as int, off + len),
                Err(e) => r == Err::<Vec<u8>, GuestMemoryError>(e),
            },
    {
        let mut buffer = vec![0u8; len];
        self.read(addr, buffer.as_mut_slice())?;
        Ok(buffer)
    }

    pub fn write_slice(&mut self, addr: GuestAddress, data: &[u8]) -> (r: Result<(), GuestMemoryError>)
        ensures
            match old(self)@.offset_of(addr.0, data@.len()) {
                Ok(off) => r is Ok && final(self)@ == old(self)@.written(off as int, data@),
                Err(e) => r == Err::<(), GuestMemoryError>(e) && final(self)@ == old(self)@,
            },
    {
        self.write(addr, data)
    }

    pub fn read_u16(&self, addr: GuestAddress) -> (r: Result<u16, GuestMemoryError>)
        ensures
            match self@.offset_of(addr.0, 2) {
                Ok(off) => r matches Ok(v) && le16(v) == self@.bytes.subrange(off as int, off + 2),
                Err(e) => r == Err::<u16, GuestMemoryError>(e),
            },
    {
        let mut bytes = vec![0u8; 2];
        self.read(addr, bytes.as_mut_slice())?;
        proof {
            lemma_le_codec();
        }
        Ok(vstd::bytes::u16_from_le_bytes(bytes.as_slice()))
    }

    pub fn read_u32(&self, addr: GuestAddress) -> (r: Result<u32, GuestMemoryError>)
        ensures
            match self@.offset_of(addr.0, 4) {
                Ok(off) => r matches Ok(v) && le32(v) == self@.bytes.subrange(off as int, off + 4),
                Err(e) => r == Err::<u32, GuestMemoryError>(e),
            },
    {
        let mut bytes = vec![0u8; 4];
        self.read(addr, bytes.as_mut_slice())?;
        proof {
            lemma_le_codec();
        }
        Ok(vstd::bytes::u32_from_le_bytes(bytes.as_slice()))
    }

    pub fn read_u64(&self, addr: GuestAddress) -> (r: Result<u64, GuestMemoryError>)
        ensures
            match self@.offset_of(addr.0, 8) {
                Ok(off) => r matches Ok(v) && le64(v) == self@.bytes.subrange(off as int, off + 8),
                Err(e) => r == Err::<u64, GuestMemoryError>(e),
            },
    {
        let mut bytes = vec![0u8; 8];
        self.read(addr, bytes.as_mut_slice())?;
        proof {
            lemma_le_codec();
        }
        Ok(vstd::bytes::u64_from_le_bytes(bytes.as_slice()))
    }

    pub fn write_u16(&mut self, addr: GuestAddress, value: u16) -> (r: Result<(), GuestMemoryError>)
        ensures
            match old(self)@.offset_of(addr.0, 2) {
                Ok(off) => r is Ok && final(self)@ == old(self)@.written(off as int, le16(value)),
                Err(e) => r == Err::<(), GuestMemoryError>(e) && final(self)@ == old(self)@,
            },
    {
        let b = vstd::bytes::u16_to_le_bytes(value);
        proof {
            lemma_le_codec();
        }
        self.write(addr, b.as_slice())
    }

    pub fn write_u32(&mut self, addr: GuestAddress, value: u32) -> (r: Result<(), GuestMemoryError>)
        ensures
            match old(self)@.offset_of(addr.0, 4) {
                Ok(off) => r is Ok && final(self)@ == old(self)@.written(off as int, le32(value)),
                Err(e) => r == Err::<(), GuestMemoryError>(e) && final(self)@ == old(self)@,
            },
    {
        let b = vstd::bytes::u32_to_le_bytes(value);
        proof {
            lemma_le_codec();
        }
        self.write(addr, b.as_slice())
    }

    pub fn write_u64(&mut self, addr: GuestAddress, value: u64) -> (r: Result<(), GuestMemoryError>)
        ensures
            match old(self)@.offset_of(addr.0, 8) {
                Ok(off) => r is Ok && final(self)@ == old(self)@.written(off as int, le64(value)),
                Err(e) => r == Err::<(), GuestMemoryError>(e) && final(self)@ == old(self)@,
            },
    {
        let b = vstd::bytes::u64_to_le_bytes(value);
        proof {
            lemma_le_codec();
        }
        self.write(addr, b.as_slice())
    }
}

/// Reading a range that was just written gives the written bytes back, and the
/// bytes outside it keep their values.
pub proof fn lemma_read_after_write(m: MemoryModel, addr: u64, data: Seq<u8>, other: int)
    requires
        m.offset_of(addr, data.len()) is Ok,
    ensures
        ({
            let off = m.offset_of(addr, data.len())->Ok_0 as int;
            let m2 = m.written(off, data);
            &&& m2.base == m.base
            &&& m2.bytes.len() == m.bytes.len()
            &&& m2.offset_of(addr, data.len()) == m.offset_of(addr, data.len())
            &&& m2.bytes.subrange(off, off + data.len()) == data
            &&& 0 <= other < m.bytes.len() && !(off <= other < off + data.len()) ==> m2.bytes[other]
                == m.bytes[other]
        }),
{
    let off = m.offset_of(addr, data.len())->Ok_0 as int;
    let m2 = m.written(off, data);
    assert(m2.bytes.subrange(off, off + data.len()) =~= data);
}

/// Reading a 32-bit value just written gives the value back.
pub proof fn lemma_read_u32_after_write_u32(m: MemoryModel, addr: u64, value: u32)
    requires
        m.offset_of(addr, 4) is Ok,
    ensures
        ({
            let off = m.offset_of(addr, 4)->Ok_0 as int;
            let m2 = m.written(off, le32(value));
            &&& m2.offset_of(addr, 4) == Ok::<usize, GuestMemoryError>(off as usize)
            &&& vstd::bytes::spec_u32_from_le_bytes(m2.bytes.subrange(off, off + 4)) == value
        }),
{
    lemma_le_codec();
    lemma_read_after_write(m, addr, le32(value), 0);
}

} // verus!
