use rust_virtio_gpu::virtio_gpu::transport::memory::{GuestAddress, GuestMemory, GuestMemoryError};

#[test]
fn memory_round_trip() {
    let mut memory = GuestMemory::new(GuestAddress::new(0x1000), 64);
    let data = [1, 2, 3, 4, 5];
    memory.write(GuestAddress::new(0x1010), &data).unwrap();
    let mut out = [0u8; 5];
    memory.read(GuestAddress::new(0x1010), &mut out).unwrap();
    assert_eq!(out, data);
}

#[test]
fn memory_rejects_before_base() {
    let memory = GuestMemory::new(GuestAddress::new(0x1000), 64);
    let mut out = [0u8; 1];
    assert_eq!(
        memory.read(GuestAddress::new(0x0fff), &mut out),
        Err(GuestMemoryError::OutOfBounds)
    );
}

#[test]
fn memory_rejects_past_end() {
    let memory = GuestMemory::new(GuestAddress::new(0x1000), 64);
    let mut out = [0u8; 1];
    assert_eq!(
        memory.read(GuestAddress::new(0x1040), &mut out),
        Err(GuestMemoryError::OutOfBounds)
    );
}

#[test]
fn integer_access_is_little_endian() {
    let mut memory = GuestMemory::new(GuestAddress::new(0x1000), 32);
    memory.write_u32(GuestAddress::new(0x1004), 0x11223344).unwrap();
    assert_eq!(memory.read_u32(GuestAddress::new(0x1004)).unwrap(), 0x11223344);
}

#[test]
fn address_overflow_is_rejected() {
    let memory = GuestMemory::new(GuestAddress::new(0x1000), 64);
    let mut out = [0u8; 8];
    assert_eq!(
        memory.read(GuestAddress::new(u64::MAX), &mut out),
        Err(GuestMemoryError::OutOfBounds)
    );
}

#[test]
fn read_gives_back_what_was_written() {
    let mut memory = GuestMemory::new(GuestAddress::new(0x2000), 16);
    memory.write_u64(GuestAddress::new(0x2008), 0x1122_3344_5566_7788).unwrap();
    assert_eq!(memory.read_u64(GuestAddress::new(0x2008)).unwrap(), 0x1122_3344_5566_7788);
    assert_eq!(memory.read_u16(GuestAddress::new(0x2008)).unwrap(), 0x7788);
    let mut out = [0u8; 2];
    memory.read(GuestAddress::new(0x2008), &mut out).unwrap();
    assert_eq!(out, [0x88, 0x77]);
    assert_eq!(memory.read_slice(GuestAddress::new(0x2000), 4).unwrap(), vec![0, 0, 0, 0]);
}

#[test]
fn failed_write_changes_nothing() {
    let mut memory = GuestMemory::new(GuestAddress::new(0x1000), 8);
    assert_eq!(
        memory.write(GuestAddress::new(0x1006), &[1, 2, 3]),
        Err(GuestMemoryError::OutOfBounds)
    );
    assert_eq!(memory.read_slice(GuestAddress::new(0x1000), 8).unwrap(), vec![0; 8]);
    assert_eq!(memory.len(), 8);
    assert_eq!(memory.base(), GuestAddress::new(0x1000));
    assert!(!memory.is_empty());
    assert_eq!(GuestAddress::new(5).offset(3), GuestAddress::new(8));
}
