use rust_virtio_gpu::virtio_gpu::transport::pci::{
    PciBar, VirtioPciCap64, VirtioPciCapability, VirtioPciNotifyCapability, PCI_DEVICE_ID_GPU,
    PCI_VENDOR_ID_VIRTIO, VIRTIO_PCI_CAP_COMMON_CFG, VIRTIO_PCI_CAP_NOTIFY_CFG,
    VIRTIO_PCI_CAP_PCI_CFG, VIRTIO_PCI_CAP_SHARED_MEMORY_CFG,
};
use rust_virtio_gpu::virtio_gpu::transport::pci_config_space::{PciConfigSpace, VirtioPciCfgCapability};

#[test]
fn pci_cfg_capability_round_trip_and_alignment_validation() {
    let mut cap = VirtioPciCfgCapability::new(0, 0x100, 4);
    assert_eq!(cap.access_length(), Some(4));
    assert!(cap.set_access(2, 4, 0x200));
    assert_eq!(cap.cap.bar, 2);
    assert!(!cap.set_access(2, 2, 3));
    assert!(cap.set_data(&[1, 2, 3, 4]));
    assert_eq!(VirtioPciCfgCapability::decode_le(&cap.encode_le()), Some(cap));
}

#[test]
fn pci_header_contains_virtio_gpu_identity() {
    let config = PciConfigSpace::new(PCI_VENDOR_ID_VIRTIO, PCI_DEVICE_ID_GPU);
    assert_eq!(config.read(0, 2), Some(PCI_VENDOR_ID_VIRTIO as u64));
    assert_eq!(config.read(2, 2), Some(PCI_DEVICE_ID_GPU as u64));
    assert_eq!(config.capability_pointer(), PciConfigSpace::FIRST_CAPABILITY);
}

#[test]
fn capability_chain_is_linked() {
    let mut config = PciConfigSpace::new(PCI_VENDOR_ID_VIRTIO, PCI_DEVICE_ID_GPU);
    let common = VirtioPciCapability::new(VIRTIO_PCI_CAP_COMMON_CFG, 0, 0, 0x100);
    let shared = VirtioPciCap64::new(2, 1, 0, 0x1000);
    let pci_cfg = VirtioPciCfgCapability::new(0, 0x100, 4);
    config
        .install_capabilities_with_pci_cfg(&[common], &[], &[shared], Some(pci_cfg))
        .unwrap();
    let first = usize::from(config.capability_pointer());
    assert_eq!(config.read(first + 3, 1), Some(VIRTIO_PCI_CAP_COMMON_CFG as u64));
    let second = config.read(first + 1, 1).unwrap() as usize;
    let third = config.read(second + 1, 1).unwrap() as usize;
    assert_ne!(second, 0);
    assert_ne!(third, 0);
    assert_eq!(config.read(third + 3, 1), Some(VIRTIO_PCI_CAP_PCI_CFG as u64));
    assert_eq!(config.read(third + 1, 1), Some(0));
}

#[test]
fn bar_validation_uses_absolute_address() {
    let mut config = PciConfigSpace::new(PCI_VENDOR_ID_VIRTIO, PCI_DEVICE_ID_GPU);
    let bar = PciBar::new(2, 0x2000_0000, 0x1000);
    assert!(config.set_bar_memory(2, bar.base));
    assert!(config.validate_bar(bar));
}

#[test]
fn capability_wire_round_trips_match_struct_layouts() {
    let base = VirtioPciCapability::new_with_id(VIRTIO_PCI_CAP_SHARED_MEMORY_CFG, 2, 17, 0x1234_0000, 0x2000);
    assert_eq!(VirtioPciCapability::decode_le(&base.encode_le()), Some(base));
    let cap64 = VirtioPciCap64::new(2, 17, 0x1_0000_1234, 0x2_0000_5678);
    assert_eq!(VirtioPciCap64::decode_le(&cap64.encode_le()), Some(cap64));
    assert_eq!(cap64.offset(), 0x1_0000_1234);
    assert_eq!(cap64.length(), 0x2_0000_5678);
    let notify = VirtioPciNotifyCapability::new(0, 0x100, 0x100, 4);
    assert_eq!(VirtioPciNotifyCapability::decode_le(&notify.encode_le()), Some(notify));
}

#[test]
fn installing_nothing_or_too_much_is_refused() {
    let mut config = PciConfigSpace::new(PCI_VENDOR_ID_VIRTIO, PCI_DEVICE_ID_GPU);
    let before = config.bytes().to_vec();
    assert!(config.install_capabilities(&[], &[], &[]).is_err());
    let many = vec![VirtioPciCapability::new(VIRTIO_PCI_CAP_COMMON_CFG, 0, 0, 0x100); 12];
    assert!(config.install_capabilities(&many, &[], &[]).is_err());
    assert_eq!(config.bytes().to_vec(), before);
    let notify = VirtioPciNotifyCapability::new(0, 0x100, 0x100, 4);
    config.install_capabilities(&many[..2], &[notify], &[]).unwrap();
    assert_eq!(config.capability_pointer(), 0x50);
    assert_eq!(config.read(0x50 + 1, 1), Some(0x60));
    assert_eq!(config.read(0x60 + 1, 1), Some(0x70));
    assert_eq!(config.read(0x70 + 3, 1), Some(VIRTIO_PCI_CAP_NOTIFY_CFG as u64));
    assert_eq!(config.read(0x70 + 1, 1), Some(0));
    assert_eq!(config.read(0x70 + 2, 1), Some(20));
}

#[test]
fn config_reads_and_writes_little_endian_values() {
    let mut config = PciConfigSpace::new(PCI_VENDOR_ID_VIRTIO, PCI_DEVICE_ID_GPU);
    assert!(config.write(0x40, 4, 0x1122_3344));
    assert_eq!(config.read(0x40, 4), Some(0x1122_3344));
    assert_eq!(config.read(0x40, 1), Some(0x44));
    assert_eq!(config.read(0x40, 3), None);
    assert_eq!(config.read(4095, 2), None);
    assert!(!config.write(4095, 2, 1));
    assert!(!config.set_bar_memory(6, 0));
    assert!(!config.set_bar_memory(0, 0x1_0000_0000));
    assert_eq!(config.bar(6), None);
}
