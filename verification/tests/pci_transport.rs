use rust_virtio_gpu::virtio_gpu::device::DeviceStatus;
use rust_virtio_gpu::virtio_gpu::features::GpuFeatures;
use rust_virtio_gpu::virtio_gpu::transport::pci::common::CommonConfig;
use rust_virtio_gpu::virtio_gpu::transport::pci::{
    PciTransportError, VirtioPciTransport, VIRTIO_PCI_CAP_COMMON_CFG, VIRTIO_PCI_CAP_DEVICE_CFG,
    VIRTIO_PCI_CAP_NOTIFY_CFG, VIRTIO_PCI_CAP_PCI_CFG, VIRTIO_PCI_CAP_SHARED_MEMORY_CFG,
};
use rust_virtio_gpu::virtio_gpu::transport::pci_config_builder::{
    build_pci_config_space, PciCfgAccessError,
};
use rust_virtio_gpu::virtio_gpu::transport::pci_config_space::VirtioPciCfgCapability;

#[test]
fn default_transport_advertises_shared_memory() {
    let mut transport = VirtioPciTransport::default();
    transport.initialize_default_capabilities().unwrap();

    assert!(transport.capability(VIRTIO_PCI_CAP_COMMON_CFG).is_some());
    assert!(transport.capability(VIRTIO_PCI_CAP_NOTIFY_CFG).is_some());
    assert!(transport.capability(VIRTIO_PCI_CAP_DEVICE_CFG).is_some());
    assert_eq!(transport.shared_memory_capabilities().len(), 1);

    let cap = transport
        .shared_memory_capability(1)
        .expect("shared-memory capability id 1");
    assert_eq!(cap.cap.cfg_type, VIRTIO_PCI_CAP_SHARED_MEMORY_CFG);
    assert_eq!(cap.cap.id, 1);
    assert_eq!(cap.offset(), 0);
    assert_eq!(cap.length(), 0x0400_0000);
}

#[test]
fn shared_memory_selection_exposes_length_and_base() {
    let mut transport = VirtioPciTransport::default();
    transport.initialize_default_capabilities().unwrap();
    transport.write_common(CommonConfig::SHM_SEL, 4, 1).unwrap();

    assert_eq!(
        transport.read_common(CommonConfig::SHM_LEN_LOW, 4).unwrap(),
        0x0400_0000
    );
    assert_eq!(transport.read_common(CommonConfig::SHM_LEN_HIGH, 4).unwrap(), 0);
    assert_eq!(
        transport.read_common(CommonConfig::SHM_BASE_LOW, 4).unwrap(),
        0x2000_0000
    );
    assert_eq!(transport.read_common(CommonConfig::SHM_BASE_HIGH, 4).unwrap(), 0);
}

#[test]
fn nonexistent_shared_memory_is_reported_as_all_ones() {
    let mut transport = VirtioPciTransport::default();
    transport.initialize_default_capabilities().unwrap();
    transport.write_common(CommonConfig::SHM_SEL, 4, 0xfeed).unwrap();

    assert_eq!(
        transport.read_common(CommonConfig::SHM_LEN_LOW, 4).unwrap(),
        u32::MAX as u64
    );
    assert_eq!(
        transport.read_common(CommonConfig::SHM_LEN_HIGH, 4).unwrap(),
        u32::MAX as u64
    );
    assert_eq!(
        transport.read_common(CommonConfig::SHM_BASE_LOW, 4).unwrap(),
        u32::MAX as u64
    );
    assert_eq!(
        transport.read_common(CommonConfig::SHM_BASE_HIGH, 4).unwrap(),
        u32::MAX as u64
    );
}

#[test]
fn shared_memory_storage_is_mutable_and_bounds_checked() {
    let mut transport = VirtioPciTransport::default();
    transport.initialize_default_capabilities().unwrap();

    let bytes = transport
        .shared_memory_region_bytes_mut(1)
        .expect("shared-memory storage");
    bytes[..8].copy_from_slice(&0x1122_3344_5566_7788u64.to_le_bytes());

    assert_eq!(
        transport.shared_memory_region_bytes(1).unwrap()[..8],
        0x1122_3344_5566_7788u64.to_le_bytes()
    );
    assert_eq!(
        transport.shared_memory_region_bytes(99),
        Err(PciTransportError::SharedMemoryNotFound)
    );
}

#[test]
fn feature_and_status_registers_round_trip() {
    let mut transport = VirtioPciTransport::default();
    let low = transport.read_common(CommonConfig::DEVICE_FEATURE, 4).unwrap();
    let offered = transport.device.device_features();
    assert_eq!(low, offered.bits() & u64::from(u32::MAX));

    transport.write_common(CommonConfig::DRIVER_FEATURE, 4, low).unwrap();
    assert_eq!(
        transport.device.driver_features(),
        GpuFeatures::from_bits_truncate(low)
    );

    transport
        .write_common(
            CommonConfig::DEVICE_STATUS,
            1,
            DeviceStatus::ACKNOWLEDGE().bits() as u64,
        )
        .unwrap();
    assert!(transport.device.status().contains(DeviceStatus::ACKNOWLEDGE()));
}

#[test]
fn queue_reset_register_clears_selected_queue() {
    let mut transport = VirtioPciTransport::default();
    transport.write_common(CommonConfig::QUEUE_SELECT, 2, 0).unwrap();
    transport.write_common(CommonConfig::QUEUE_SIZE, 2, 256).unwrap();
    assert_eq!(transport.read_common(CommonConfig::QUEUE_SIZE, 2).unwrap(), 256);

    transport.write_common(CommonConfig::QUEUE_RESET, 2, 1).unwrap();
    assert_eq!(transport.read_common(CommonConfig::QUEUE_SIZE, 2).unwrap(), 0);
    assert_eq!(transport.read_common(CommonConfig::QUEUE_ENABLE, 2).unwrap(), 0);
}

#[test]
fn builder_contains_required_capabilities() {
    let mut transport = VirtioPciTransport::default();
    transport.initialize_default_capabilities().unwrap();
    let config = transport.build_pci_config_space().unwrap();

    let mut cursor = usize::from(config.capability_pointer());
    let mut seen_common = false;
    let mut seen_shared = false;
    let mut seen_pci_cfg = false;

    for _ in 0..32 {
        let cfg_type = config.read(cursor + 3, 1).unwrap() as u8;
        seen_common |= cfg_type == VIRTIO_PCI_CAP_COMMON_CFG;
        seen_shared |= cfg_type == VIRTIO_PCI_CAP_SHARED_MEMORY_CFG;
        seen_pci_cfg |= cfg_type == VIRTIO_PCI_CAP_PCI_CFG;
        let next = config.read(cursor + 1, 1).unwrap() as usize;
        if next == 0 {
            break;
        }
        cursor = next;
    }

    assert!(seen_common);
    assert!(seen_shared);
    assert!(seen_pci_cfg);
}

#[test]
fn pci_cfg_can_read_and_write_device_config() {
    let mut transport = VirtioPciTransport::default();
    transport.initialize_default_capabilities().unwrap();
    let cfg = VirtioPciCfgCapability::new(0, 0x300, 4);
    transport
        .pci_cfg_write(&cfg, &[0xde, 0xad, 0xbe, 0xef])
        .unwrap();
    assert_eq!(
        &transport.pci_cfg_read(&cfg).unwrap()[..4],
        &[0xde, 0xad, 0xbe, 0xef]
    );
}

#[test]
fn pci_cfg_can_read_and_write_shared_memory() {
    let mut transport = VirtioPciTransport::default();
    transport.initialize_default_capabilities().unwrap();
    let cfg = VirtioPciCfgCapability::new(2, 0x100, 4);
    transport.pci_cfg_write(&cfg, &[1, 2, 3, 4]).unwrap();
    assert_eq!(&transport.pci_cfg_read(&cfg).unwrap()[..4], &[1, 2, 3, 4]);
}

#[test]
fn pci_cfg_rejects_unadvertised_ranges() {
    let transport = VirtioPciTransport::default();
    let cfg = VirtioPciCfgCapability::new(2, 0x3ff0, 4);
    assert_eq!(
        transport.pci_cfg_read(&cfg),
        Err(PciCfgAccessError::OutsideAdvertisedRegion)
    );
}

#[test]
fn pci_cfg_reports_each_refusal() {
    let mut transport = VirtioPciTransport::default();
    transport.initialize_default_capabilities().unwrap();

    let wide = VirtioPciCfgCapability::new(0, 0x300, 3);
    assert_eq!(transport.pci_cfg_read(&wide), Err(PciCfgAccessError::InvalidLength));

    let misaligned = VirtioPciCfgCapability::new(0, 0x302, 4);
    assert_eq!(transport.pci_cfg_read(&misaligned), Err(PciCfgAccessError::Misaligned));

    let cfg = VirtioPciCfgCapability::new(0, 0x300, 4);
    assert_eq!(
        transport.pci_cfg_write(&cfg, &[1, 2]),
        Err(PciCfgAccessError::InvalidLength)
    );

    let between = VirtioPciCfgCapability::new(0, 0x200, 4);
    assert_eq!(
        transport.pci_cfg_read(&between),
        Err(PciCfgAccessError::OutsideAdvertisedRegion)
    );

    let bad_register = VirtioPciCfgCapability::new(0, 32, 4);
    assert_eq!(
        transport.pci_cfg_read(&bad_register),
        Err(PciCfgAccessError::Transport(PciTransportError::InvalidAccess))
    );
}

#[test]
fn pci_cfg_reads_common_registers_through_bar0() {
    let mut transport = VirtioPciTransport::default();
    transport.initialize_default_capabilities().unwrap();
    let cfg = VirtioPciCfgCapability::new(0, 18, 2);
    assert_eq!(transport.pci_cfg_read(&cfg).unwrap(), [2, 0, 0, 0]);

    let status = VirtioPciCfgCapability::new(0, 20, 1);
    transport.pci_cfg_write(&status, &[1]).unwrap();
    assert_eq!(transport.pci_cfg_read(&status).unwrap(), [1, 0, 0, 0]);
}

#[test]
fn builder_programs_bars_and_ends_the_chain() {
    let mut transport = VirtioPciTransport::default();
    transport.initialize_default_capabilities().unwrap();
    let config = build_pci_config_space(&transport).unwrap();
    assert_eq!(config.bar(0), Some(0xfe00_0000));
    assert_eq!(config.bar(2), Some(0x2000_0000));
    assert_eq!(config.bar(1), Some(0));

    let mut cursor = usize::from(config.capability_pointer());
    let mut count = 0;
    while cursor != 0 {
        count += 1;
        cursor = config.read(cursor + 1, 1).unwrap() as usize;
    }
    // four structures, one shared-memory region, one configuration-access capability
    assert_eq!(count, 6);
}

#[test]
fn builder_without_capabilities_still_chains_the_access_capability() {
    let transport = VirtioPciTransport::default();
    let config = transport.build_pci_config_space().unwrap();
    let first = usize::from(config.capability_pointer());
    assert_eq!(config.read(first + 3, 1), Some(VIRTIO_PCI_CAP_PCI_CFG as u64));
    assert_eq!(config.read(first + 1, 1), Some(0));
}

#[test]
fn transport_reports_each_register_refusal() {
    let mut transport = VirtioPciTransport::default();
    assert_eq!(
        transport.read_device_config(0xfe, 4),
        Err(PciTransportError::OutOfRange)
    );
    assert_eq!(transport.read_device_config(8, 4), Ok(1));
    assert_eq!(
        transport.write_common(CommonConfig::DEVICE_STATUS, 1, 2),
        Err(PciTransportError::Device(
            rust_virtio_gpu::virtio_gpu::device::DeviceError::InvalidStatusTransition
        ))
    );
    assert_eq!(
        transport.read_common(CommonConfig::QUEUE_DESC, 4),
        Err(PciTransportError::InvalidAccess)
    );
    assert_eq!(
        transport.write_shared_memory(1, 0, &[1]),
        Err(PciTransportError::SharedMemoryNotFound)
    );
    transport.initialize_default_capabilities().unwrap();
    assert_eq!(
        transport.write_shared_memory(1, 0x0400_0000 - 1, &[1, 2]),
        Err(PciTransportError::OutOfRange)
    );
    transport.write_shared_memory(1, 0x0400_0000 - 2, &[1, 2]).unwrap();
    assert_eq!(
        &transport.shared_memory_region_bytes(1).unwrap()[0x0400_0000 - 2..],
        &[1, 2]
    );
}
