use rust_virtio_gpu::virtio_gpu::device::{
    DeviceError, DeviceStatus, VirtioGpuDevice, STATUS_ACKNOWLEDGE, STATUS_DRIVER, STATUS_DRIVER_OK,
    STATUS_FEATURES_OK,
};
use rust_virtio_gpu::virtio_gpu::display::edid_block;
use rust_virtio_gpu::virtio_gpu::features::GpuFeatures;
use rust_virtio_gpu::virtio_gpu::protocol::commands::{
    CMD_GET_DISPLAY_INFO, CMD_GET_EDID, CMD_RESOURCE_ATTACH_BACKING, CMD_RESOURCE_CREATE_2D,
    CMD_RESOURCE_FLUSH, CONTROLQ, CURSORQ, RESP_OK_DISPLAY_INFO, RESP_OK_EDID, RESP_OK_NODATA,
};
use rust_virtio_gpu::virtio_gpu::protocol::formats::VirtioGpuFormat;
use rust_virtio_gpu::virtio_gpu::protocol::header::CtrlHeader;
use rust_virtio_gpu::virtio_gpu::protocol::requests::blob::MemEntry;
use rust_virtio_gpu::virtio_gpu::protocol::requests::flush::ResourceFlush;
use rust_virtio_gpu::virtio_gpu::protocol::requests::resource::ResourceCreate2D;
use rust_virtio_gpu::virtio_gpu::protocol::requests::scanout::ResourceSetScanout;
use rust_virtio_gpu::virtio_gpu::protocol::requests::standard::{GetEdid, SetScanoutBlob};
use rust_virtio_gpu::virtio_gpu::protocol::requests::transfer::ResourceTransferToHost2D;
use rust_virtio_gpu::virtio_gpu::protocol::responses::{Rect, RespDisplayInfo, RespOkNoData};
use rust_virtio_gpu::virtio_gpu::transport::memory::GuestAddress;

fn create(device: &mut VirtioGpuDevice, id: u32, width: u32, height: u32) {
    device
        .create_resource_2d(ResourceCreate2D {
            header: CtrlHeader::new(CMD_RESOURCE_CREATE_2D),
            resource_id: id,
            format: VirtioGpuFormat::B8G8R8A8Unorm,
            width,
            height,
        })
        .unwrap();
}

fn negotiated_device() -> VirtioGpuDevice {
    let mut device = VirtioGpuDevice::new();
    device.set_status(STATUS_ACKNOWLEDGE | STATUS_DRIVER).unwrap();
    device
        .set_driver_features(
            (GpuFeatures::VIRGL() | GpuFeatures::RESOURCE_BLOB() | GpuFeatures::CONTEXT_INIT()).bits(),
        )
        .unwrap();
    device.set_status(STATUS_ACKNOWLEDGE | STATUS_DRIVER | STATUS_FEATURES_OK).unwrap();
    device
}

#[test]
fn device_starts_in_reset_state() {
    let device = VirtioGpuDevice::new();
    assert_eq!(device.device_id(), 16);
    assert_eq!(device.status(), DeviceStatus::empty());
    assert_eq!(device.driver_features(), GpuFeatures::empty());
    assert!(!device.is_driver_ok());
}

#[test]
fn device_reports_gpu_features() {
    let device = VirtioGpuDevice::new();
    let features = device.device_features();
    assert!(features.contains(GpuFeatures::VIRGL()));
    assert!(features.contains(GpuFeatures::RESOURCE_BLOB()));
    assert!(features.contains(GpuFeatures::CONTEXT_INIT()));
}

#[test]
fn acknowledge_status_is_accepted() {
    let mut device = VirtioGpuDevice::new();
    device.set_status(STATUS_ACKNOWLEDGE).unwrap();
    assert!(device.status().contains(DeviceStatus::ACKNOWLEDGE()));
}

#[test]
fn driver_requires_acknowledge() {
    let mut device = VirtioGpuDevice::new();
    assert_eq!(device.set_status(STATUS_DRIVER), Err(DeviceError::InvalidStatusTransition));
}

#[test]
fn driver_status_is_accepted_after_acknowledge() {
    let mut device = VirtioGpuDevice::new();
    device.set_status(STATUS_ACKNOWLEDGE | STATUS_DRIVER).unwrap();
    assert!(device.status().contains(DeviceStatus::DRIVER()));
}

#[test]
fn unsupported_features_are_rejected() {
    let mut device = VirtioGpuDevice::new();
    device.set_status(STATUS_ACKNOWLEDGE | STATUS_DRIVER).unwrap();
    let unsupported = 1u64 << 63;
    assert_eq!(device.set_driver_features(unsupported), Err(DeviceError::FeaturesNotSupported));
}

#[test]
fn venus_features_can_be_negotiated() {
    let mut device = VirtioGpuDevice::new();
    device.set_status(STATUS_ACKNOWLEDGE | STATUS_DRIVER).unwrap();
    let features = (GpuFeatures::VIRGL() | GpuFeatures::RESOURCE_BLOB() | GpuFeatures::CONTEXT_INIT()).bits();
    device.set_driver_features(features).unwrap();
    assert_eq!(
        device.driver_features(),
        GpuFeatures::VIRGL() | GpuFeatures::RESOURCE_BLOB() | GpuFeatures::CONTEXT_INIT()
    );
}

#[test]
fn device_context_init_requires_virgl() {
    let mut device = VirtioGpuDevice::new();
    device.set_status(STATUS_ACKNOWLEDGE | STATUS_DRIVER).unwrap();
    device.set_driver_features(GpuFeatures::CONTEXT_INIT().bits()).unwrap();
    assert!(!device.features_are_supported());
}

#[test]
fn features_ok_requires_valid_features() {
    let device = negotiated_device();
    assert!(device.features_ok());
}

#[test]
fn driver_ok_requires_features_ok() {
    let mut device = VirtioGpuDevice::new();
    device.set_status(STATUS_ACKNOWLEDGE | STATUS_DRIVER).unwrap();
    assert_eq!(
        device.set_status(STATUS_ACKNOWLEDGE | STATUS_DRIVER | STATUS_DRIVER_OK),
        Err(DeviceError::InvalidStatusTransition)
    );
}

#[test]
fn queue_configuration_works() {
    let mut device = VirtioGpuDevice::new();
    device.set_status(STATUS_ACKNOWLEDGE | STATUS_DRIVER).unwrap();
    device.configure_queue(CONTROLQ, GuestAddress::new(0x1000), 256).unwrap();
    assert!(device.queue_ready(CONTROLQ).unwrap());
    assert!(!device.queue_ready(CURSORQ).unwrap());
}

#[test]
fn cursor_queue_can_be_configured() {
    let mut device = VirtioGpuDevice::new();
    device.set_status(STATUS_ACKNOWLEDGE | STATUS_DRIVER).unwrap();
    device.configure_queue(CURSORQ, GuestAddress::new(0x4000), 64).unwrap();
    assert!(device.queue_ready(CURSORQ).unwrap());
}

#[test]
fn invalid_queue_is_rejected() {
    let mut device = VirtioGpuDevice::new();
    device.set_status(STATUS_ACKNOWLEDGE | STATUS_DRIVER).unwrap();
    assert_eq!(
        device.configure_queue(2, GuestAddress::new(0x1000), 256),
        Err(DeviceError::QueueIndexInvalid)
    );
}

#[test]
fn reset_clears_device_state() {
    let mut device = VirtioGpuDevice::new();
    device.set_status(STATUS_ACKNOWLEDGE | STATUS_DRIVER).unwrap();
    device.set_driver_features((GpuFeatures::VIRGL() | GpuFeatures::RESOURCE_BLOB()).bits()).unwrap();
    device.configure_queue(CONTROLQ, GuestAddress::new(0x1000), 256).unwrap();
    device.reset();
    assert_eq!(device.status(), DeviceStatus::empty());
    assert_eq!(device.driver_features(), GpuFeatures::empty());
    assert!(!device.queue_ready(CONTROLQ).unwrap());
}

#[test]
fn get_display_info_is_processed() {
    let mut device = negotiated_device();
    create(&mut device, 1, 1920, 1080);
    device.set_scanout(ResourceSetScanout { scanout_id: 0, resource_id: 1, rect: [0, 0, 1920, 1080] }).unwrap();
    device.configure_queue(CONTROLQ, GuestAddress::new(0x1000), 8).unwrap();
    device
        .set_status(STATUS_ACKNOWLEDGE | STATUS_DRIVER | STATUS_FEATURES_OK | STATUS_DRIVER_OK)
        .unwrap();
    assert!(device.control_queue().is_some());
    let request = CtrlHeader::new(CMD_GET_DISPLAY_INFO);
    let response_bytes = device.process_command(&request.encode_le()).unwrap();
    let response = RespDisplayInfo::decode_le(&response_bytes).unwrap();
    assert_eq!(response.header.typ, RESP_OK_DISPLAY_INFO);
    assert_eq!(response.pmodes[0].rect.width, 1920);
    assert_eq!(response.pmodes[0].rect.height, 1080);
    assert_eq!(response.pmodes[0].enabled, 1);
    assert_eq!(response_bytes.len() as u32, RespDisplayInfo::SIZE as u32);
}

#[test]
fn create_resource_2d_allocates_resource() {
    let mut device = VirtioGpuDevice::new();
    create(&mut device, 1, 1980, 1080);
    let resource = device.resource(1).unwrap();
    assert_eq!(resource.width, 1980);
    assert_eq!(resource.height, 1080);
    assert_eq!(resource.data.len(), 1980 * 1080 * 4);
}

#[test]
fn resource_flush_is_processed() {
    let mut device = negotiated_device();
    create(&mut device, 1, 1920, 1080);
    device.configure_queue(CONTROLQ, GuestAddress::new(0x1000), 8).unwrap();
    device
        .set_status(STATUS_ACKNOWLEDGE | STATUS_DRIVER | STATUS_FEATURES_OK | STATUS_DRIVER_OK)
        .unwrap();
    let mut request_bytes = [0u8; ResourceFlush::SIZE];
    request_bytes[0..CtrlHeader::SIZE].copy_from_slice(&CtrlHeader::new(CMD_RESOURCE_FLUSH).encode_le());
    request_bytes[24..28].copy_from_slice(&1u32.to_le_bytes());
    request_bytes[28..32].copy_from_slice(&0u32.to_le_bytes());
    request_bytes[32..36].copy_from_slice(&0u32.to_le_bytes());
    request_bytes[36..40].copy_from_slice(&1920u32.to_le_bytes());
    request_bytes[40..44].copy_from_slice(&1080u32.to_le_bytes());
    let response_bytes = device.process_command(&request_bytes).unwrap();
    let header = CtrlHeader::decode_le(&response_bytes).unwrap();
    assert_eq!(header.typ, RESP_OK_NODATA);
    assert_eq!(response_bytes.len() as u32, RespOkNoData::SIZE as u32);
}

#[test]
fn resource_attach_backing_is_processed() {
    let mut device = negotiated_device();
    create(&mut device, 1, 1920, 1080);
    device.configure_queue(CONTROLQ, GuestAddress::new(0x1000), 8).unwrap();
    device
        .set_status(STATUS_ACKNOWLEDGE | STATUS_DRIVER | STATUS_FEATURES_OK | STATUS_DRIVER_OK)
        .unwrap();
    let mut request_bytes = [0u8; 48];
    request_bytes[0..CtrlHeader::SIZE].copy_from_slice(&CtrlHeader::new(CMD_RESOURCE_ATTACH_BACKING).encode_le());
    request_bytes[24..28].copy_from_slice(&1u32.to_le_bytes());
    request_bytes[28..32].copy_from_slice(&1u32.to_le_bytes());
    let backing_addr = 0x200000u64;
    let backing_len = 1920u32 * 1080u32 * 4;
    request_bytes[32..40].copy_from_slice(&backing_addr.to_le_bytes());
    request_bytes[40..44].copy_from_slice(&backing_len.to_le_bytes());
    request_bytes[44..48].copy_from_slice(&0u32.to_le_bytes());
    let response_bytes = device.process_command(&request_bytes).unwrap();
    let header = CtrlHeader::decode_le(&response_bytes).unwrap();
    assert_eq!(header.typ, RESP_OK_NODATA);
    let resource = device.resource(1).unwrap();
    assert_eq!(resource.backing.len(), 1);
    assert_eq!(resource.backing[0].addr, backing_addr);
    assert_eq!(resource.backing[0].length, backing_len);
    assert_eq!(response_bytes.len() as u32, RespOkNoData::SIZE as u32);
}

#[test]
fn resource_flush_marks_dirty_region() {
    let mut device = VirtioGpuDevice::new();
    create(&mut device, 1, 800, 600);
    let req = ResourceFlush { resource_id: 1, rect: [10, 20, 300, 200] };
    device.resource_flush(req).unwrap();
    let resource = device.resource(1).unwrap();
    assert_eq!(resource.dirty, Some([10, 20, 300, 200]));
}

#[test]
fn framebuffer_returns_scanout_pixels() {
    let mut device = VirtioGpuDevice::new();
    create(&mut device, 1, 64, 64);
    device.set_scanout(ResourceSetScanout { scanout_id: 0, resource_id: 1, rect: [0, 0, 64, 64] }).unwrap();
    let fb = device.framebuffer(0).unwrap();
    assert_eq!(fb.len(), 64 * 64 * 4);
}

#[test]
fn transfer_copies_backing_into_the_resource() {
    let mut device = VirtioGpuDevice::new();
    create(&mut device, 1, 4, 4);
    let backing_data: Vec<u8> = (0u8..64u8).collect();
    device.memory_mut().write(GuestAddress::new(0x200000), &backing_data[..40]).unwrap();
    device.memory_mut().write(GuestAddress::new(0x300000), &backing_data[40..]).unwrap();
    device
        .attach_backing(
            1,
            vec![
                MemEntry { addr: 0x200000, length: 40, padding: 0 },
                MemEntry { addr: 0x300000, length: 100, padding: 0 },
            ],
        )
        .unwrap();
    let transfer = ResourceTransferToHost2D::new(1, Rect { x: 0, y: 0, width: 4, height: 4 }, 0);
    device.transfer_to_host(transfer).unwrap();
    assert_eq!(device.resource(1).unwrap().data, backing_data);
    let too_big = ResourceTransferToHost2D::new(1, Rect { x: 0, y: 0, width: 8, height: 8 }, 0);
    assert_eq!(device.transfer_to_host(too_big), Err(DeviceError::InvalidParameter));
    let past_right = ResourceTransferToHost2D::new(1, Rect { x: 3, y: 0, width: 2, height: 1 }, 0);
    assert_eq!(device.transfer_to_host(past_right), Err(DeviceError::InvalidParameter));
    assert_eq!(device.resource(1).unwrap().data, backing_data);
}

#[test]
fn transfer_writes_from_the_offset() {
    let mut device = VirtioGpuDevice::new();
    create(&mut device, 1, 4, 4);
    let guest: Vec<u8> = (100u8..108u8).collect();
    device.memory_mut().write(GuestAddress::new(0x2000), &guest).unwrap();
    device.attach_backing(1, vec![MemEntry { addr: 0x2000, length: 8, padding: 0 }]).unwrap();
    let row = Rect { x: 1, y: 2, width: 2, height: 1 };
    device.transfer_to_host(ResourceTransferToHost2D::new(1, row, 56)).unwrap();
    let mut expected = vec![0u8; 64];
    expected[56..64].copy_from_slice(&guest);
    assert_eq!(device.resource(1).unwrap().data, expected);
    assert_eq!(
        device.transfer_to_host(ResourceTransferToHost2D::new(1, row, 60)),
        Err(DeviceError::InvalidParameter)
    );
    assert_eq!(device.resource(1).unwrap().data, expected);
}

#[test]
fn transfer_with_too_little_backing_is_an_invalid_resource() {
    let mut device = VirtioGpuDevice::new();
    create(&mut device, 2, 4, 4);
    device.memory_mut().write(GuestAddress::new(0x2000), &[7u8; 10]).unwrap();
    device.attach_backing(2, vec![MemEntry { addr: 0x2000, length: 10, padding: 0 }]).unwrap();
    let whole = Rect { x: 0, y: 0, width: 4, height: 4 };
    assert_eq!(device.transfer_to_host(ResourceTransferToHost2D::new(2, whole, 0)), Err(DeviceError::InvalidResource));
    let mut expected = vec![7u8; 10];
    expected.extend(vec![0u8; 54]);
    assert_eq!(device.resource(2).unwrap().data, expected);
    assert_eq!(device.transfer_to_host(ResourceTransferToHost2D::new(9, whole, 0)), Err(DeviceError::InvalidResource));
}

#[test]
fn flush_redraws_shown_resource_with_renderer() {
    let mut device = VirtioGpuDevice::new();
    create(&mut device, 1, 2, 1);
    device.memory_mut().write(GuestAddress::new(0x1000), &[0, 0, 255, 255, 1, 2, 3, 4]).unwrap();
    device.attach_backing(1, vec![MemEntry { addr: 0x1000, length: 8, padding: 0 }]).unwrap();
    device.set_scanout(ResourceSetScanout { scanout_id: 0, resource_id: 1, rect: [0, 0, 2, 1] }).unwrap();
    assert_eq!(device.display(), Some((2, 1)));
    device.transfer_to_host(ResourceTransferToHost2D::new(1, Rect { x: 0, y: 0, width: 2, height: 1 }, 0)).unwrap();
    device.resource_flush(ResourceFlush { resource_id: 1, rect: [0, 0, 2, 1] }).unwrap();
    let fb = device.present().unwrap();
    assert_eq!(fb.width, 2);
    assert_eq!(fb.height, 1);
    assert_eq!(fb.data, vec![0, 0, 255, 255, 1, 2, 3, 4]);
    device.render().unwrap();
    assert_eq!(device.render_frame().unwrap().data, vec![0, 0, 255, 255, 1, 2, 3, 4]);
}

#[test]
fn set_scanout_errors_and_disable() {
    let mut device = VirtioGpuDevice::new();
    assert_eq!(
        device.set_scanout(ResourceSetScanout { scanout_id: 16, resource_id: 1, rect: [0; 4] }),
        Err(DeviceError::InvalidResource)
    );
    assert_eq!(
        device.set_scanout(ResourceSetScanout { scanout_id: 0, resource_id: 5, rect: [0; 4] }),
        Err(DeviceError::InvalidResource)
    );
    create(&mut device, 5, 8, 8);
    device.set_scanout(ResourceSetScanout { scanout_id: 0, resource_id: 5, rect: [0; 4] }).unwrap();
    assert!(device.framebuffer(0).is_some());
    device.set_scanout(ResourceSetScanout { scanout_id: 0, resource_id: 0, rect: [0; 4] }).unwrap();
    assert!(device.framebuffer(0).is_none());
}

#[test]
fn refused_status_write_changes_nothing_and_zero_resets() {
    let mut device = VirtioGpuDevice::new();
    device.set_status(STATUS_ACKNOWLEDGE).unwrap();
    assert_eq!(device.set_status(STATUS_FEATURES_OK | STATUS_ACKNOWLEDGE), Err(DeviceError::InvalidStatusTransition));
    assert_eq!(device.status().bits(), STATUS_ACKNOWLEDGE);
    let generation = device.config_generation();
    device.set_status(0).unwrap();
    assert_eq!(device.status(), DeviceStatus::empty());
    assert_eq!(device.config_generation(), generation.wrapping_add(1));
    assert_eq!(device.set_driver_features(0x3), Ok(()));
    device.set_status(STATUS_ACKNOWLEDGE | STATUS_DRIVER | STATUS_FEATURES_OK).unwrap();
    assert_eq!(device.set_driver_features(0x1), Err(DeviceError::FeaturesAlreadyNegotiated));
}

#[test]
fn commands_are_processed_or_rejected() {
    let mut device = VirtioGpuDevice::new();
    assert_eq!(device.process_command(&CtrlHeader::new(0x0999).encode_le()), Err(DeviceError::UnsupportedCommand));
    let mut create2d = [0u8; 40];
    create2d[..24].copy_from_slice(&CtrlHeader::new(CMD_RESOURCE_CREATE_2D).encode_le());
    create2d[24..28].copy_from_slice(&3u32.to_le_bytes());
    create2d[28..32].copy_from_slice(&99u32.to_le_bytes());
    assert_eq!(device.process_command(&create2d), Err(DeviceError::InvalidFormat));
    create2d[28..32].copy_from_slice(&1u32.to_le_bytes());
    create2d[32..36].copy_from_slice(&2u32.to_le_bytes());
    create2d[36..40].copy_from_slice(&2u32.to_le_bytes());
    let ok = device.process_command(&create2d).unwrap();
    assert_eq!(CtrlHeader::decode_le(&ok).unwrap().typ, RESP_OK_NODATA);
    assert_eq!(device.process_command(&create2d), Err(DeviceError::ResourceExists));
    assert_eq!(device.process_command(&create2d[..30]), Err(DeviceError::InvalidRequest));
}

#[test]
fn edid_describes_the_scanout() {
    let mut device = VirtioGpuDevice::new();
    create(&mut device, 1, 1920, 1080);
    device.set_scanout(ResourceSetScanout { scanout_id: 0, resource_id: 1, rect: [0, 0, 1920, 1080] }).unwrap();
    let request = GetEdid::new(0).encode_le();
    let response = device.handle_get_edid(&request).unwrap();
    assert_eq!(response.len(), 1056);
    let header = CtrlHeader::decode_le(&response).unwrap();
    assert_eq!(header.typ, RESP_OK_EDID);
    assert_eq!(&response[24..28], &128u32.to_le_bytes());
    let edid = &response[32..160];
    assert_eq!(&edid[..8], &[0x00, 0xff, 0xff, 0xff, 0xff, 0xff, 0xff, 0x00]);
    assert_eq!(edid[21], 20);
    assert_eq!(edid[22], 11);
    assert_eq!(&edid[56..58], &1920u16.to_le_bytes());
    assert_eq!(&edid[58..60], &1080u16.to_le_bytes());
    let sum: u32 = edid.iter().map(|b| *b as u32).sum();
    assert_eq!(sum % 256, 0);
    assert_eq!(edid_block(50, 5000)[21], 1);
    assert_eq!(edid_block(50, 50000)[22], 255);
    assert_eq!(device.handle_get_edid(&GetEdid::new(3).encode_le()), Err(DeviceError::InvalidResource));
    let mut wrong = request;
    wrong[..24].copy_from_slice(&CtrlHeader::new(CMD_GET_EDID + 1).encode_le());
    assert_eq!(device.handle_get_edid(&wrong), Err(DeviceError::InvalidRequest));
}

#[test]
fn scanout_blob_checks_plane_bounds() {
    let mut device = VirtioGpuDevice::new();
    create(&mut device, 1, 64, 32);
    let rect = Rect { x: 0, y: 0, width: 64, height: 32 };
    let good = SetScanoutBlob::new(0, 1, rect, 64, 32, 1, [256, 0, 0, 0], [0, 0, 0, 0]);
    device.handle_set_scanout_blob(&good.encode_le()).unwrap();
    assert!(device.framebuffer(0).is_some());
    let narrow = SetScanoutBlob::new(0, 1, rect, 64, 32, 1, [255, 0, 0, 0], [0, 0, 0, 0]);
    assert_eq!(device.handle_set_scanout_blob(&narrow.encode_le()), Err(DeviceError::InvalidResource));
    let past_end = SetScanoutBlob::new(0, 1, rect, 64, 32, 1, [256, 0, 0, 0], [4, 0, 0, 0]);
    assert_eq!(device.handle_set_scanout_blob(&past_end.encode_le()), Err(DeviceError::InvalidResource));
    let header = CtrlHeader::new(0x0101).with_fence(5);
    let ok = VirtioGpuDevice::ok_no_data_response(header);
    let decoded = CtrlHeader::decode_le(&ok).unwrap();
    assert_eq!(decoded.typ, RESP_OK_NODATA);
    assert_eq!(decoded.fence_id, 5);
    device.handle_detach_backing(1).unwrap();
    assert_eq!(device.handle_detach_backing(2), Err(DeviceError::InvalidResource));
}

#[test]
fn queue_configuration_can_be_changed_in_place() {
    let mut device = VirtioGpuDevice::new();
    assert!(device.control_queue_mut().is_none());
    device.set_status(STATUS_ACKNOWLEDGE | STATUS_DRIVER).unwrap();
    device.configure_queue(CONTROLQ, GuestAddress::new(0x1000), 256).unwrap();
    device.control_queue_mut().unwrap().size = 64;
    assert_eq!(device.control_queue().unwrap().size, 64);
    assert!(device.cursor_queue_mut().is_none());
}

#[test]
fn set_scanout_request_uses_the_uapi_layout() {
    let mut bytes = CtrlHeader::new(rust_virtio_gpu::virtio_gpu::protocol::commands::CMD_SET_SCANOUT)
        .encode_le()
        .to_vec();
    for word in [1u32, 2, 64, 32, 0, 7] {
        bytes.extend_from_slice(&word.to_le_bytes());
    }
    let req = ResourceSetScanout::decode(&bytes).unwrap();
    assert_eq!(req.rect, [1, 2, 64, 32]);
    assert_eq!(req.scanout_id, 0);
    assert_eq!(req.resource_id, 7);
    assert!(ResourceSetScanout::decode(&bytes[..47]).is_none());

    let mut device = negotiated_device();
    create(&mut device, 7, 64, 32);
    let response = device.process_command(&bytes).unwrap();
    assert_eq!(CtrlHeader::decode_le(&response).unwrap().typ, RESP_OK_NODATA);
    assert_eq!(device.framebuffer(0).map(|p| p.len()), Some(64 * 32 * 4));
}
