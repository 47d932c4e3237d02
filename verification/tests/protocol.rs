use rust_virtio_gpu::virtio_gpu::protocol::commands::{
    BLOB_MEM_GUEST, CAPSET_VENUS, CMD_RESOURCE_CREATE_3D, CMD_SUBMIT_3D, CMD_TRANSFER_TO_HOST_3D,
    CONTEXT_INIT_CAPSET_ID_MASK, RESP_OK_NODATA,
};
use rust_virtio_gpu::virtio_gpu::protocol::header::CtrlHeader;
use rust_virtio_gpu::virtio_gpu::protocol::requests::standard::{
    Box3D, CursorPos, GetEdid, MoveCursor, ResourceAssignUuid, ResourceCreate3D,
    ResourceDetachBacking, ResourceUnref, SetScanoutBlob, TransferHost3D, UpdateCursor,
    RESOURCE_FLAG_Y_0_TOP,
};
use rust_virtio_gpu::virtio_gpu::protocol::requests::submit::{Submit3D, Submit3DCommand};
use rust_virtio_gpu::virtio_gpu::protocol::requests::transfer::ResourceTransferToHost2D;
use rust_virtio_gpu::virtio_gpu::protocol::responses::{Rect, RespOkNoData};
use rust_virtio_gpu::virtio_gpu::protocol::validation::{
    validate_blob, validate_context_init, validate_header, validate_rect, validate_transfer_2d,
    ValidationError,
};

#[test]
fn wire_sizes_match_linux_uapi() {
    assert_eq!(ResourceUnref::SIZE, 32);
    assert_eq!(ResourceDetachBacking::SIZE, 32);
    assert_eq!(GetEdid::SIZE, 32);
    assert_eq!(ResourceAssignUuid::SIZE, 32);
    assert_eq!(SetScanoutBlob::SIZE, 96);
    assert_eq!(ResourceCreate3D::SIZE, 72);
    assert_eq!(Box3D::SIZE, 24);
    assert_eq!(TransferHost3D::SIZE, 72);
    assert_eq!(CursorPos::SIZE, 16);
    assert_eq!(UpdateCursor::SIZE, 56);
    assert_eq!(MoveCursor::SIZE, 40);
}

#[test]
fn scanout_blob_round_trip() {
    let request = SetScanoutBlob::new(
        1,
        2,
        Rect { x: 0, y: 0, width: 1920, height: 1080 },
        1920,
        1080,
        1,
        [7680, 0, 0, 0],
        [0, 0, 0, 0],
    );
    let bytes = request.encode_le();
    let decoded = SetScanoutBlob::decode_le(&bytes).unwrap();
    assert_eq!(decoded, request);
}

#[test]
fn create_3d_round_trip() {
    let request = ResourceCreate3D {
        header: CtrlHeader::new(CMD_RESOURCE_CREATE_3D),
        resource_id: 7,
        target: 2,
        format: 1,
        bind: 0x10,
        width: 64,
        height: 64,
        depth: 1,
        array_size: 1,
        last_level: 0,
        nr_samples: 1,
        flags: RESOURCE_FLAG_Y_0_TOP,
        padding: 0,
    };
    let bytes = request.encode_le();
    assert_eq!(ResourceCreate3D::decode_le(&bytes), Some(request));
}

#[test]
fn transfer_3d_round_trip() {
    let request = TransferHost3D {
        header: CtrlHeader::new(CMD_TRANSFER_TO_HOST_3D),
        box_: Box3D { x: 1, y: 2, z: 3, w: 4, h: 5, d: 6 },
        offset: 128,
        resource_id: 9,
        level: 2,
        stride: 256,
        layer_stride: 16384,
    };
    let bytes = request.encode_le();
    assert_eq!(
        TransferHost3D::decode_le(&bytes, CMD_TRANSFER_TO_HOST_3D),
        Some(request)
    );
}

#[test]
fn submit_size_matches_protocol() {
    assert_eq!(Submit3D::SIZE, 32);
}

#[test]
fn submit_round_trip() {
    let request = Submit3D::new(42, 128);
    let bytes = request.encode_le();
    let decoded = Submit3D::decode_le(&bytes).unwrap();
    assert_eq!(decoded, request);
    assert_eq!(decoded.header.typ, CMD_SUBMIT_3D);
    assert_eq!(decoded.header.ctx_id, 42);
    assert_eq!(decoded.size, 128);
    assert_eq!(decoded.num_in_fences, 0);
}

#[test]
fn submit_with_in_fences_round_trip() {
    let request = Submit3D::with_in_fences(7, 256, 3);
    let decoded = Submit3D::decode_le(&request.encode_le()).unwrap();
    assert_eq!(decoded, request);
    assert_eq!(decoded.num_in_fences, 3);
}

#[test]
fn submit_rejects_short_or_wrong_command() {
    assert_eq!(Submit3D::decode_le(&[0u8; 31]), None);
    let mut bytes = [0u8; Submit3D::SIZE];
    bytes[..24].copy_from_slice(&CtrlHeader::new(0xdead_beef).encode_le());
    assert_eq!(Submit3D::decode_le(&bytes), None);
}

#[test]
fn submit_command_stream_size_is_recorded() {
    let stream = vec![0x11, 0x22, 0x33, 0x44];
    let request = Submit3DCommand::new(7, stream.clone());
    assert_eq!(request.request.header.ctx_id, 7);
    assert_eq!(request.request.header.typ, CMD_SUBMIT_3D);
    assert_eq!(request.request.size, 4);
    assert_eq!(request.request.num_in_fences, 0);
    assert_eq!(request.command_stream_size(), 4);
    assert_eq!(&request.encode()[32..], &stream);
}

#[test]
fn in_fences_are_serialized_before_command_stream() {
    let stream = vec![0xaa, 0xbb, 0xcc, 0xdd];
    let request = Submit3DCommand::with_in_fences(7, vec![11, 22], stream.clone());
    let encoded = request.encode();
    assert_eq!(request.request.num_in_fences, 2);
    assert_eq!(&encoded[32..40], &11u64.to_le_bytes());
    assert_eq!(&encoded[40..48], &22u64.to_le_bytes());
    assert_eq!(&encoded[48..], &stream);
}

#[test]
fn empty_command_stream_is_supported() {
    let request = Submit3DCommand::new(1, Vec::new());
    assert_eq!(request.request.size, 0);
    assert!(request.command_stream.is_empty());
    assert_eq!(request.encode().len(), Submit3D::SIZE);
}

#[test]
fn wire_size_is_56_bytes() {
    assert_eq!(ResourceTransferToHost2D::SIZE, 56);
}

#[test]
fn round_trip() {
    let request = ResourceTransferToHost2D::new(
        7,
        Rect { x: 10, y: 20, width: 1920, height: 1080 },
        0x1234_5678_9abc_def0,
    );
    let encoded = request.encode_le();
    let decoded = ResourceTransferToHost2D::decode(&encoded).unwrap();
    assert_eq!(decoded, request);
}

#[test]
fn rejects_short_or_wrong_command() {
    assert!(ResourceTransferToHost2D::decode(&[0u8; 55]).is_none());
    let mut encoded = [0u8; ResourceTransferToHost2D::SIZE];
    encoded[..24].copy_from_slice(&CtrlHeader::new(0xdead_beef).encode_le());
    assert!(ResourceTransferToHost2D::decode(&encoded).is_none());
}

#[test]
fn rectangle_bounds_are_checked_without_overflow() {
    assert!(validate_rect(100, 100, Rect { x: 90, y: 90, width: 10, height: 10 }).is_ok());
    assert_eq!(
        validate_rect(100, 100, Rect { x: 90, y: 90, width: 11, height: 10 }),
        Err(ValidationError::RectangleOutOfBounds)
    );
}

#[test]
fn transfer_size_is_validated_against_backing() {
    let rect = Rect { x: 0, y: 0, width: 10, height: 2 };
    assert_eq!(validate_transfer_2d(10, 2, rect, 0, 80), Ok(80));
    assert_eq!(
        validate_transfer_2d(10, 2, rect, 1, 80),
        Err(ValidationError::BlobBackingTooSmall)
    );
}

#[test]
fn context_capability_is_checked() {
    assert!(validate_context_init(CAPSET_VENUS & CONTEXT_INIT_CAPSET_ID_MASK, &[CAPSET_VENUS]).is_ok());
    assert_eq!(
        validate_context_init(99, &[CAPSET_VENUS]),
        Err(ValidationError::ContextCapabilityMismatch)
    );
}

#[test]
fn header_fence_rules_are_checked() {
    let good = CtrlHeader::new(1).with_fence(1);
    assert!(validate_header(good, true).is_ok());
    let bad = CtrlHeader::new(1).with_fence(0);
    assert_eq!(validate_header(bad, true), Err(ValidationError::FenceIdRequired));
}

#[test]
fn blob_validation_catches_entry_mismatch() {
    assert_eq!(
        validate_blob(BLOB_MEM_GUEST, 0, 2, 1, 4096, Some(4096), 4096),
        Err(ValidationError::BlobEntryCountMismatch)
    );
}

#[test]
fn create_resource_returns_ok_nodata() {
    let response = RespOkNoData::new();
    assert_eq!(response.header.typ, RESP_OK_NODATA);
}

#[test]
fn header_round_trip_keeps_every_field() {
    let header = CtrlHeader {
        typ: 0x0207,
        flags: 3,
        fence_id: 0x0102_0304_0506_0708,
        ctx_id: 9,
        ring_idx: 2,
        padding: [0, 0, 0],
    };
    let bytes = header.encode_le();
    assert_eq!(bytes[8], 0x08);
    assert_eq!(CtrlHeader::decode_le(&bytes), Some(header));
    assert_eq!(CtrlHeader::decode_le(&bytes[..23]), None);
}
