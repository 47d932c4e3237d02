use rust_virtio_gpu::virtio_gpu::protocol::commands::{
    BLOB_FLAG_USE_MAPPABLE, BLOB_MEM_HOST3D, BLOB_MEM_HOST3D_GUEST, CAPSET_VENUS, CMD_GET_CAPSET_INFO,
    FLAG_FENCE, RESP_ERR_INVALID_CONTEXT_ID, RESP_ERR_OUT_OF_MEMORY, RESP_ERR_UNSPEC, RESP_OK_CAPSET_INFO,
    RESP_OK_NODATA,
};
use rust_virtio_gpu::virtio_gpu::protocol::header::CtrlHeader;
use rust_virtio_gpu::virtio_gpu::protocol::requests::capset::{GetCapset, GetCapsetInfo};
use rust_virtio_gpu::virtio_gpu::protocol::requests::context::{ContextCreate, ContextDestroy};
use rust_virtio_gpu::virtio_gpu::protocol::requests::submit::{Submit3D, Submit3DCommand};
use rust_virtio_gpu::virtio_gpu::venus::dispatcher::VenusDispatchError;
use rust_virtio_gpu::virtio_gpu::venus::fences::{
    contains_memory, error_response, CompletedFence, FenceTranslation, FencedStep, FencedVenusRuntime,
};
use rust_virtio_gpu::virtio_gpu::venus::runtime::{
    BackendCall, BackendFailure, BackendReply, RuntimeStep, VenusRuntime, VenusRuntimeError,
};
use rust_virtio_gpu::virtio_gpu::venus::state::{FenceTracker, VenusState, VenusStateError};

#[test]
fn blob_lifecycle() {
    let mut state = VenusState::new();
    state
        .create_blob(1, 42, 8192, BLOB_MEM_HOST3D_GUEST, BLOB_FLAG_USE_MAPPABLE, 8192)
        .unwrap();
    assert_eq!(state.resources.len(), 1);
    assert_eq!(state.resources.get_mut(&1).unwrap().map(0x1000).unwrap(), 0x1000);
    assert_eq!(state.resources.get_mut(&1).unwrap().unmap(), Ok(()));
    assert_eq!(state.unref_resource(1), Ok(()));
}

#[test]
fn context_attachment_is_symmetric() {
    let mut state = VenusState::new();
    state.create_context(1, CAPSET_VENUS, b"ctx").unwrap();
    state.create_blob(2, 9, 4096, BLOB_MEM_HOST3D, 0, 0).unwrap();
    state.attach_resource(1, 2).unwrap();
    assert!(state.contexts.get(&1).unwrap().attached_resources.contains(&2));
    assert!(state.resources.get(&2).unwrap().attached_contexts.contains(&1));
    state.detach_resource(1, 2).unwrap();
    assert!(state.contexts.get(&1).unwrap().attached_resources.is_empty());
    assert!(state.resources.get(&2).unwrap().attached_contexts.is_empty());
}

#[test]
fn fences_are_monotonic_per_ring() {
    let mut tracker = FenceTracker::default();
    let a = tracker.allocate(0).unwrap();
    let b = tracker.allocate(0).unwrap();
    assert!(b.value > a.value);
    tracker.signal(b).unwrap();
    tracker.signal(a).unwrap();
    assert_eq!(tracker.completed(), b.value);
}

#[test]
fn submit_requires_word_aligned_stream() {
    let mut state = VenusState::new();
    state.create_context(7, CAPSET_VENUS, b"venus").unwrap();
    assert!(state.submit(7, 0, &[0; 8]).is_ok());
    assert_eq!(state.submit(7, 0, &[0; 6]), Err(VenusStateError::InvalidCommandStream));
}

#[test]
fn context_commands_round_trip_through_dispatcher() {
    let mut state = VenusState::new();
    let request = ContextCreate::new(7, CAPSET_VENUS, b"ctx").encode_le();
    let response = state.dispatch(&request).unwrap();
    assert_eq!(CtrlHeader::decode_le(&response.bytes).unwrap().typ, RESP_OK_NODATA);
    assert!(state.contexts.contains_key(&7));
}

#[test]
fn invalid_submit_is_rejected_without_state_mutation() {
    let mut state = VenusState::new();
    state.create_context(1, CAPSET_VENUS, b"ctx").unwrap();
    let request = Submit3D::new(1, 3).encode_le();
    assert_eq!(state.dispatch(&request), Err(VenusDispatchError::InvalidRequest));
    assert_eq!(state.fences.completed(), 0);
}

#[test]
fn submit_uses_global_fence_id() {
    let mut state = VenusState::new();
    state.create_context(1, CAPSET_VENUS, b"ctx").unwrap();
    let request = Submit3D::new(1, 4);
    let mut bytes = request.encode_le().to_vec();
    bytes.extend_from_slice(&[0; 4]);
    let response = state.dispatch(&bytes).unwrap();
    assert_eq!(response.fence, Some(1));
    assert_eq!(state.fences.completed(), 0);
}

#[test]
fn capset_requests_preserve_request_metadata() {
    let header = CtrlHeader {
        typ: CMD_GET_CAPSET_INFO,
        flags: FLAG_FENCE,
        fence_id: 42,
        ctx_id: 7,
        ring_idx: 3,
        padding: [0; 3],
    };
    let mut bytes = GetCapsetInfo::new(0).encode_le().to_vec();
    bytes[..24].copy_from_slice(&header.encode_le());
    assert_eq!(CtrlHeader::decode_le(&bytes).unwrap(), header);
    let request = GetCapset::venus(1);
    let decoded = GetCapset::decode_le(&request.encode_le()).unwrap();
    assert_eq!(decoded.capset_id, CAPSET_VENUS);
}

#[test]
fn runtime_asks_the_backend_for_capset_info() {
    let mut runtime = VenusRuntime::new(1, 256);
    let header = CtrlHeader { typ: CMD_GET_CAPSET_INFO, flags: FLAG_FENCE, fence_id: 42, ctx_id: 7, ring_idx: 3, padding: [0; 3] };
    let mut bytes = GetCapsetInfo::new(0).encode_le().to_vec();
    bytes[..24].copy_from_slice(&header.encode_le());
    let pending = match runtime.begin(&bytes).unwrap() {
        RuntimeStep::Call(p) => p,
        RuntimeStep::Respond(_) => panic!("capset info needs the backend"),
    };
    assert_eq!(pending.call, BackendCall::CapsetInfo);
    let response = runtime.resume(pending, BackendReply::CapsetInfo { version: 1, size: 160 }).unwrap();
    let answered = CtrlHeader::decode_le(&response.bytes).unwrap();
    assert_eq!(answered.typ, RESP_OK_CAPSET_INFO);
    assert_eq!(answered.fence_id, 42);
    assert_eq!(answered.ctx_id, 7);
    assert_eq!(answered.ring_idx, 3);
    assert_eq!(&response.bytes[24..28], &CAPSET_VENUS.to_le_bytes());
    assert_eq!(&response.bytes[28..32], &1u32.to_le_bytes());
    assert_eq!(&response.bytes[32..36], &160u32.to_le_bytes());
    assert_eq!(response.bytes.len(), 40);
    assert_eq!(response.fence, Some(42));
}

#[test]
fn runtime_creates_context_before_asking_backend() {
    let mut runtime = VenusRuntime::new(1, 0);
    let request = ContextCreate::new(5, CAPSET_VENUS, b"game").encode_le();
    let pending = match runtime.begin(&request).unwrap() {
        RuntimeStep::Call(p) => p,
        RuntimeStep::Respond(_) => panic!("context creation needs the backend"),
    };
    assert!(runtime.state.contexts.contains_key(&5));
    assert_eq!(
        pending.call,
        BackendCall::CreateContext { ctx_id: 5, context_init: CAPSET_VENUS, name: b"game".to_vec() }
    );
    let failure = BackendFailure { message: b"Out of Memory".to_vec() };
    assert_eq!(
        runtime.resume(pending.clone(), BackendReply::Failed(failure.clone())),
        Err(VenusRuntimeError::Backend(failure))
    );
    let response = runtime.resume(pending, BackendReply::Done).unwrap();
    assert_eq!(CtrlHeader::decode_le(&response.bytes).unwrap().typ, RESP_OK_NODATA);
}

#[test]
fn runtime_forgets_context_after_backend_destroys_it() {
    let mut runtime = VenusRuntime::new(1, 0);
    runtime.state.create_context(3, CAPSET_VENUS, b"x").unwrap();
    let request = ContextDestroy::new(3).encode_le();
    let pending = match runtime.begin(&request).unwrap() {
        RuntimeStep::Call(p) => p,
        RuntimeStep::Respond(_) => panic!("destroy needs the backend"),
    };
    assert!(runtime.state.contexts.contains_key(&3));
    assert_eq!(pending.call, BackendCall::DestroyContext { ctx_id: 3 });
    runtime.resume(pending, BackendReply::Done).unwrap();
    assert!(!runtime.state.contexts.contains_key(&3));
}

#[test]
fn runtime_rejects_unknown_and_short_requests() {
    let mut runtime = VenusRuntime::new(1, 0);
    assert_eq!(
        runtime.begin(&[0u8; 10]),
        Err(VenusRuntimeError::Dispatch(VenusDispatchError::InvalidRequest))
    );
    assert_eq!(
        runtime.begin(&CtrlHeader::new(0x9999).encode_le()),
        Err(VenusRuntimeError::Dispatch(VenusDispatchError::UnsupportedCommand))
    );
    assert_eq!(
        runtime.begin(&Submit3DCommand::new(1, vec![0; 4]).encode()),
        Err(VenusRuntimeError::State(VenusStateError::InvalidContext))
    );
}

#[test]
fn error_responses_name_the_failing_object() {
    let header = CtrlHeader::new(0x0200).with_fence(9);
    let fenced = CtrlHeader { flags: FLAG_FENCE, ..header };
    let response = error_response(&fenced, &VenusRuntimeError::State(VenusStateError::InvalidContext));
    let h = CtrlHeader::decode_le(&response.bytes).unwrap();
    assert_eq!(h.typ, RESP_ERR_INVALID_CONTEXT_ID);
    assert_eq!(h.fence_id, 9);
    assert_eq!(response.fence, Some(9));
    let oom = error_response(&header, &VenusRuntimeError::Backend(BackendFailure { message: b"device OUT OF MEMORY".to_vec() }));
    assert_eq!(CtrlHeader::decode_le(&oom.bytes).unwrap().typ, RESP_ERR_OUT_OF_MEMORY);
    let other = error_response(&header, &VenusRuntimeError::Backend(BackendFailure { message: b"lost".to_vec() }));
    assert_eq!(CtrlHeader::decode_le(&other.bytes).unwrap().typ, RESP_ERR_UNSPEC);
    assert!(contains_memory(b"xMeMoRy"));
    assert!(!contains_memory(b"memor"));
}

#[test]
fn fenced_submissions_translate_fences_both_ways() {
    let mut runtime = FencedVenusRuntime::new(1, 0);
    runtime.inner.state.create_context(1, CAPSET_VENUS, b"ctx").unwrap();
    let mut command = Submit3DCommand::with_in_fences(1, vec![77], vec![0; 4]);
    command.request.header.flags = FLAG_FENCE;
    command.request.header.fence_id = 500;
    let pending = match runtime.begin(&command.encode()).unwrap() {
        FencedStep::Call(p) => p,
        FencedStep::Respond(_) => panic!("a submission needs the backend"),
    };
    assert!(pending.fenced);
    let response = runtime.resume(pending, BackendReply::Done).unwrap();
    assert_eq!(response.fence, Some(500));
    assert_eq!(&response.bytes[8..16], &500u64.to_le_bytes());
    let reported = runtime.fences.to_guest(CompletedFence { fence_id: 500, ctx_id: 1, ring_idx: 0 });
    assert_eq!(reported.fence_id, 500);
    let unknown = runtime.fences.to_guest(CompletedFence { fence_id: 3, ctx_id: 1, ring_idx: 0 });
    assert_eq!(unknown.fence_id, 3);
}

#[test]
fn in_fences_are_translated_when_known() {
    let mut fences = FenceTranslation::new();
    fences.record(1, 0, 7, 70);
    let request = Submit3DCommand::with_in_fences(1, vec![7, 8], vec![]).encode();
    let out = fences.translate_in_fences(&request, 1, 0, 2);
    assert_eq!(&out[32..40], &70u64.to_le_bytes());
    assert_eq!(&out[40..48], &8u64.to_le_bytes());
    assert_eq!(&out[..32], &request[..32]);
    let back = fences.to_guest(CompletedFence { fence_id: 70, ctx_id: 1, ring_idx: 0 });
    assert_eq!(back.fence_id, 7);
    let again = fences.to_guest(CompletedFence { fence_id: 70, ctx_id: 1, ring_idx: 0 });
    assert_eq!(again.fence_id, 70);
}

#[test]
fn signalled_fences_are_reported_in_order_under_guest_ids() {
    let mut fences = FenceTranslation::new();
    fences.record(1, 0, 7, 70);
    fences.record(2, 1, 9, 90);
    let reported = fences.to_guest_all(vec![
        CompletedFence { fence_id: 90, ctx_id: 2, ring_idx: 1 },
        CompletedFence { fence_id: 5, ctx_id: 1, ring_idx: 0 },
        CompletedFence { fence_id: 70, ctx_id: 1, ring_idx: 0 },
        CompletedFence { fence_id: 70, ctx_id: 1, ring_idx: 0 },
    ]);
    let ids: Vec<u64> = reported.iter().map(|f| f.fence_id).collect();
    assert_eq!(ids, vec![9, 5, 7, 70]);
    assert_eq!(reported[0].ctx_id, 2);
    assert_eq!(reported[0].ring_idx, 1);
}

#[test]
fn fence_ids_are_ordered_across_rings() {
    let mut state = VenusState::new();
    state.create_context(1, CAPSET_VENUS, b"ctx").unwrap();
    let a = state.submit(1, 0, &[0; 4]).unwrap();
    let b = state.submit(1, 1, &[0; 4]).unwrap();
    let c = state.submit(1, 0, &[0; 4]).unwrap();
    assert_eq!((a.value, b.value, c.value), (1, 2, 3));
    assert_eq!(b.ring, 1);
    let mut tracker = FenceTracker::new();
    assert_eq!(tracker.allocate(64), Err(VenusStateError::InvalidRing));
    let p = tracker.allocate(5).unwrap();
    tracker.signal(p).unwrap();
    assert_eq!(tracker.completed(), 1);
}

#[test]
fn fenced_runtime_answers_backend_failures_with_error_responses() {
    let mut runtime = FencedVenusRuntime::new(1, 0);
    let mut request = ContextCreate::new(5, CAPSET_VENUS, b"game");
    request.header.flags = FLAG_FENCE;
    request.header.fence_id = 11;
    let pending = match runtime.begin(&request.encode_le()).unwrap() {
        FencedStep::Call(p) => p,
        FencedStep::Respond(_) => panic!("context creation needs the backend"),
    };
    let failure = BackendFailure { message: b"Out of Memory".to_vec() };
    let response = runtime.resume(pending, BackendReply::Failed(failure)).unwrap();
    let answered = CtrlHeader::decode_le(&response.bytes).unwrap();
    assert_eq!(answered.typ, RESP_ERR_OUT_OF_MEMORY);
    assert_eq!(answered.fence_id, 11);
    assert_eq!(response.fence, Some(11));
}
